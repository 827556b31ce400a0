use ortseam_gui::dialogs::{case_variants, next_id, spellings_from, Dialog, Dialogs};

#[test]
fn a_filter_matches_the_capitals_ortec_actually_writes() {
    let patterns = case_variants(&["spe"]);
    assert!(patterns.contains(&"Spe".to_string()), "{patterns:?}");
    assert!(patterns.contains(&"spe".to_string()), "{patterns:?}");
    assert!(patterns.contains(&"SPE".to_string()), "{patterns:?}");
}

#[test]
fn a_filter_written_in_capitals_still_offers_the_lowercase_spelling() {
    let patterns = case_variants(&["Chn"]);
    assert!(patterns.contains(&"chn".to_string()), "{patterns:?}");
    assert!(patterns.contains(&"Chn".to_string()), "{patterns:?}");
}

#[test]
fn a_filter_lists_each_spelling_once() {
    let patterns = case_variants(&["chn", "spc", "spe", "json", "txt", "lis"]);
    let mut sorted = patterns.clone();
    sorted.sort();
    sorted.dedup();
    assert_eq!(sorted.len(), patterns.len(), "{patterns:?}");
}

#[test]
fn spellings_come_lower_capitalised_upper_in_order() {
    assert_eq!(case_variants(&["sPe"]), vec!["spe".to_string(), "Spe".to_string(), "SPE".to_string()]);
    // Digits have no case: one spelling covers all three.
    assert_eq!(case_variants(&["123"]), vec!["123".to_string()]);
    // A first letter outside ASCII is left as it is by the capitalising.
    assert_eq!(case_variants(&["éa"]), vec!["éa".to_string(), "ÉA".to_string()]);
    assert!(case_variants(&[]).is_empty());
}

#[test]
fn every_dialog_is_listed_once() {
    let all = Dialog::all();
    assert_eq!(all.len(), 26);
    assert!(all.contains(&Dialog::Recover));
    for (i, a) in all.iter().enumerate() {
        for b in &all[i + 1..] {
            assert_ne!(a, b);
        }
    }
    assert_eq!(all[0], Dialog::McbProperties);
    assert_eq!(all[25], Dialog::OpenPath);
}

#[test]
fn opening_a_dialog_twice_lists_it_once() {
    let mut dialogs = Dialogs::new();
    assert!(!dialogs.any_open());
    dialogs.open(Dialog::Calibration);
    dialogs.open(Dialog::Calibration);
    assert!(dialogs.is_open(Dialog::Calibration));
    assert!(!dialogs.is_open(Dialog::Qa));
    assert!(dialogs.any_open());
    assert_eq!(dialogs.shown.len(), 1);
}

#[test]
fn escape_closes_every_dialog_and_names_each_once() {
    let mut dialogs = Dialogs::new();
    dialogs.open(Dialog::Calibration);
    dialogs.open(Dialog::McbProperties);
    dialogs.open(Dialog::Calibration);
    let mut closed = dialogs.close_all();
    closed.sort_by_key(|dialog| format!("{dialog:?}"));
    assert_eq!(closed, vec![Dialog::Calibration, Dialog::McbProperties]);
    assert!(!dialogs.any_open());
    assert!(dialogs.close_all().is_empty());
}

#[test]
fn setting_a_dialog_says_whether_an_open_one_closed() {
    let mut dialogs = Dialogs::new();
    assert!(!dialogs.set(Dialog::Strip, true));
    assert!(dialogs.is_open(Dialog::Strip));
    assert!(dialogs.set(Dialog::Strip, false));
    assert!(!dialogs.is_open(Dialog::Strip));
    assert!(!dialogs.set(Dialog::Strip, false), "closing a closed dialog closes nothing");
}

#[test]
fn the_next_sample_identifier_counts_on_at_the_same_width() {
    assert_eq!(next_id("S008"), "S009");
    assert_eq!(next_id("S009"), "S010");
    assert_eq!(next_id("S099"), "S100");
    assert_eq!(next_id("S999"), "S1000");
    assert_eq!(next_id("7"), "8");
    assert_eq!(next_id("run-2-04"), "run-2-05");
}

#[test]
fn an_identifier_without_a_number_gains_one() {
    assert_eq!(next_id("A"), "A1");
    assert_eq!(next_id(""), "1");
    assert_eq!(next_id("S1x"), "S1x1");
}

#[test]
fn a_number_too_long_to_read_starts_again_at_one() {
    assert_eq!(next_id("S99999999999999999999"), "S00000000000000000001");
}

#[test]
fn spellings_come_from_the_case_forms_each_once() {
    let forms = vec![
        ("chn".to_string(), "CHN".to_string()),
        ("spe".to_string(), "SPE".to_string()),
        ("chn".to_string(), "CHN".to_string()),
        ("1".to_string(), "1".to_string()),
    ];
    assert_eq!(spellings_from(&forms), vec!["chn", "Chn", "CHN", "spe", "Spe", "SPE", "1"]);
    assert!(spellings_from(&Vec::new()).is_empty());
}
