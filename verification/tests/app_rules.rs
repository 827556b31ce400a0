use ortseam_gui::app::{
    already_listed, argument_kind, command_words, configure_status, local_entry_description, default_format, demo_request, local_instrument, network_address, next_detector_number, pin_by_serial,
    launch_plan, remember_file, remember_with, rename_detector, serial_to_learn, InstrumentScan, OpenAs, Rename, RECENT_FILES,
};
use ortseam_gui::theme::Theme;

#[test]
fn an_adapter_serial_pins_the_connection() {
    assert_eq!(pin_by_serial("08134079", 1), Some("08134079"));
    assert_eq!(pin_by_serial("  08134079 ", 2), Some("08134079"));
}

#[test]
fn a_detector_number_is_not_a_pin() {
    assert_eq!(pin_by_serial("1", 1), None);
    assert_eq!(pin_by_serial(" 337 ", 337), None);
    assert_eq!(pin_by_serial("338", 337), Some("338"));
}

#[test]
fn nothing_remembered_pins_nothing() {
    assert_eq!(pin_by_serial("", 1), None);
    assert_eq!(pin_by_serial("   ", 1), None);
}

#[test]
fn a_negative_detector_number_is_written_with_its_sign() {
    assert_eq!(pin_by_serial("-3", -3), None);
    assert_eq!(pin_by_serial("3", -3), Some("3"));
}

#[test]
fn a_probe_reports_who_answered_and_who_did_not() {
    let text = "Detectors:\n  1: Rayleigh\n    model 927\n  2: Mie\n    <no answer>\n  3: Raman\n";
    let scan = InstrumentScan::parse(text);
    assert!(scan.scanned);
    assert_eq!(scan.problem, None);
    assert_eq!(scan.reachable, vec![(1, "Rayleigh".to_string())]);
    assert_eq!(scan.missing, vec![(2, "Mie".to_string())]);
}

#[test]
fn a_probe_line_outside_a_block_is_passed_over() {
    let scan = InstrumentScan::parse("model 927\n<lost>\n");
    assert!(scan.reachable.is_empty());
    assert!(scan.missing.is_empty());
}

#[test]
fn a_header_without_a_number_opens_no_block() {
    let scan = InstrumentScan::parse("x: Rayleigh\nmodel 927\n 12 : Far\r\n model\n");
    assert_eq!(scan.reachable, vec![(12, "Far".to_string())]);
}

#[test]
fn scan_summaries_name_both_lists() {
    assert_eq!(InstrumentScan::parse("").summary(), "no instruments found");
    assert_eq!(
        InstrumentScan::parse("1: A\nmodel\n2: B\nmodel\n").summary(),
        "2 instrument(s) answered"
    );
    assert_eq!(
        InstrumentScan::parse("1: A\n<gone>\n").summary(),
        "1 configured detector(s), none answering"
    );
    assert_eq!(
        InstrumentScan::parse("1: A\nmodel\n2: B\n<gone>\n").summary(),
        "1 instrument(s) answered, 1 configured but not answering"
    );
}

#[test]
fn a_failed_scan_reports_its_problem() {
    let scan = InstrumentScan::failed("the bridge is missing");
    assert!(scan.scanned);
    assert!(scan.reachable.is_empty() && scan.missing.is_empty());
    assert_eq!(scan.summary(), "the bridge is missing");
}

#[test]
fn a_command_line_splits_into_program_and_arguments() {
    assert_eq!(
        command_words("notepad.exe  \"C:\\My Files\\report.txt\"\t-x"),
        vec!["notepad.exe".to_string(), "C:\\My Files\\report.txt".to_string(), "-x".to_string()]
    );
    assert!(command_words("   ").is_empty());
    assert_eq!(command_words("a\"b c\"d"), vec!["ab cd".to_string()]);
}

#[test]
fn the_recent_list_puts_the_latest_first_without_repeats() {
    let mut recent: Vec<String> = vec!["a.chn".into(), "b.spe".into(), "c.spc".into()];
    remember_file(&mut recent, "b.spe");
    assert_eq!(recent, vec!["b.spe".to_string(), "a.chn".to_string(), "c.spc".to_string()]);
    remember_file(&mut recent, "d.chn");
    assert_eq!(recent[0], "d.chn");
    assert_eq!(recent.len(), 4);
}

#[test]
fn the_recent_list_keeps_only_the_last_few() {
    let mut recent: Vec<String> = Vec::new();
    for index in 0..20 {
        remember_file(&mut recent, &format!("spectrum{index}.chn"));
    }
    assert_eq!(recent.len(), RECENT_FILES);
    assert_eq!(recent[0], "spectrum19.chn");
    assert_eq!(recent[RECENT_FILES - 1], "spectrum12.chn");
}

#[test]
fn spectra_are_saved_as_chn_unless_asked_otherwise() {
    assert_eq!(default_format(), "chn");
}

#[test]
fn a_new_detector_takes_the_lowest_free_number() {
    assert_eq!(next_detector_number(&[], 8), 1);
    assert_eq!(next_detector_number(&[1, 2, 4], 8), 3);
    assert_eq!(next_detector_number(&[2, 1, 3], 8), 4);
    assert_eq!(next_detector_number(&[1, 2], 2), 1, "every number taken: the first again");
    assert_eq!(next_detector_number(&[5], 0), 1);
    assert_eq!(next_detector_number(&[1], u16::MAX), 2);
}

#[test]
fn a_demonstration_request_names_a_scheme_and_a_state() {
    assert_eq!(demo_request("amber:peak"), (Some(Theme::AmberCrt), "peak".to_string()));
    assert_eq!(demo_request("paper:"), (Some(Theme::Paper), String::new()));
    assert_eq!(demo_request("nosuch:tile"), (None, "tile".to_string()));
    assert_eq!(demo_request("tile"), (None, "tile".to_string()));
    assert_eq!(demo_request(":help"), (Some(Theme::DeepSpace), "help".to_string()), "an empty name matches the first scheme");
    assert_eq!(demo_request("a:b:c"), (Some(Theme::DeepSpace), "b:c".to_string()));
}

#[test]
fn renaming_a_detector_trims_and_refuses_an_empty_name() {
    assert_eq!(rename_detector("Rayleigh", "  Mie "), Rename::To("Mie".to_string()));
    assert_eq!(rename_detector("Rayleigh", "   "), Rename::Refused);
    assert_eq!(rename_detector("Rayleigh", ""), Rename::Refused);
    assert_eq!(rename_detector("Rayleigh", " Rayleigh\t"), Rename::Unchanged);
}

#[test]
fn a_local_instrument_is_reached_by_its_number_and_library_folder() {
    assert_eq!(local_instrument("3"), Some((3, None)));
    assert_eq!(local_instrument(" 3 ; /opt/umcbi "), Some((3, Some("/opt/umcbi".to_string()))));
    assert_eq!(local_instrument("3;"), Some((3, None)));
    assert_eq!(local_instrument("3; ;extra"), Some((3, None)));
    assert_eq!(local_instrument("3;dir;extra"), Some((3, Some("dir".to_string()))));
    assert_eq!(local_instrument(""), None);
    assert_eq!(local_instrument("three;dir"), None);
    assert_eq!(local_instrument("-2"), Some((-2, None)));
}

#[test]
fn a_network_instrument_needs_an_address() {
    assert_eq!(network_address(" 192.168.0.40:2000 "), Some("192.168.0.40:2000".to_string()));
    assert_eq!(network_address("   "), None);
}

#[test]
fn an_instrument_teaches_its_serial_once() {
    assert_eq!(serial_to_learn("", " 08134079 "), Some("08134079".to_string()));
    assert_eq!(serial_to_learn("  ", ""), None);
    assert_eq!(serial_to_learn("08134079", "99999999"), None, "a remembered serial is kept");
}

#[test]
fn a_file_on_the_command_line_opens_by_its_extension() {
    assert_eq!(argument_kind("job"), OpenAs::Job);
    assert_eq!(argument_kind("JOB"), OpenAs::Job);
    assert_eq!(argument_kind("Lib"), OpenAs::Library);
    assert_eq!(argument_kind("csv"), OpenAs::Library);
    assert_eq!(argument_kind("Chn"), OpenAs::Spectrum);
    assert_eq!(argument_kind(""), OpenAs::Spectrum);
    assert_eq!(argument_kind("jobs"), OpenAs::Spectrum);
}

#[test]
fn configuring_reports_the_bridges_own_line() {
    let output = "probing\r\nwrote 2 instruments to detectors.cfg\r\nwrote log\n";
    assert_eq!(configure_status(output), "wrote 2 instruments to detectors.cfg");
    assert_eq!(configure_status("nothing here\n"), "the bridge configured what it found");
    assert_eq!(configure_status("wrote 1 instrument"), "wrote 1 instrument", "the last line needs no line feed");
    assert_eq!(configure_status("wrote 1 instrument\r"), "wrote 1 instrument\r", "a carriage return stays without a line feed after it");
    assert_eq!(configure_status(" wrote 1 instrument\n"), "the bridge configured what it found", "the line must start with it");
}

#[test]
fn a_local_instrument_already_listed_is_not_added_twice() {
    let descriptions = vec!["3;/opt/umcbi".to_string(), "7".to_string(), " 9".to_string()];
    assert!(already_listed(&descriptions, 3));
    assert!(already_listed(&descriptions, 7));
    assert!(!already_listed(&descriptions, 9), "the number must be written exactly");
    assert!(!already_listed(&descriptions, 1));
    assert!(!already_listed(&Vec::new(), 3));
}

#[test]
fn a_local_instrument_is_listed_with_its_library_folder() {
    assert_eq!(local_entry_description(3, ""), "3");
    assert_eq!(local_entry_description(3, "  /opt/umcbi "), "3;/opt/umcbi");
    assert_eq!(local_entry_description(-1, "x"), "-1;x");
}

#[test]
fn a_job_line_launches_its_first_word_with_the_rest() {
    assert_eq!(
        launch_plan("  analyse  \"my file.chn\" -q"),
        Ok(("analyse".to_string(), vec!["my file.chn".to_string(), "-q".to_string()]))
    );
    assert_eq!(launch_plan("report"), Ok(("report".to_string(), Vec::new())));
}

#[test]
fn an_empty_job_line_is_refused() {
    assert_eq!(launch_plan(""), Err("an empty command line".to_string()));
    assert_eq!(launch_plan(" \t \"\" "), Err("an empty command line".to_string()));
}

#[test]
fn one_file_written_two_ways_is_remembered_once() {
    let mut recent = Vec::new();
    remember_file(&mut recent, "data//a.chn");
    remember_file(&mut recent, "data/a.chn");
    assert_eq!(recent, vec!["data/a.chn".to_string()]);
}

#[test]
fn remembering_drops_the_entries_marked_the_same() {
    let mut recent = vec!["x".to_string(), "y".to_string(), "z".to_string()];
    remember_with(&mut recent, "w", &vec![false, true, false]);
    assert_eq!(recent, vec!["w".to_string(), "x".to_string(), "z".to_string()]);
}

#[test]
fn other_files_stay_in_the_recent_list_in_order() {
    let mut recent = Vec::new();
    remember_file(&mut recent, "data/a.chn");
    remember_file(&mut recent, "data/b.chn");
    remember_file(&mut recent, "data/c.chn");
    remember_file(&mut recent, "data/./b.chn");
    assert_eq!(recent, vec!["data/./b.chn".to_string(), "data/c.chn".to_string(), "data/a.chn".to_string()]);
}
