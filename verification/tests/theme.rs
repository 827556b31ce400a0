use ortseam_gui::theme::{Rgb, SpectrumColors, Theme};
use ortseam_gui::view::{MarkMode, MenuCommand, ViewEvent};

#[test]
fn mark_modes_have_labels() {
    assert_eq!(MarkMode::default(), MarkMode::Off);
    assert_eq!(MarkMode::Mark.label(), "Marking");
}

#[test]
fn every_mark_mode_names_itself() {
    assert_eq!(MarkMode::Off.label(), "Off");
    assert_eq!(MarkMode::UnMark.label(), "UnMarking");
    assert_ne!(ViewEvent::Menu(MenuCommand::Start), ViewEvent::Menu(MenuCommand::Stop));
}

#[test]
fn every_theme_is_listed_once_with_its_name() {
    let labels: Vec<&str> = Theme::all().iter().map(|theme| theme.label()).collect();
    assert_eq!(labels, vec!["Deep space", "Midnight", "Amber CRT", "Paper"]);
    assert!(Theme::DeepSpace.is_dark());
    assert!(Theme::AmberCrt.is_dark());
    assert!(!Theme::Paper.is_dark());
}

#[test]
fn each_theme_brings_its_own_colours() {
    assert_eq!(Theme::DeepSpace.colors(), SpectrumColors::deep_space());
    assert_eq!(Theme::Midnight.colors(), SpectrumColors::midnight());
    assert_eq!(Theme::AmberCrt.colors(), SpectrumColors::amber_crt());
    assert_eq!(Theme::Paper.colors(), SpectrumColors::paper());
    assert_eq!(SpectrumColors::default(), SpectrumColors::deep_space());
    assert_eq!(Theme::Paper.colors().background, Rgb(252, 252, 250));
}

#[test]
fn the_wash_moves_the_background_a_little_towards_the_data() {
    assert_eq!(SpectrumColors::deep_space().background_wash(), Rgb(16, 35, 48));
    assert_eq!(SpectrumColors::paper().background_wash(), Rgb(230, 236, 238));
}

#[test]
fn warm_colours_are_the_reds_oranges_and_yellows() {
    assert!(Rgb(255, 176, 32).is_warm(), "amber");
    assert!(Rgb(239, 68, 68).is_warm(), "red");
    assert!(Rgb(230, 230, 40).is_warm(), "yellow");
    assert!(!Rgb(64, 224, 208).is_warm(), "aqua");
    assert!(!Rgb(128, 128, 128).is_warm(), "grey has no hue");
    assert!(!Rgb(160, 40, 130).is_warm(), "magenta");
    assert!(!Rgb(40, 200, 40).is_warm(), "green");
}

#[test]
fn the_amber_scheme_draws_its_data_in_a_warm_colour_and_the_others_do_not() {
    assert!(SpectrumColors::amber_crt().foreground.is_warm());
    assert!(!SpectrumColors::deep_space().foreground.is_warm());
    assert!(!SpectrumColors::midnight().foreground.is_warm());
    assert!(!SpectrumColors::paper().foreground.is_warm());
}

#[test]
fn a_scheme_is_found_by_part_of_its_name() {
    assert_eq!(Theme::matching("amber"), Some(Theme::AmberCrt));
    assert_eq!(Theme::matching("crt"), Some(Theme::AmberCrt));
    assert_eq!(Theme::matching("night"), Some(Theme::Midnight));
    assert_eq!(Theme::matching("space"), Some(Theme::DeepSpace));
    assert_eq!(Theme::matching("Paper"), None, "the names are compared in lower case");
    assert_eq!(Theme::matching("sepia"), None);
}
