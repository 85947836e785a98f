use std::collections::HashMap;

use waydoodle::actions::{Action, GlobalAccels, GlobalAction, GlobalTrigger};
use waydoodle::canvas::Color;
use waydoodle::config::{Config, PadConfig};
use waydoodle::waydoodle::Tool;

fn with_buttons(buttons: &[(u32, &str)]) -> PadConfig {
    let map: HashMap<u32, String> = buttons.iter().map(|(b, n)| (*b, n.to_string())).collect();
    PadConfig { enabled: None, buttons: Some(map) }
}

#[test]
fn pad_support_is_unset_unless_configured() {
    assert_eq!(Config::default().pad.enabled, None);
    assert_eq!(PadConfig::default().enabled, None);
    assert_eq!(PadConfig { enabled: Some(false), buttons: None }.enabled, Some(false));
}

#[test]
fn default_accels_are_used_when_no_buttons_are_configured() {
    let config = PadConfig { enabled: Some(true), buttons: None };
    assert_eq!(config.accels(), GlobalAccels::default());
}

#[test]
fn configured_buttons_replace_the_defaults() {
    let config = with_buttons(&[(0, "undo"), (7, "pen-#ff8800")]);
    let accels = config.accels();
    assert_eq!(accels.get(GlobalTrigger::PadButton(0)), Some(GlobalAction::Overlay(Action::Undo)));
    assert_eq!(
        accels.get(GlobalTrigger::PadButton(7)),
        Some(GlobalAction::Overlay(Action::SetTool(Tool::Pen(Color::from_name("#ff8800").unwrap()))))
    );
    // Button 1 is close-overlay by default, but the table was replaced.
    assert_eq!(accels.get(GlobalTrigger::PadButton(1)), None);
    assert!(config.ignored_buttons().is_empty());
}

#[test]
fn unknown_action_names_are_skipped() {
    let config = with_buttons(&[(0, "nonsense"), (1, "undo")]);
    let accels = config.accels();
    assert_eq!(accels.get(GlobalTrigger::PadButton(0)), None);
    assert_eq!(accels.get(GlobalTrigger::PadButton(1)), Some(GlobalAction::Overlay(Action::Undo)));
    assert_eq!(config.ignored_buttons(), vec![0]);
}

#[test]
fn each_ignored_button_is_reported_once() {
    let config = with_buttons(&[(3, "nonsense"), (1, "undo"), (7, "also-nonsense"), (2, "")]);
    let mut ignored = config.ignored_buttons();
    ignored.sort();
    assert_eq!(ignored, vec![2, 3, 7]);
}

#[test]
fn an_empty_button_table_unbinds_everything() {
    let config = with_buttons(&[]);
    assert_eq!(config.accels(), GlobalAccels::empty());
}
