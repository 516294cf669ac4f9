use razorshot::cli::{select_action, AppAction, Cli, Command};
use razorshot::config::{default_export_format, default_jpeg_quality, Config};
use razorshot::portal::percent_decode;
use razorshot::tray::TrayAction;

#[test]
fn defaults_are_as_documented() {
    assert_eq!(default_export_format(), "png");
    assert_eq!(default_jpeg_quality(), 90);
    let config = Config::default();
    assert_eq!(config.save_dir, "~/Pictures/Screenshots");
    assert_eq!(config.filename_template, "Screenshot_%Y-%m-%d_%H-%M-%S");
    assert_eq!(config.export_format, "png");
    assert_eq!(config.annotation.default_color, "#ff0000");
    assert_eq!(config.annotation.line_width, 3);
    assert_eq!(config.annotation.font_size, 16);
    assert_eq!(config.annotation.blur_block_size, 10);
    assert_eq!(config.annotation.jpeg_quality, 90);
    assert!(config.behavior.open_editor);
    assert!(config.behavior.copy_to_clipboard);
    assert!(config.behavior.show_notification);
    assert_eq!(config.behavior.default_action, "tray");
}

#[test]
fn percent_escapes_are_decoded() {
    assert_eq!(percent_decode("/tmp/plain.png"), "/tmp/plain.png");
    assert_eq!(percent_decode("/tmp/my%20shot.png"), "/tmp/my shot.png");
    assert_eq!(percent_decode("%41%62%2f%2F"), "Ab//");
    assert_eq!(percent_decode(""), "");
}

#[test]
fn broken_escapes_are_dropped_with_their_two_bytes() {
    assert_eq!(percent_decode("a%zzb"), "ab");
    assert_eq!(percent_decode("a%4gbc"), "abc");
    assert_eq!(percent_decode("a%g4bc"), "abc");
    assert_eq!(percent_decode("ab%4"), "ab");
    assert_eq!(percent_decode("ab%"), "ab");
    assert_eq!(percent_decode("%%41"), "1");
    assert_eq!(percent_decode("%+1x"), "x");
}

#[test]
fn bytes_decode_to_the_character_with_their_code() {
    assert_eq!(percent_decode("%e9"), "\u{e9}");
    assert_eq!(percent_decode("%C3%A9"), "\u{c3}\u{a9}");
    // The two bytes of a character outside ASCII are taken one by one.
    assert_eq!(percent_decode("\u{e9}"), "\u{c3}\u{a9}");
}

#[test]
fn command_line_selects_the_action() {
    let full = |no_edit, monitor| Cli { command: Some(Command::Full { no_edit, monitor }) };
    assert_eq!(select_action(full(true, Some(1)), "tray"), AppAction::FullNoEdit { monitor: Some(1) });
    assert_eq!(select_action(full(false, None), "region"), AppAction::FullEdit { monitor: None });
    let region = |no_edit| Cli { command: Some(Command::Region { no_edit }) };
    assert_eq!(select_action(region(true), "full"), AppAction::RegionNoEdit);
    assert_eq!(select_action(region(false), "full"), AppAction::RegionEdit);
    assert_eq!(select_action(Cli { command: Some(Command::Tray) }, "full"), AppAction::Tray);
}

#[test]
fn configuration_command_shows_or_sets() {
    let config = |show, save_dir: Option<&str>| Cli {
        command: Some(Command::Config { show, save_dir: save_dir.map(|s| s.to_string()) }),
    };
    assert_eq!(select_action(config(true, None), "tray"), AppAction::ShowConfig);
    assert_eq!(select_action(config(true, Some("/x")), "tray"), AppAction::ShowConfig);
    assert_eq!(
        select_action(config(false, Some("/x")), "tray"),
        AppAction::SetSaveDir("/x".to_string())
    );
    assert_eq!(select_action(config(false, None), "tray"), AppAction::ShowConfig);
}

#[test]
fn no_command_takes_the_configured_default() {
    let none = || Cli { command: None };
    assert_eq!(select_action(none(), "region"), AppAction::RegionEdit);
    assert_eq!(select_action(none(), "full"), AppAction::FullEdit { monitor: None });
    assert_eq!(select_action(none(), "tray"), AppAction::Tray);
    assert_eq!(select_action(none(), "Region"), AppAction::Tray);
    assert_eq!(select_action(none(), ""), AppAction::Tray);
}

#[test]
fn tray_actions_are_distinct() {
    assert_ne!(TrayAction::CaptureRegion, TrayAction::CaptureFullScreen);
    assert_ne!(TrayAction::CaptureFullScreen, TrayAction::Quit);
    assert_eq!(TrayAction::Quit, TrayAction::Quit.clone());
}
