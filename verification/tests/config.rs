use ghostty::config::{Config, ConfigColor, Source};
use ghostty::fields::Field;
use ghostty::runtime::{activate, RuntimeState};

fn bytes(v: &[u8]) -> Vec<u8> {
    v.to_vec()
}

#[test]
fn config_create() {
    let (_, token) = activate(RuntimeState::Uninitialized, 0);
    let ghostty = token.expect("Could not init");
    let conf = ghostty.create_config();
    println!("{:?}", conf);
    assert!(!conf.is_finalized());
    assert_eq!(conf.diagnostics().len(), 0);
}

#[test]
fn config_load() {
    let mut conf = Config::open();
    let mut source = Source::new();
    source.set(Field::Title, bytes(b"loaded\0"));
    conf.load_default_files(&source);
    conf.load_recursive_files(&Source::new());
    conf.finalize(&Vec::new());
    println!("{:?}", conf);
    assert_eq!(conf.window_title(), "loaded");
}

#[test]
fn config_get() {
    let mut conf = Config::open();
    let mut source = Source::new();
    source.set(Field::ResizeOverlayDuration, bytes(&[0x2C, 0x01, 0, 0, 0, 0, 0, 0]));
    conf.load_default_files(&source);
    conf.finalize(&Vec::new());
    println!("val 'resize-overlay-duration' is {:?}", conf.resize_overlay_duration_ms());
    assert_eq!(conf.resize_overlay_duration_ms(), 300);
}

#[test]
fn config_title() {
    let mut conf = Config::open();
    let mut source = Source::new();
    source.set(Field::Title, bytes(b"my terminal\0"));
    conf.load_default_files(&source);
    conf.finalize(&Vec::new());
    println!("val 'title' is {:?}", conf.window_title());
    assert_eq!(conf.window_title(), "my terminal");
}

#[test]
fn diagnostics() {
    let mut conf = Config::open();
    let mut source = Source::new();
    source.set(Field::Title, bytes(b"t\0"));
    conf.load_default_files(&source);
    let reported = vec![bytes(b"font \"nope\" not found\0"), bytes(b"invalid color\0")];
    conf.finalize(&reported);
    for diag in conf.diagnostics() {
        println!("{:?}", diag);
    }
    // one diagnostic per reported message, in index order
    let diags = conf.diagnostics();
    assert_eq!(diags.len(), 2);
    assert_eq!(diags[0].message, "font \"nope\" not found");
    assert_eq!(diags[1].message, "invalid color");
}

#[test]
fn diagnostics_empty_before_finalize() {
    let mut conf = Config::open();
    let mut source = Source::new();
    source.set(Field::InitialWindow, bytes(&[1]));
    conf.load_default_files(&source);
    assert_eq!(conf.diagnostics().len(), 0);
    conf.finalize(&vec![bytes(b"unknown key\0")]);
    assert_eq!(conf.diagnostics().len(), 1);
    assert_eq!(conf.diagnostics()[0].message, "unknown key");
}

#[test]
fn diagnostics_restartable() {
    let mut conf = Config::open();
    let mut source = Source::new();
    source.set(Field::Title, bytes(b"t\0"));
    conf.load_cli_args(&source);
    conf.finalize(&vec![bytes(b"first problem\0"), bytes(b"second problem\0")]);
    let first = conf.diagnostics();
    let second = conf.diagnostics();
    assert_eq!(first, second);
    assert_eq!(first.len(), 2);
    assert_eq!(first[0].message, "first problem");
    assert_eq!(first[1].message, "second problem");
}

#[test]
fn diagnostic_message_with_invalid_utf8_is_replaced() {
    let mut conf = Config::open();
    conf.finalize(&vec![vec![b'b', b'a', b'd', b' ', 0xFF, b'!', 0]]);
    let diags = conf.diagnostics();
    assert_eq!(diags.len(), 1);
    assert_eq!(diags[0].message, "bad \u{FFFD}!");
}

#[test]
fn fresh_finalized_defaults() {
    let mut conf = Config::open();
    conf.finalize(&Vec::new());
    assert_eq!(conf.diagnostics().len(), 0);
    assert_eq!(conf.create_initial_window(), false);
    assert_eq!(conf.do_quit_after_window_closed(), false);
    assert_eq!(conf.window_title(), "");
    assert_eq!(conf.window_position(), (0, 0));
    assert_eq!(conf.window_new_tab_position(), "");
    assert_eq!(conf.window_decorations(), false);
    assert_eq!(conf.window_theme(), "");
    assert_eq!(conf.window_step_resize(), false);
    assert_eq!(conf.window_fullscreen(), false);
    assert_eq!(conf.window_title_font_family(), "");
    assert_eq!(conf.focus_follows_mouse(), false);
    assert_eq!(conf.background_color(), ConfigColor { r: 0, g: 0, b: 0 });
    assert_eq!(conf.foreground_color(), ConfigColor { r: 0, g: 0, b: 0 });
    assert_eq!(conf.background_blur_radius(), 0);
    assert_eq!(conf.unfocused_split_fill(), ConfigColor { r: 0, g: 0, b: 0 });
    assert_eq!(conf.split_divider_color(), ConfigColor { r: 0, g: 0, b: 0 });
    assert_eq!(conf.resize_overlay(), "");
    assert_eq!(conf.resize_overlay_position(), "");
    assert_eq!(conf.resize_overlay_duration_ms(), 0);
    assert_eq!(conf.start_maximized(), false);
}

#[test]
fn load_order_precedence() {
    let mut conf = Config::open();
    let mut defaults = Source::new();
    defaults.set(Field::Title, bytes(b"from default files\0"));
    defaults.set(Field::Fullscreen, bytes(&[1]));
    conf.load_default_files(&defaults);
    let mut cli = Source::new();
    cli.set(Field::Title, bytes(b"from cli args\0"));
    conf.load_cli_args(&cli);
    conf.finalize(&Vec::new());
    // the CLI source loaded later wins; untouched fields keep earlier values
    assert_eq!(conf.window_title(), "from cli args");
    assert_eq!(conf.window_fullscreen(), true);
}

#[test]
fn later_entry_wins_within_source() {
    let mut conf = Config::open();
    let mut source = Source::new();
    source.set(Field::BackgroundBlur, bytes(&[10]));
    source.set(Field::BackgroundBlur, bytes(&[20]));
    conf.load_cli_args(&source);
    assert_eq!(conf.background_blur_radius(), 20);
}

#[test]
fn clone_is_independent() {
    let mut conf = Config::open();
    let mut source = Source::new();
    source.set(Field::Title, bytes(b"original\0"));
    source.set(Field::Maximize, bytes(&[1]));
    conf.load_default_files(&source);
    let snapshot = conf.clone();
    let mut overlay = Source::new();
    overlay.set(Field::Title, bytes(b"changed\0"));
    conf.load_cli_args(&overlay);
    conf.finalize(&Vec::new());
    // only the original saw the later load and the finalize
    assert_eq!(conf.window_title(), "changed");
    assert_eq!(snapshot.window_title(), "original");
    assert_eq!(snapshot.start_maximized(), true);
    assert!(!snapshot.is_finalized());
    assert!(conf.is_finalized());
}

#[test]
fn getters_total_before_and_after_finalize() {
    let mut conf = Config::open();
    let mut source = Source::new();
    source.set(Field::WindowTheme, bytes(b"dark\0"));
    source.set(Field::WindowPositionX, bytes(&[0xFF, 0xFF]));
    source.set(Field::WindowPositionY, bytes(&[5, 0]));
    conf.load_default_files(&source);
    // before finalize every getter already answers, without panicking
    assert_eq!(conf.window_theme(), "dark");
    assert_eq!(conf.window_position(), (-1, 5));
    assert_eq!(conf.window_title(), "");
    conf.finalize(&Vec::new());
    // and after finalize the loaded values are unchanged
    assert_eq!(conf.window_theme(), "dark");
    assert_eq!(conf.window_position(), (-1, 5));
    assert_eq!(conf.window_title(), "");
}

#[test]
fn typed_getters_decode_values() {
    let mut conf = Config::open();
    let mut source = Source::new();
    source.set(Field::InitialWindow, bytes(&[1]));
    source.set(Field::QuitAfterWindowClosed, bytes(&[0]));
    source.set(Field::BackgroundBlur, bytes(&[64]));
    source.set(Field::Background, bytes(&[0x28, 0x2C, 0x34]));
    source.set(Field::ResizeOverlayDuration, bytes(&[0, 0, 0, 0, 1, 0, 0, 0]));
    conf.load_default_files(&source);
    conf.finalize(&Vec::new());
    assert_eq!(conf.create_initial_window(), true);
    assert_eq!(conf.do_quit_after_window_closed(), false);
    assert_eq!(conf.background_blur_radius(), 64);
    assert_eq!(conf.background_color(), ConfigColor { r: 0x28, g: 0x2C, b: 0x34 });
    assert_eq!(conf.resize_overlay_duration_ms(), 1 << 32);
}

#[test]
fn malformed_payload_reads_as_zero() {
    let mut conf = Config::open();
    let mut source = Source::new();
    source.set(Field::ResizeOverlayDuration, bytes(&[1, 2, 3]));
    source.set(Field::Foreground, bytes(&[1]));
    conf.load_cli_args(&source);
    conf.finalize(&Vec::new());
    assert_eq!(conf.resize_overlay_duration_ms(), 0);
    assert_eq!(conf.foreground_color(), ConfigColor { r: 0, g: 0, b: 0 });
}

#[test]
fn string_field_truncates_at_terminator() {
    let mut conf = Config::open();
    let mut source = Source::new();
    source.set(Field::Title, bytes(b"before\0after"));
    conf.load_cli_args(&source);
    assert_eq!(conf.window_title(), "before");
}

#[test]
fn invalid_utf8_yields_replacement_character() {
    let mut conf = Config::open();
    let mut source = Source::new();
    source.set(Field::Title, bytes(&[b'a', 0xFF, b'b', 0]));
    conf.load_cli_args(&source);
    conf.finalize(&Vec::new());
    let title = conf.window_title();
    assert!(title.contains('\u{FFFD}'));
    assert_eq!(title, "a\u{FFFD}b");
}
