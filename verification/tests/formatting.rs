use mailcount::mailbox::mailbox_count_unread;
use mailcount::output::sum_counts;
use mailcount::settings::Settings;

fn settings_with(
    no_zero: bool,
    no_newline: bool,
    trim: bool,
    before: Option<&str>,
    after: Option<&str>,
) -> Settings {
    Settings {
        no_zero: Some(no_zero),
        no_newline: Some(no_newline),
        trim: Some(trim),
        before: before.map(String::from),
        after: after.map(String::from),
        ..Settings::default()
    }
}

#[test]
fn end_to_end_total_line() {
    // Two mailboxes with hexadecimal unread values A and 5: the total
    // line carries their decimal sum wrapped in the given texts.
    let counts = vec![
        mailbox_count_unread(b"(^A2=A)"),
        mailbox_count_unread(b"(^A2=5)"),
    ];
    let total = sum_counts(&counts).unwrap();
    assert_eq!(total, 15);
    let settings = settings_with(false, false, false, Some("Unread: "), Some(" msgs"));
    assert_eq!(settings.format_output(total), "Unread: 15 msgs\n");
}

#[test]
fn end_to_end_suppressed_zero_total() {
    // Both mailboxes at zero with zero suppression: the body is empty
    // and only the newline remains; suppressing the newline too leaves
    // the empty string.
    let counts = vec![
        mailbox_count_unread(b"(^A2=0)"),
        mailbox_count_unread(b"no marker"),
    ];
    let total = sum_counts(&counts).unwrap();
    assert_eq!(total, 0);
    let newline_only = settings_with(true, false, false, None, None);
    assert_eq!(newline_only.format_output(total), "\n");
    let nothing = settings_with(true, true, false, None, None);
    assert_eq!(nothing.format_output(total), "");
}

#[test]
fn zero_total_is_printed_without_suppression() {
    let settings = settings_with(false, false, false, None, None);
    assert_eq!(settings.format_output(0), "0\n");
}

#[test]
fn surrounding_texts_survive_zero_suppression() {
    let settings = settings_with(true, false, false, Some("a"), Some("b"));
    assert_eq!(settings.format_output(0), "ab\n");
}

#[test]
fn trim_strips_surrounding_whitespace() {
    let settings = settings_with(false, false, true, Some("  mail: "), Some(" total \t"));
    assert_eq!(settings.format_output(7), "mail: 7 total\n");
}

#[test]
fn trim_handles_wide_whitespace() {
    let settings = settings_with(false, true, true, Some("\u{a0}\u{2003} x "), Some(" y\u{3000}"));
    assert_eq!(settings.format_output(1), "x 1 y");
}

#[test]
fn trim_of_all_whitespace_output_is_empty() {
    let settings = settings_with(true, false, true, Some("   "), Some(" \t"));
    assert_eq!(settings.format_output(0), "\n");
}

#[test]
fn large_totals_render_in_decimal() {
    let settings = settings_with(false, false, false, None, None);
    assert_eq!(settings.format_output(4294967295), "4294967295\n");
    assert_eq!(settings.format_output(1000), "1000\n");
}

#[test]
fn location_line_carries_count_and_path() {
    let mut settings = settings_with(false, false, false, None, None);
    settings.location = Some(true);
    let line = settings.location_line(31, &String::from("/prof/Mail/box"));
    assert_eq!(line, Some(String::from("31 /prof/Mail/box")));
}

#[test]
fn location_line_suppressed_for_zero() {
    let mut settings = settings_with(true, false, false, None, None);
    settings.location = Some(true);
    assert_eq!(settings.location_line(0, &String::from("/p")), None);
    settings.no_zero = Some(false);
    assert_eq!(settings.location_line(0, &String::from("/p")), Some(String::from("0 /p")));
}

#[test]
fn location_line_absent_when_off() {
    let settings = settings_with(false, false, false, None, None);
    assert_eq!(settings.location_line(3, &String::from("/p")), None);
}

#[test]
fn sum_overflow_is_reported() {
    assert_eq!(sum_counts(&vec![u32::MAX, 1]), None);
    assert_eq!(sum_counts(&vec![u32::MAX, 0]), Some(u32::MAX));
    assert_eq!(sum_counts(&Vec::new()), Some(0));
}

#[test]
fn dump_renders_empty_record() {
    let settings = Settings::default();
    let expected = "files = []\nprofile = \"\"\nconfig = \"\"\ndump_config = false\n\
                    no_config = false\nno_zero = false\nno_newline = false\ntrim = false\n\
                    location = false\nbefore = \"\"\nafter = \"\"";
    assert_eq!(settings.to_toml_string(&String::new()), expected);
}

#[test]
fn dump_renders_discovered_profile_for_unset_one() {
    let settings = Settings::default();
    let rendered = settings.to_toml_string(&String::from("~/.thunderbird/abc.default"));
    assert!(rendered.contains("\nprofile = \"~/.thunderbird/abc.default\"\n"));
}

#[test]
fn dump_renders_single_file_inline() {
    let settings = Settings {
        files: Some(vec![String::from("/a/box.msf")]),
        ..Settings::default()
    };
    let rendered = settings.to_toml_string(&String::new());
    assert!(rendered.starts_with("files = [\"/a/box.msf\"]\nprofile = "));
}

#[test]
fn dump_renders_several_files_indented() {
    let settings = Settings {
        files: Some(vec![String::from("/a"), String::from("/b")]),
        dump_config: Some(true),
        before: Some(String::from("pre")),
        ..Settings::default()
    };
    let rendered = settings.to_toml_string(&String::new());
    assert!(rendered.starts_with("files = [\n    \"/a\",\n    \"/b\",\n]\nprofile = "));
    assert!(rendered.contains("\ndump_config = true\n"));
    assert!(rendered.contains("\nbefore = \"pre\"\n"));
}
