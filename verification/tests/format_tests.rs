use my_ssh::format::{get_format, get_unformated_text, Format};

#[test]
fn format_markers() {
    assert_eq!(get_format(Format::Error), "?&E");
    assert_eq!(get_format(Format::ListDir), "?&L");
    assert_eq!(get_format(Format::Normal), "?&N");
    assert_eq!(get_format(Format::NormalColored), "?&C");
    assert_eq!(get_format(Format::Split), "\n\n");
    assert_eq!(get_format(Format::Color("BLUE")), "^!");
    assert_eq!(get_format(Format::Color("LIGHT_RED")), "^@");
    assert_eq!(get_format(Format::Color("GREEN")), "^#");
    assert_eq!(get_format(Format::Color("stop")), "~~");
    assert_eq!(get_format(Format::Color("unknown")), "");
}

#[test]
fn strip_normal_section() {
    assert_eq!(get_unformated_text("?&NHello World\n\n"), "Hello World");
}

#[test]
fn strip_colored_section() {
    assert_eq!(get_unformated_text("?&C^@Important~~Text\n\n"), "ImportantText");
}

#[test]
fn strip_joins_fragments_with_spaces() {
    assert_eq!(get_unformated_text("?&NStatus: ok\n\nFiles: 42\n\n"), "Status: ok Files: 42");
}

#[test]
fn strip_removes_two_char_prefixes() {
    assert_eq!(get_unformated_text("?&L\n\n^!docs\n\n^#run.sh\n\na.txt\n\n"), "docs run.sh a.txt");
}

#[test]
fn strip_keeps_wrapped_plain_text() {
    // The round-trip of the wrap-then-strip law, on a concrete value.
    assert_eq!(get_unformated_text("?&N hello\n\n"), " hello");
}

#[test]
fn strip_empty_text() {
    assert_eq!(get_unformated_text(""), "");
}

#[test]
fn number_rendering_in_replies() {
    // Exercises the decimal rendering through `wc` elsewhere; here the
    // stripping of a numeric section.
    assert_eq!(get_unformated_text("?&N1203\n\n"), "1203");
}
