use std::path::Path;

use talos::projects::{
    bot_folder, config_text, is_blank, is_white_space_char, BotEntry, MAIN_SOURCE_TEXT,
};

#[test]
fn bot_goes_under_the_bots_directory_by_default() {
    assert_eq!(bot_folder("Prar", None), "./projects/bots/Prar");
}

#[test]
fn blank_custom_path_counts_as_none() {
    assert_eq!(bot_folder("Prar", Some("")), "./projects/bots/Prar");
    assert_eq!(bot_folder("Prar", Some("  \t\n ")), "./projects/bots/Prar");
}

#[test]
fn custom_path_is_taken_as_it_is_written() {
    assert_eq!(bot_folder("Prar", Some("/tmp/bots")), "/tmp/bots/Prar");
    assert_eq!(bot_folder("Prar", Some(" work ")), " work /Prar");
}

#[test]
fn bot_folder_is_joined_as_paths_are() {
    assert_eq!(bot_folder("/abs", None), "/abs");
    assert_eq!(bot_folder("a", Some("/tmp/x/")), "/tmp/x/a");
    assert_eq!(bot_folder("/abs", Some("/tmp/x")), "/abs");
    assert_eq!(bot_folder("", None), "./projects/bots/");
    for (name, custom) in [("Prar", "/tmp/x"), ("a", "/tmp/x/"), ("/abs", "work"), ("n", " w ")] {
        let expected = Path::new(custom).join(name);
        assert_eq!(bot_folder(name, Some(custom)), expected.to_string_lossy());
    }
    for name in ["Prar", "/abs", "", "a/b"] {
        let expected = Path::new("./projects").join("bots").join(name);
        assert_eq!(bot_folder(name, None), expected.to_string_lossy());
        assert_eq!(bot_folder(name, Some("  ")), expected.to_string_lossy());
    }
}

#[test]
fn white_space_is_what_trimming_takes_off() {
    for code in 0..=0x10FFFFu32 {
        if let Some(c) = char::from_u32(code) {
            assert_eq!(is_white_space_char(c), c.is_whitespace(), "{:x}", code);
        }
    }
}

#[test]
fn blank_is_what_trims_to_nothing() {
    let texts = ["", " ", "  ", "\t\r\n", "\u{a0}\u{3000}\u{2003}", " a ", "a", "\u{200b}", " \u{85} ", "  .", "\u{feff}"];
    for text in texts {
        assert_eq!(is_blank(text), text.trim().is_empty(), "{:?}", text);
    }
    assert!(is_blank("\u{a0}\u{3000}\u{2003}"));
    assert!(!is_blank("\u{200b}"));
}

#[test]
fn blank_is_white_space_only() {
    assert!(is_blank(""));
    assert!(is_blank("   "));
    assert!(is_blank("\t\r\n"));
    assert!(!is_blank(" a "));
    assert!(!is_blank("."));
}

#[test]
fn configuration_holds_name_and_description() {
    assert_eq!(config_text("Prar", "clicks things"), "name: Prar\ndescription: clicks things\n");
    assert_eq!(config_text("", ""), "name: \ndescription: \n");
}

#[test]
fn main_source_starts_as_a_comment() {
    assert_eq!(MAIN_SOURCE_TEXT, "# main bot logic goes here\n");
}

#[test]
fn bot_entry_records_the_bot() {
    let e = BotEntry::new("Prar", "clicks things", "./projects/bots/Prar");
    assert_eq!(e.name, "Prar");
    assert_eq!(e.description, "clicks things");
    assert_eq!(e.path, "./projects/bots/Prar");
}
