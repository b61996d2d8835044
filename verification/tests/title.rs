use mdblog::error::BlogError;
use mdblog::text::{char_is_whitespace, chars_of};
use mdblog::title::{extract_title, trim_bounds};

fn title(content: &str) -> String {
    extract_title(content).unwrap()
}

#[test]
fn title_drops_heading_marker_and_surrounding_space() {
    assert_eq!(title("# Hello World\nBody text"), "Hello World");
}

#[test]
fn title_drops_every_hash_of_the_first_line() {
    assert_eq!(title("Body with #hash# inline\nmore"), "Body with hash inline");
}

#[test]
fn title_of_a_title_is_the_title() {
    for content in ["# Hello World\nBody text", "Body with #hash# inline\nmore", "  ## a # b ##  \n# c"] {
        let once = title(content);
        assert_eq!(title(&once), once);
    }
}

#[test]
fn empty_file_has_no_title() {
    assert_eq!(extract_title(""), Err(BlogError::MissingTitle));
}

#[test]
fn blank_first_line_gives_an_empty_title() {
    assert_eq!(extract_title("\nBody"), Ok(String::new()));
    assert_eq!(extract_title("\n"), Ok(String::new()));
    assert_eq!(extract_title("###\nBody"), Ok(String::new()));
    assert_eq!(extract_title(" \t # \t \nBody"), Ok(String::new()));
}

#[test]
fn title_stops_at_the_first_line_feed() {
    assert_eq!(title("First\nSecond\nThird"), "First");
    assert_eq!(title("Only line"), "Only line");
    assert_eq!(title("# Trailing feed\n"), "Trailing feed");
}

#[test]
fn title_loses_the_carriage_return_of_a_crlf_line() {
    assert_eq!(title("# Windows\r\nBody"), "Windows");
}

#[test]
fn title_keeps_inner_white_space() {
    assert_eq!(title("#  two  spaces\tand a tab  \n"), "two  spaces\tand a tab");
    assert_eq!(title("a # b\n"), "a  b");
}

#[test]
fn title_trims_unicode_white_space() {
    assert_eq!(title("\u{3000}\u{a0}# Caf\u{e9} \u{2003}\u{85}\nBody"), "Caf\u{e9}");
    assert_eq!(title("\u{200b}x\n"), "\u{200b}x");
}

#[test]
fn title_agrees_with_split_replace_trim() {
    let samples = [
        "# Hello World\nBody text",
        "no newline # here",
        "\t#\t#\ttabs\t\n\n",
        "##\u{2028}sep\u{2029}\n",
        "x\ny\nz",
        " \r\n",
        "\u{1f600} # emoji #\n",
    ];
    for content in samples {
        let expected = content.split('\n').next().unwrap().replace('#', "").trim().to_string();
        assert_eq!(title(content), expected);
    }
}

#[test]
fn white_space_is_what_std_calls_white_space() {
    for code in 0u32..=0x10FFFF {
        if let Some(c) = char::from_u32(code) {
            assert_eq!(char_is_whitespace(c), c.is_whitespace(), "U+{:04X}", code);
        }
    }
}

#[test]
fn chars_of_gives_the_characters_in_order() {
    assert_eq!(chars_of(""), Vec::<char>::new());
    assert_eq!(chars_of("a\u{e9}\u{1f600}#"), vec!['a', '\u{e9}', '\u{1f600}', '#']);
}

#[test]
fn trim_bounds_frame_the_trimmed_part() {
    assert_eq!(trim_bounds(&chars_of("  ab c \n")), (2, 6));
    assert_eq!(trim_bounds(&chars_of("abc")), (0, 3));
    assert_eq!(trim_bounds(&chars_of("")), (0, 0));
    assert_eq!(trim_bounds(&chars_of(" \t ")), (3, 3));
    assert_eq!(trim_bounds(&chars_of("\u{a0}x\u{3000}")), (1, 2));
}
