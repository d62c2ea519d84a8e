use image_tags::tags::{extract_tags, split_tags};
use image_tags::text::white_space;

fn found(description: &str) -> Option<String> {
    extract_tags(description)
}

/// The same search in the words of the standard library.
fn expected(description: &str) -> Option<String> {
    description.lines().find_map(|line| {
        let trimmed = line.trim();
        let tags = trimmed
            .strip_prefix("Tags:")
            .or_else(|| trimmed.strip_prefix("tags:"))?
            .trim();
        if tags.is_empty() {
            None
        } else {
            Some(tags.to_owned())
        }
    })
}

#[test]
fn white_space_is_that_of_unicode() {
    let mut code: u32 = 0;
    while code <= 0x10ffff {
        if let Some(c) = char::from_u32(code) {
            assert_eq!(white_space(c), c.is_whitespace(), "{:x}", code);
        }
        code += 1;
    }
}

#[test]
fn tags_line_is_extracted() {
    assert_eq!(found("A toad.\nTags: toad, pond"), Some("toad, pond".to_owned()));
    assert_eq!(found("A toad.\n  tags:toad  \nMore."), Some("toad".to_owned()));
}

#[test]
fn first_tags_line_wins() {
    assert_eq!(found("Tags: a\nTags: b"), Some("a".to_owned()));
    assert_eq!(found("Tags:\nTags:   \r\ntags: b\r\nTags: c"), Some("b".to_owned()));
}

#[test]
fn no_tags_line() {
    assert_eq!(found(""), None);
    assert_eq!(found("A toad."), None);
    assert_eq!(found("Tags:"), None);
    assert_eq!(found("TAGS: a"), None);
    assert_eq!(found("My Tags: a"), None);
    assert_eq!(found("\n\n\r\n"), None);
}

#[test]
fn extraction_agrees_with_the_standard_library() {
    let descriptions = [
        "",
        "\n",
        "Tags: a",
        "Tags: a\n",
        "Tags: a\r",
        "Tags: a\r\n",
        "Tags: a\rTags: b",
        "x\r\r\nTags: a\r\r\n",
        "\u{a0}Tags:\u{3000}a\u{2028}b\u{2028}",
        "\u{feff}Tags: a",
        "\u{200b}Tags: a",
        "Tags::",
        "Tags:Tags:",
        "tags: tags:\nTags: x",
        "Tag: a\ntags : b\nTags:c, d",
        "caf\u{e9}\nTags: caf\u{e9}, na\u{ef}ve, \u{1f438}",
        "Tags:\u{b}\u{c}\u{85}\nTags: z\u{1f}",
        "[AI]\nTags: a\n[/AI]",
    ];
    for description in descriptions {
        assert_eq!(found(description), expected(description), "{:?}", description);
    }
}

#[test]
fn tags_are_split_at_commas() {
    assert_eq!(split_tags("toad, pond ,frog"), ["toad", "pond", "frog"]);
    assert_eq!(split_tags("a,,b, ,c,"), ["a", "b", "c"]);
    assert_eq!(split_tags("cat,cat"), ["cat", "cat"]);
    assert_eq!(split_tags("red toad"), ["red toad"]);
    assert!(split_tags("").is_empty());
    assert!(split_tags(" , ,").is_empty());
}

#[test]
fn tags_are_trimmed_and_without_commas() {
    for tag in split_tags(" a b ,\u{3000}c\u{a0},d'e , ,f\"") {
        assert_eq!(tag.trim(), tag);
        assert!(!tag.is_empty());
        assert!(!tag.contains(','));
    }
}

const TEXTS: [&str; 7] = [
    "Tags: a, b",
    "A toad.\r\n  tags:\ttoad,  green \r\nTags: x",
    "Tags:",
    "",
    "\n",
    "no tags here\r",
    "Tags: \r",
];

#[test]
fn the_tags_text_is_a_stretch_of_the_description() {
    let tags = extract_tags(TEXTS[1]).unwrap();
    assert_eq!(tags, "toad,  green");
    assert!(TEXTS[1].contains(&tags));
}

#[test]
fn a_labelled_tags_text_is_found_again() {
    for text in TEXTS {
        if let Some(tags) = extract_tags(text) {
            assert_eq!(extract_tags(&format!("Tags: {}", tags)), Some(tags));
        }
    }
}

#[test]
fn the_first_of_two_texts_with_tags_counts() {
    for a in TEXTS {
        for b in TEXTS {
            let both = extract_tags(&format!("{}\n{}", a, b));
            assert_eq!(both, extract_tags(a).or(extract_tags(b)));
        }
    }
}
