use rpg_toolkit::markup::{parse_markup, TextSegment, TextStyle};

#[test]
fn plain_text_no_markup() {
    let result = parse_markup("Hello world");
    assert_eq!(
        result,
        vec![TextSegment {
            text: "Hello world".to_string(),
            style: TextStyle::Plain,
        }]
    );
}

#[test]
fn single_bold() {
    let result = parse_markup("Hello __world__!");
    assert_eq!(
        result,
        vec![
            TextSegment {
                text: "Hello ".to_string(),
                style: TextStyle::Plain,
            },
            TextSegment {
                text: "world".to_string(),
                style: TextStyle::Bold,
            },
            TextSegment {
                text: "!".to_string(),
                style: TextStyle::Plain,
            },
        ]
    );
}

#[test]
fn single_italic() {
    let result = parse_markup("Hello _world_!");
    assert_eq!(
        result,
        vec![
            TextSegment {
                text: "Hello ".to_string(),
                style: TextStyle::Plain,
            },
            TextSegment {
                text: "world".to_string(),
                style: TextStyle::Italic,
            },
            TextSegment {
                text: "!".to_string(),
                style: TextStyle::Plain,
            },
        ]
    );
}

#[test]
fn single_bold_italic() {
    let result = parse_markup("Hello ___world___!");
    assert_eq!(
        result,
        vec![
            TextSegment {
                text: "Hello ".to_string(),
                style: TextStyle::Plain,
            },
            TextSegment {
                text: "world".to_string(),
                style: TextStyle::BoldItalic,
            },
            TextSegment {
                text: "!".to_string(),
                style: TextStyle::Plain,
            },
        ]
    );
}

#[test]
fn multiple_styles() {
    let result = parse_markup("A _B_ C __D__ E ___F___ G");
    assert_eq!(
        result,
        vec![
            TextSegment {
                text: "A ".to_string(),
                style: TextStyle::Plain,
            },
            TextSegment {
                text: "B".to_string(),
                style: TextStyle::Italic,
            },
            TextSegment {
                text: " C ".to_string(),
                style: TextStyle::Plain,
            },
            TextSegment {
                text: "D".to_string(),
                style: TextStyle::Bold,
            },
            TextSegment {
                text: " E ".to_string(),
                style: TextStyle::Plain,
            },
            TextSegment {
                text: "F".to_string(),
                style: TextStyle::BoldItalic,
            },
            TextSegment {
                text: " G".to_string(),
                style: TextStyle::Plain,
            },
        ]
    );
}

#[test]
fn unclosed_delimiter_is_plain() {
    let result = parse_markup("Hello __world");
    assert_eq!(
        result,
        vec![TextSegment {
            text: "Hello __world".to_string(),
            style: TextStyle::Plain,
        }]
    );
}

#[test]
fn empty_input() {
    let result = parse_markup("");
    assert_eq!(result, vec![]);
}

#[test]
fn only_underscores_unclosed() {
    let result = parse_markup("___");
    assert_eq!(
        result,
        vec![TextSegment {
            text: "___".to_string(),
            style: TextStyle::Plain,
        }]
    );
}

#[test]
fn only_underscores_no_content() {
    // 4 underscores with no content after them — no closing delimiter can be found,
    // so all underscores are emitted as plain text.
    let result = parse_markup("____");
    assert_eq!(
        result,
        vec![TextSegment {
            text: "____".to_string(),
            style: TextStyle::Plain,
        }]
    );
}

#[test]
fn adjacent_styled_spans() {
    let result = parse_markup("__bold___italic_");
    assert_eq!(
        result,
        vec![
            TextSegment {
                text: "bold".to_string(),
                style: TextStyle::Bold,
            },
            TextSegment {
                text: "italic".to_string(),
                style: TextStyle::Italic,
            },
        ]
    );
}
