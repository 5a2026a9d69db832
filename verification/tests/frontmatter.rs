use mdspan::frontmatter::{Indent, Key, LineBreak, ListItem, Text, Token, Tokens};
use mdspan::text::{span_bytes, Span};

fn buf(s: &str) -> Vec<u8> {
    s.as_bytes().to_vec()
}

fn txt(b: &Vec<u8>, sp: Span) -> String {
    String::from_utf8(span_bytes(b, sp)).unwrap()
}

#[test]
fn test_parse_key() {
    let input = buf("key: value");

    let (key, rest) = Key::parse(&input, 0).unwrap();

    assert_eq!(&input[rest..], b"value");
    assert_eq!(txt(&input, key.0), "key");
}

#[test]
fn test_parse_list_item() {
    let input = buf("- list item\n");

    let (_, rest) = ListItem::parse(&input, 0).unwrap();

    assert_eq!(&input[rest..], b"list item\n");
}

#[test]
fn test_parse_tokens() {
    let input = buf("title: the title\nkeywords: \n  - item 1\n  - item 2\n");

    let tokens = Tokens::parse(&input).unwrap();
    assert!(tokens.0.len() > 0);

    let input = buf(
        "author:\n  - Author one\n  - Author two\nauthor:\n  - name: Author one\n    affiliation: University X\n  - name: Author two\n    affiliation: University Y\n",
    );

    let tokens = Tokens::parse(&input).unwrap();
    assert!(tokens.0.len() > 0);
}

#[test]
fn key_needs_a_colon() {
    let input = buf("no colon here\n");
    assert!(Key::parse(&input, 0).is_none());
}

#[test]
fn key_stops_at_a_line_break() {
    let input = buf("broken\nkey: value");
    assert!(Key::parse(&input, 0).is_none());
}

#[test]
fn token_priority_order() {
    let input = buf("title: the title\nkeywords: \n  - item 1\n");

    let tokens = Tokens::parse(&input).unwrap();
    let kinds: Vec<&Token> = tokens.0.iter().collect();

    assert_eq!(tokens.0.len(), 9);
    match kinds[0] {
        Token::Key(k) => assert_eq!(txt(&input, k.0), "title"),
        other => panic!("expected a key, got {:?}", other),
    }
    match kinds[1] {
        Token::Text(t) => assert_eq!(txt(&input, t.0), "the title"),
        other => panic!("expected text, got {:?}", other),
    }
    assert!(matches!(kinds[2], Token::LineBreak(_)));
    match kinds[3] {
        Token::Key(k) => assert_eq!(txt(&input, k.0), "keywords"),
        other => panic!("expected a key, got {:?}", other),
    }
    assert!(matches!(kinds[4], Token::LineBreak(_)));
    assert!(matches!(kinds[5], Token::Indent(_)));
    assert!(matches!(kinds[6], Token::ListItem(_)));
    match kinds[7] {
        Token::Text(t) => assert_eq!(txt(&input, t.0), "item 1"),
        other => panic!("expected text, got {:?}", other),
    }
    assert!(matches!(kinds[8], Token::LineBreak(_)));
}

#[test]
fn tokenizer_rejects_a_lone_carriage_return() {
    let input = buf("\rtext");
    assert!(Tokens::parse(&input).is_none());
}

#[test]
fn tokenizer_accepts_an_empty_header() {
    let input = buf("");
    let tokens = Tokens::parse(&input).unwrap();
    assert_eq!(tokens.0.len(), 0);
}

#[test]
fn indent_and_line_break_consume_what_they_match() {
    let input = buf("  x\n");
    let (_, rest) = Indent::parse(&input, 0).unwrap();
    assert_eq!(rest, 2);
    assert!(Indent::parse(&input, 2).is_none());

    let (text, rest) = Text::parse(&input, 2).unwrap();
    assert_eq!(txt(&input, text.0), "x");
    let (_, rest) = LineBreak::parse(&input, rest).unwrap();
    assert_eq!(rest, input.len());
}
