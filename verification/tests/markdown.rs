use mdspan::markdown::{
    Block, CodeBlock, Footnote, Heading, Image, Link, Newline, OrderedList, Task, TaskList,
    TextBlock, TextBlockItem, UnorderedList,
};
use mdspan::text::{parse_line, span_bytes, Span};

fn buf(s: &str) -> Vec<u8> {
    s.as_bytes().to_vec()
}

fn txt(b: &Vec<u8>, sp: Span) -> String {
    String::from_utf8(span_bytes(b, sp)).unwrap()
}

#[test]
fn test_parse_lines() {
    let input = buf("the quick brown fox\njumps over a lazy dog\n");

    let (line_1, rest) = parse_line(&input, 0).unwrap();
    assert_eq!(txt(&input, line_1), "the quick brown fox");

    let (line_2, rest) = parse_line(&input, rest).unwrap();
    assert_eq!(txt(&input, line_2), "jumps over a lazy dog");

    assert_eq!(rest, input.len());

    let input = buf("\ntest");

    let (_, rest) = Newline::parse(&input, 0).unwrap();
    assert_eq!(&input[rest..], b"test");
}

#[test]
fn test_parse_heading() {
    let input = buf("# h1 \n");
    let (heading, _out) = Heading::parse(&input, 0).unwrap();
    assert_eq!(heading.level, 1);
    assert_eq!(txt(&input, heading.text), "h1");
}

#[test]
fn test_parse_code_block() {
    let input = buf("```\nconst add = (lhs, rhs) => lhs + rhs;\n```\n");
    let (block, _) = CodeBlock::parse(&input, 0).unwrap();
    assert_eq!(block.lang, None);
    assert_eq!(txt(&input, block.contents), "const add = (lhs, rhs) => lhs + rhs;");

    let input = buf(
        "```typescript\nconst add = (lhs: number, rhs: number): number => lhs + rhs;\n```\n",
    );
    let (block, _) = CodeBlock::parse(&input, 0).unwrap();
    assert_eq!(txt(&input, block.lang.unwrap()), "typescript");
    assert_eq!(
        txt(&input, block.contents),
        "const add = (lhs: number, rhs: number): number => lhs + rhs;"
    );
}

#[test]
fn test_parse_link() {
    let input = buf("[GitHub Pages](https://pages.github.com/)");

    let (link, _) = Link::parse(&input, 0).unwrap();

    assert_eq!(txt(&input, link.text), "GitHub Pages");
    assert_eq!(txt(&input, link.url), "https://pages.github.com/");
}

#[test]
fn test_parse_image() {
    let input = buf("![This is an image](https://myoctocat.com/assets/images/base-octocat.svg)");

    let (image, _) = Image::parse(&input, 0).unwrap();

    assert_eq!(txt(&input, image.alt), "This is an image");
    assert_eq!(
        txt(&input, image.source),
        "https://myoctocat.com/assets/images/base-octocat.svg"
    );
}

#[test]
fn test_parse_unordered_list() {
    let input = buf("- George Washington\n- John Adams \n- Thomas Jefferson\n");

    let (list, _) = UnorderedList::parse(&input, 0).unwrap();
    assert_eq!(txt(&input, list.items[0]), "George Washington");
    assert_eq!(txt(&input, list.items[1]), "John Adams");
    assert_eq!(txt(&input, list.items[2]), "Thomas Jefferson");
}

#[test]
fn test_parse_ordered_list() {
    let input = buf("1. George Washington\n2. John Adams \n3. Thomas Jefferson\n");

    let (list, _) = OrderedList::parse(&input, 0).unwrap();
    assert_eq!(txt(&input, list.items[0]), "George Washington");
    assert_eq!(txt(&input, list.items[1]), "John Adams");
    assert_eq!(txt(&input, list.items[2]), "Thomas Jefferson");
}

#[test]
fn test_parse_tasks() {
    let input = buf("- [ ] incomplete item\n");

    let (task, _) = Task::parse(&input, 0).unwrap();
    assert_eq!(task.completed, false);
    assert_eq!(txt(&input, task.text), "incomplete item");

    let input = buf("- [x] completed item\n");

    let (task, _) = Task::parse(&input, 0).unwrap();
    assert_eq!(task.completed, true);
    assert_eq!(txt(&input, task.text), "completed item");

    let input = buf("- [ ] incomplete item\n- [x] completed item\n");
    let (list, _) = TaskList::parse(&input, 0).unwrap();
    assert_eq!(list.len(), 2);
}

#[test]
fn test_parse_footnote() {
    let input = buf("[^note]: The note\n");

    let (footnote, _) = Footnote::parse(&input, 0).unwrap();
    assert_eq!(txt(&input, footnote.name), "note");
    assert_eq!(footnote.text.len(), 1);
    assert_eq!(txt(&input, footnote.text[0]), "The note");

    let input = buf(
        "[^2]: Every new line should be prefixed with 2 spaces.\n  This allows you to have a footnote with multiple lines.\n",
    );

    let (footnote, _) = Footnote::parse(&input, 0).unwrap();
    assert_eq!(txt(&input, footnote.name), "2");
    assert_eq!(footnote.text.len(), 2);
    assert_eq!(
        txt(&input, footnote.text[0]),
        "Every new line should be prefixed with 2 spaces."
    );
    assert_eq!(
        txt(&input, footnote.text[1]),
        "This allows you to have a footnote with multiple lines."
    );
}

#[test]
fn test_parse_text_block() {
    let input = buf("the block\nof text\n\n");

    let (block, _) = TextBlock::parse(&input, 0).unwrap();
    assert_eq!(block.len(), 1);
    match &block.contents[0] {
        TextBlockItem::Text(t) => assert_eq!(txt(&input, t.0), "the block\nof text"),
        other => panic!("expected a text run, got {:?}", other),
    }

    let input = buf("text with [inline](https://google.com) link\n\n");

    let (block, _) = TextBlock::parse(&input, 0).unwrap();

    assert_eq!(block.len(), 3);
    match &block.contents[0] {
        TextBlockItem::Text(t) => assert_eq!(txt(&input, t.0), "text with "),
        other => panic!("expected a text run, got {:?}", other),
    }
    match &block.contents[1] {
        TextBlockItem::Link(l) => {
            assert_eq!(txt(&input, l.text), "inline");
            assert_eq!(txt(&input, l.url), "https://google.com");
        }
        other => panic!("expected a link, got {:?}", other),
    }
    match &block.contents[2] {
        TextBlockItem::Text(t) => assert_eq!(txt(&input, t.0), " link"),
        other => panic!("expected a text run, got {:?}", other),
    }
}

#[test]
fn test_parse_block() {
    let input = buf("some text\n\n- list\n- list\n\n[^1]: note\n");

    let blocks = Block::parse(&input).unwrap();

    assert_eq!(blocks.len(), 4);
    match &blocks[0] {
        Block::TextBlock(tb) => {
            assert_eq!(tb.len(), 1);
            match &tb.contents[0] {
                TextBlockItem::Text(t) => assert_eq!(txt(&input, t.0), "some text"),
                other => panic!("expected a text run, got {:?}", other),
            }
        }
        other => panic!("expected a text block, got {:?}", other),
    }
    match &blocks[1] {
        Block::UnorderedList(list) => {
            assert_eq!(list.len(), 2);
            assert_eq!(txt(&input, list.items[0]), "list");
            assert_eq!(txt(&input, list.items[1]), "list");
        }
        other => panic!("expected an unordered list, got {:?}", other),
    }
    match &blocks[2] {
        Block::Newline(_) => {}
        other => panic!("expected a blank line, got {:?}", other),
    }
    match &blocks[3] {
        Block::Footnote(f) => {
            assert_eq!(txt(&input, f.name), "1");
            assert_eq!(f.text.len(), 1);
            assert_eq!(txt(&input, f.text[0]), "note");
        }
        other => panic!("expected a footnote, got {:?}", other),
    }
}
