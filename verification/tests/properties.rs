use mdspan::markdown::{Block, CodeBlock, Footnote, Heading, TaskList};
use mdspan::text::{span_bytes, Span};

fn buf(s: &str) -> Vec<u8> {
    s.as_bytes().to_vec()
}

fn txt(b: &Vec<u8>, sp: Span) -> String {
    String::from_utf8(span_bytes(b, sp)).unwrap()
}

#[test]
fn task_precedence_over_unordered_list() {
    let input = buf("- [ ] buy milk\n- [x] done\n");

    let blocks = Block::parse(&input).unwrap();

    assert_eq!(blocks.len(), 1);
    match &blocks[0] {
        Block::TaskList(list) => {
            assert_eq!(list.len(), 2);
            assert_eq!(list.tasks[0].completed, false);
            assert_eq!(txt(&input, list.tasks[0].text), "buy milk");
            assert_eq!(list.tasks[1].completed, true);
            assert_eq!(txt(&input, list.tasks[1].text), "done");
        }
        other => panic!("expected a task list, got {:?}", other),
    }
}

#[test]
fn plain_items_and_tasks_split_into_two_lists() {
    let input = buf("- plain\n- [ ] a task\n");

    let blocks = Block::parse(&input).unwrap();

    assert_eq!(blocks.len(), 2);
    match &blocks[0] {
        Block::UnorderedList(list) => {
            assert_eq!(list.len(), 1);
            assert_eq!(txt(&input, list.items[0]), "plain");
        }
        other => panic!("expected an unordered list, got {:?}", other),
    }
    match &blocks[1] {
        Block::TaskList(list) => {
            assert_eq!(list.len(), 1);
            assert_eq!(txt(&input, list.tasks[0].text), "a task");
        }
        other => panic!("expected a task list, got {:?}", other),
    }
}

#[test]
fn multi_line_code_body() {
    let input = buf("```\nfn add(a, b) {\n  return a + b;\n}\n```\n");

    let (block, rest) = CodeBlock::parse(&input, 0).unwrap();
    assert_eq!(block.lang, None);
    assert_eq!(txt(&input, block.contents), "fn add(a, b) {\n  return a + b;\n}");
    assert_eq!(&input[rest..], b"\n");

    let blocks = Block::parse(&input).unwrap();
    assert_eq!(blocks.len(), 2);
    assert!(matches!(blocks[0], Block::CodeBlock(_)));
    assert!(matches!(blocks[1], Block::Newline(_)));
}

#[test]
fn heading_level_is_the_run_of_number_signs() {
    let input = buf("### Title\n");
    let (heading, rest) = Heading::parse(&input, 0).unwrap();
    assert_eq!(heading.level, 3);
    assert_eq!(txt(&input, heading.text), "Title");
    assert_eq!(rest, input.len());
}

#[test]
fn heading_level_is_not_capped() {
    let input = buf("########## deep\n");
    let (heading, _) = Heading::parse(&input, 0).unwrap();
    assert_eq!(heading.level, 10);
    assert_eq!(txt(&input, heading.text), "deep");
}

#[test]
fn footnote_continuation_lines() {
    let input = buf("[^n]: first\n  second\n");
    let (footnote, rest) = Footnote::parse(&input, 0).unwrap();
    assert_eq!(txt(&input, footnote.name), "n");
    assert_eq!(footnote.text.len(), 2);
    assert_eq!(txt(&input, footnote.text[0]), "first");
    assert_eq!(txt(&input, footnote.text[1]), "second");
    assert_eq!(rest, input.len());
}

#[test]
fn footnote_ends_at_a_line_without_the_two_space_prefix() {
    let input = buf("[^n]: first\n second\n");
    let (footnote, rest) = Footnote::parse(&input, 0).unwrap();
    assert_eq!(footnote.text.len(), 1);
    assert_eq!(&input[rest..], b" second\n");
}

#[test]
fn end_to_end_mixed_document() {
    let input = buf("some text\n\n- list\n- list\n\n[^1]: note\n");

    let blocks = Block::parse(&input).unwrap();

    assert_eq!(blocks.len(), 4);
    assert!(matches!(blocks[0], Block::TextBlock(_)));
    assert!(matches!(blocks[1], Block::UnorderedList(_)));
    assert!(matches!(blocks[2], Block::Newline(_)));
    assert!(matches!(blocks[3], Block::Footnote(_)));
}

#[test]
fn link_boundary_inside_a_paragraph() {
    let input = buf("before [inline](https://x) after\n\n");

    let blocks = Block::parse(&input).unwrap();

    assert_eq!(blocks.len(), 1);
    match &blocks[0] {
        Block::TextBlock(tb) => {
            assert_eq!(tb.len(), 3);
            match &tb.contents[0] {
                mdspan::markdown::TextBlockItem::Text(t) => {
                    assert_eq!(txt(&input, t.0), "before ")
                }
                other => panic!("expected a text run, got {:?}", other),
            }
            match &tb.contents[1] {
                mdspan::markdown::TextBlockItem::Link(l) => {
                    assert_eq!(txt(&input, l.text), "inline");
                    assert_eq!(txt(&input, l.url), "https://x");
                }
                other => panic!("expected a link, got {:?}", other),
            }
            match &tb.contents[2] {
                mdspan::markdown::TextBlockItem::Text(t) => {
                    assert_eq!(txt(&input, t.0), " after")
                }
                other => panic!("expected a text run, got {:?}", other),
            }
        }
        other => panic!("expected a text block, got {:?}", other),
    }
}

#[test]
fn parsing_twice_yields_identical_documents() {
    let input = buf("# title\n\nsome text\n\n- [ ] a\n- [x] b\n");

    let first = Block::parse(&input).unwrap();
    let second = Block::parse(&input).unwrap();

    assert_eq!(first, second);
}

#[test]
fn empty_input_is_an_empty_document() {
    let input = buf("");
    let blocks = Block::parse(&input).unwrap();
    assert_eq!(blocks.len(), 0);
}

#[test]
fn a_lone_backtick_fails_the_whole_parse_with_its_offset() {
    let input = buf("`oops\n\n");
    assert_eq!(Block::parse(&input), Err(0));
}

#[test]
fn failure_offset_points_past_the_parsed_prefix() {
    let input = buf("# h\n`x\n\n");
    assert_eq!(Block::parse(&input), Err(4));
}

#[test]
fn an_unterminated_fence_fails_the_parse() {
    let input = buf("```\ncode\n");
    assert_eq!(Block::parse(&input), Err(0));
}

#[test]
fn a_link_with_empty_text_is_rejected() {
    let input = buf("[](x)\n\n");
    assert_eq!(Block::parse(&input), Err(0));
}

#[test]
fn task_lines_need_the_exact_prefix() {
    let input = buf("- [y] not a task\n");
    let blocks = Block::parse(&input).unwrap();
    assert_eq!(blocks.len(), 1);
    match &blocks[0] {
        Block::UnorderedList(list) => {
            assert_eq!(list.len(), 1);
            assert_eq!(txt(&input, list.items[0]), "[y] not a task");
        }
        other => panic!("expected an unordered list, got {:?}", other),
    }
}

#[test]
fn task_list_stops_at_the_first_plain_line() {
    let input = buf("- [ ] a\n- [x] b\nplain\n\n");
    let (list, rest) = TaskList::parse(&input, 0).unwrap();
    assert_eq!(list.len(), 2);
    assert_eq!(&input[rest..], b"plain\n\n");
}

#[test]
fn code_block_language_tag_is_trimmed() {
    let input = buf("```  rust  \nlet x = 1;\n```\n");
    let (block, _) = CodeBlock::parse(&input, 0).unwrap();
    assert_eq!(txt(&input, block.lang.unwrap()), "rust");
}

#[test]
fn ordered_list_numbers_are_shape_only() {
    let input = buf("7. first\n99. second\n");
    let (list, _) = mdspan::markdown::OrderedList::parse(&input, 0).unwrap();
    assert_eq!(list.len(), 2);
    assert_eq!(txt(&input, list.items[0]), "first");
    assert_eq!(txt(&input, list.items[1]), "second");
}

#[test]
fn crlf_line_endings_are_accepted_in_lines() {
    let input = buf("# title\r\nrest");
    let (heading, rest) = Heading::parse(&input, 0).unwrap();
    assert_eq!(heading.level, 1);
    assert_eq!(txt(&input, heading.text), "title");
    assert_eq!(&input[rest..], b"rest");
}
