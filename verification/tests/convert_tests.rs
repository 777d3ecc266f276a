use notation::blocks::{AppendBlockRequestChild, BlockType};
use notation::convert::{build_paragraph, build_table, chunk_code, resolve_link, MdNode,
    NotationParseResult, MAX_CODE_LENGTH};
use notation::errors::NotationError;
use notation::pathmap::PathIdMap;

fn text(value: &str, line: Option<usize>) -> MdNode {
    MdNode::Text { value: value.to_string(), line }
}

fn paragraph(children: Vec<MdNode>) -> MdNode {
    MdNode::Paragraph { children }
}

fn empty_map() -> PathIdMap {
    PathIdMap::new()
}

fn convert_paragraph(p: &MdNode, map: &PathIdMap) -> Result<Vec<AppendBlockRequestChild>, NotationError> {
    build_paragraph(
        p,
        &"a/x.md".to_string(),
        &"page-id".to_string(),
        map,
        &"Title".to_string(),
    )
}

#[test]
fn paragraph_newlines_become_spaces() {
    let p = paragraph(vec![text("one\ntwo\nthree", Some(3))]);
    let children = convert_paragraph(&p, &empty_map()).unwrap();
    assert_eq!(children.len(), 1);
    let spans = children[0].paragraph.as_ref().unwrap();
    assert_eq!(spans.rich_text.len(), 1);
    let content = &spans.rich_text[0].text.as_ref().unwrap().content;
    assert_eq!(content, "one two three");
}

#[test]
fn directive_line_contributes_no_block() {
    // the document's first line reads `--title "My Page" --emoji 🎉`
    let p = paragraph(vec![text("--title \"My Page\" --emoji 🎉", Some(1))]);
    let doc = MdNode::Root { children: vec![p] };
    let pr = NotationParseResult::new(doc, "guide/intro-page.md".to_string()).unwrap();
    let args = pr.get_arguments().unwrap();
    assert_eq!(args.title.as_deref(), Some("My Page"));
    assert_eq!(args.emoji.as_deref(), Some("🎉"));
    let req = pr.to_notion(&"pid".to_string(), &empty_map()).unwrap();
    assert_eq!(req.children().len(), 0);
}

#[test]
fn leading_whitespace_text_is_skipped() {
    let p = paragraph(vec![text("\n\n", Some(1)), text("real", Some(2))]);
    let children = convert_paragraph(&p, &empty_map()).unwrap();
    assert_eq!(children.len(), 1);
    let spans = &children[0].paragraph.as_ref().unwrap().rich_text;
    assert_eq!(spans.len(), 1);
    assert_eq!(spans[0].text.as_ref().unwrap().content, "real");
}

#[test]
fn relative_link_resolves_through_map() {
    let mut map = empty_map();
    map.insert("a/sibling.md".to_string(), "ID-1".to_string());
    let r = resolve_link(
        "./sibling.md",
        &"a/x.md".to_string(),
        &"pid".to_string(),
        &map,
        &"Sibling".to_string(),
    )
    .unwrap();
    assert_eq!(r, "https://www.notion.so/Sibling-ID1");
}

#[test]
fn relative_link_with_fragment_and_spaces_in_title() {
    let mut map = empty_map();
    map.insert("a/b/target.md".to_string(), "abc-def-123".to_string());
    let r = resolve_link(
        "./b/target.md#section",
        &"a/x.md".to_string(),
        &"pid".to_string(),
        &map,
        &"My Page".to_string(),
    )
    .unwrap();
    assert_eq!(r, "https://www.notion.so/My-Page-abcdef123");
}

#[test]
fn unresolved_link_fails_and_aborts_document() {
    let p = paragraph(vec![
        text("before", Some(3)),
        MdNode::Link {
            url: "./never-discovered.md".to_string(),
            children: vec![text("go", Some(3))],
        },
    ]);
    let heading = MdNode::Heading { depth: 1, children: vec![text("Top", Some(1))] };
    let doc = MdNode::Root { children: vec![heading, p] };
    let pr = NotationParseResult::new(doc, "a/x.md".to_string()).unwrap();
    let r = pr.to_notion(&"pid".to_string(), &empty_map());
    match r {
        Err(NotationError::UnresolvedLink { page, url }) => {
            assert_eq!(page, "a/x.md");
            assert_eq!(url, "./never-discovered.md");
        }
        _ => panic!("expected an unresolved link failure"),
    }
}

#[test]
fn fragment_link_resolves_to_own_page() {
    let p = paragraph(vec![MdNode::Link {
        url: "#top".to_string(),
        children: vec![text("top", Some(2))],
    }]);
    let children = convert_paragraph(&p, &empty_map()).unwrap();
    let spans = &children[0].paragraph.as_ref().unwrap().rich_text;
    let link = spans[0].text.as_ref().unwrap().link.as_ref().unwrap();
    assert_eq!(link.url, "https://www.notion.so/page-id");
}

#[test]
fn malformed_absolute_url_is_validation_error() {
    let p = paragraph(vec![MdNode::Link {
        url: "not a url".to_string(),
        children: vec![text("x", Some(2))],
    }]);
    match convert_paragraph(&p, &empty_map()) {
        Err(NotationError::Validation { page, url }) => {
            assert_eq!(page, "a/x.md");
            assert_eq!(url, "not a url");
        }
        _ => panic!("expected a validation failure"),
    }
}

#[test]
fn link_without_children_uses_raw_url_as_content() {
    let p = paragraph(vec![MdNode::Link {
        url: "https://example.com/".to_string(),
        children: vec![],
    }]);
    let children = convert_paragraph(&p, &empty_map()).unwrap();
    let spans = &children[0].paragraph.as_ref().unwrap().rich_text;
    assert_eq!(spans[0].text.as_ref().unwrap().content, "https://example.com/");
}

#[test]
fn image_after_text_produces_two_blocks_in_order() {
    let p = paragraph(vec![
        text("some text", Some(2)),
        MdNode::Image { url: "https://example.com/pic.png".to_string() },
    ]);
    let children = convert_paragraph(&p, &empty_map()).unwrap();
    assert_eq!(children.len(), 2);
    assert!(matches!(children[0].block_type, BlockType::Paragraph));
    assert!(children[0].paragraph.is_some());
    assert!(matches!(children[1].block_type, BlockType::Image));
    let img = children[1].image.as_ref().unwrap();
    assert_eq!(img.external.url, "https://example.com/pic.png");
    assert_eq!(img.image_type, "external");
}

#[test]
fn bad_image_url_is_validation_error() {
    let p = paragraph(vec![MdNode::Image { url: "::nope::".to_string() }]);
    match convert_paragraph(&p, &empty_map()) {
        Err(NotationError::Validation { url, .. }) => assert_eq!(url, "::nope::"),
        _ => panic!("expected a validation failure"),
    }
}

#[test]
fn strong_and_inline_code_annotations() {
    let p = paragraph(vec![
        MdNode::Strong { children: vec![text("bold bit", Some(2))] },
        MdNode::InlineCode { value: "let x".to_string() },
        MdNode::InlineMath { value: "y^2".to_string() },
    ]);
    let children = convert_paragraph(&p, &empty_map()).unwrap();
    let spans = &children[0].paragraph.as_ref().unwrap().rich_text;
    assert_eq!(spans.len(), 3);
    assert!(spans[0].annotations.as_ref().unwrap().bold);
    assert!(!spans[0].annotations.as_ref().unwrap().code);
    assert!(spans[1].annotations.as_ref().unwrap().code);
    assert!(spans[2].annotations.as_ref().unwrap().code);
}

#[test]
fn heading_depth_five_degrades_to_heading_three() {
    let c = AppendBlockRequestChild::new_heading_block("Deep".to_string(), 5);
    assert!(matches!(c.block_type, BlockType::Heading3));
    assert!(c.heading_1.is_none());
    assert!(c.heading_2.is_none());
    let payload = c.heading_3.as_ref().unwrap();
    assert_eq!(payload.rich_text[0].text.as_ref().unwrap().content, "Deep");
}

#[test]
fn heading_depths_one_to_three_keep_their_kind() {
    let c1 = AppendBlockRequestChild::new_heading_block("a".to_string(), 1);
    assert!(matches!(c1.block_type, BlockType::Heading1) && c1.heading_1.is_some());
    let c2 = AppendBlockRequestChild::new_heading_block("b".to_string(), 2);
    assert!(matches!(c2.block_type, BlockType::Heading2) && c2.heading_2.is_some());
    let c3 = AppendBlockRequestChild::new_heading_block("c".to_string(), 3);
    assert!(matches!(c3.block_type, BlockType::Heading3) && c3.heading_3.is_some());
}

#[test]
fn code_of_4500_bytes_splits_into_three_chunks() {
    let code = "x".repeat(4500);
    let chunks = chunk_code(&code);
    assert_eq!(chunks.len(), 3);
    assert_eq!(chunks[0].len(), MAX_CODE_LENGTH);
    assert_eq!(chunks[1].len(), MAX_CODE_LENGTH);
    assert_eq!(chunks[2].len(), 500);
    assert_eq!(format!("{}{}{}", chunks[0], chunks[1], chunks[2]), code);
}

#[test]
fn code_chunks_never_split_a_multibyte_character() {
    // 1999 single-byte characters followed by a two-byte one: the
    // two-byte character must move whole into the second chunk.
    let mut code = "a".repeat(1999);
    code.push('é');
    code.push('z');
    let chunks = chunk_code(&code);
    assert_eq!(chunks.len(), 2);
    assert_eq!(chunks[0].len(), 1999);
    assert_eq!(chunks[1], "éz");
    assert!(chunks.iter().all(|c| c.len() <= MAX_CODE_LENGTH));
}

#[test]
fn empty_code_has_no_chunks() {
    assert_eq!(chunk_code("").len(), 0);
}

#[test]
fn table_width_and_cells() {
    let cell = |s: &str| MdNode::TableCell { children: vec![text(s, Some(4))] };
    let row1 = MdNode::TableRow { children: vec![cell("a"), cell("b"), cell("c")] };
    let row2 = MdNode::TableRow { children: vec![cell("d")] };
    let table = MdNode::Table { children: vec![row1, row2] };
    let out = build_table(&table);
    assert_eq!(out.len(), 1);
    let t = out[0].table.as_ref().unwrap();
    assert_eq!(t.table_width, 3);
    assert!(t.has_column_header);
    assert!(t.has_row_header);
    assert_eq!(t.children.len(), 2);
    let r1 = t.children[0].table_row.as_ref().unwrap();
    assert_eq!(r1.cells.len(), 3);
    assert_eq!(r1.cells[0][0].text.as_ref().unwrap().content, "a");
    let r2 = t.children[1].table_row.as_ref().unwrap();
    assert_eq!(r2.cells.len(), 1);
}

#[test]
fn list_items_become_one_block_each() {
    let li = |s: &str| MdNode::ListItem {
        children: vec![paragraph(vec![text(s, Some(2))])],
    };
    let list = MdNode::List { ordered: true, children: vec![li("first"), li("second")] };
    let doc = MdNode::Root { children: vec![list] };
    let pr = NotationParseResult::new(doc, "docs/list.md".to_string()).unwrap();
    let req = pr.to_notion(&"pid".to_string(), &empty_map()).unwrap();
    let children = req.children();
    assert_eq!(children.len(), 2);
    assert!(matches!(children[0].block_type, BlockType::NumberedListItem));
    let spans = &children[0].numbered_list_item.as_ref().unwrap().rich_text;
    assert_eq!(spans[0].text.as_ref().unwrap().content, "first");
}

#[test]
fn unparseable_directive_is_arg_parse_error() {
    let p = paragraph(vec![text("just a plain sentence", Some(1))]);
    let doc = MdNode::Root { children: vec![p] };
    let pr = NotationParseResult::new(doc, "a/x.md".to_string()).unwrap();
    match pr.get_arguments() {
        Err(NotationError::ArgParse { page, .. }) => assert_eq!(page, "a/x.md"),
        _ => panic!("expected a directive parse failure"),
    }
}

#[test]
fn path_without_file_name_is_io_error() {
    let doc = MdNode::Root { children: vec![] };
    match NotationParseResult::new(doc, "".to_string()) {
        Err(NotationError::Io { .. }) => {}
        _ => panic!("expected an io failure"),
    }
}

#[test]
fn two_documents_with_mutual_links_convert_in_either_order() {
    let make_doc = |target: &str| {
        MdNode::Root {
            children: vec![paragraph(vec![MdNode::Link {
                url: target.to_string(),
                children: vec![text("other", Some(2))],
            }])],
        }
    };
    let doc_a = NotationParseResult::new(make_doc("./b.md"), "t/a.md".to_string()).unwrap();
    let doc_b = NotationParseResult::new(make_doc("./a.md"), "t/b.md".to_string()).unwrap();

    // phase one, one order
    let mut map1 = PathIdMap::new();
    map1.insert("t/a.md".to_string(), "IDA".to_string());
    map1.insert("t/b.md".to_string(), "IDB".to_string());
    // phase one, the other order
    let mut map2 = PathIdMap::new();
    map2.insert("t/b.md".to_string(), "IDB".to_string());
    map2.insert("t/a.md".to_string(), "IDA".to_string());

    for map in [&map1, &map2] {
        let ra = doc_a.to_notion(&"IDA".to_string(), map).unwrap();
        let rb = doc_b.to_notion(&"IDB".to_string(), map).unwrap();
        let a_children = ra.children();
        let spans = &a_children[0].paragraph.as_ref().unwrap().rich_text;
        assert_eq!(
            spans[0].text.as_ref().unwrap().link.as_ref().unwrap().url,
            "https://www.notion.so/a-IDB"
        );
        let b_children = rb.children();
        let spans = &b_children[0].paragraph.as_ref().unwrap().rich_text;
        assert_eq!(
            spans[0].text.as_ref().unwrap().link.as_ref().unwrap().url,
            "https://www.notion.so/b-IDA"
        );
    }
}

#[test]
fn dashes_off_the_first_line_are_kept_as_content() {
    let p = paragraph(vec![text("--not a directive", Some(4))]);
    let children = convert_paragraph(&p, &empty_map()).unwrap();
    let spans = &children[0].paragraph.as_ref().unwrap().rich_text;
    assert_eq!(spans[0].text.as_ref().unwrap().content, "--not a directive");
}

#[test]
fn unknown_node_kinds_are_skipped() {
    let p = paragraph(vec![MdNode::Other, text("kept", Some(2)), MdNode::Other]);
    let children = convert_paragraph(&p, &empty_map()).unwrap();
    assert_eq!(children.len(), 1);
    assert_eq!(children[0].paragraph.as_ref().unwrap().rich_text.len(), 1);
}
