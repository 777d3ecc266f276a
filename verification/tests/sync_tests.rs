use notation::blocks::{AppendBlockRequest, AppendBlockRequestChild, NotionBlock, TextAnnotations};
use notation::errors::NotationError;
use notation::external::generate_random_string;
use notation::language::parse_code_language;
use notation::pages::{archive_path, CreatePageRequest, PageContentType};
use notation::pathmap::{
    get_md_glob_pattern, join_segments, parent_of, reconcile_path, split_slash, stem_of,
    PathIdMap,
};
use notation::search::{
    filter_pages_by_name, select_unique_page_id, SearchResultItem, SearchResultItemParent,
    SearchResultItemProperty, TitleArrayElement, TitleInner,
};
use notation::sync::{is_intro, page_title_of, rel_path, SyncState};
use notation::args::NotationDocArguments;

#[test]
fn glob_pattern_for_directory_and_file() {
    assert_eq!(get_md_glob_pattern("docs".to_string()), "docs/**/*.md");
    assert_eq!(get_md_glob_pattern("docs/".to_string()), "docs/**/*.md");
    assert_eq!(get_md_glob_pattern("one/file.md".to_string()), "one/file.md");
}

#[test]
fn path_helpers() {
    assert_eq!(parent_of("a/b/x.md"), "a/b");
    assert_eq!(parent_of("x.md"), "");
    assert_eq!(stem_of("x.md"), "x");
    assert_eq!(stem_of(".md"), ".md");
    assert_eq!(stem_of("x.tar.gz"), "x.tar");
    assert_eq!(split_slash("a/b/c"), vec!["a", "b", "c"]);
    assert_eq!(split_slash(""), vec![""]);
    assert_eq!(join_segments(&vec!["a".to_string(), "b".to_string()]), "a/b");
}

#[test]
fn reconcile_collapses_dots_and_decodes() {
    assert_eq!(reconcile_path("a/b/../c.md").unwrap(), "a/c.md");
    assert_eq!(reconcile_path("./x.md").unwrap(), "x.md");
    assert_eq!(reconcile_path("a%20b/x.md").unwrap(), "a b/x.md");
    assert_eq!(reconcile_path("\"a/x.md\"").unwrap(), "a/x.md");
    // a segment that decodes to bytes that are not UTF-8 fails
    assert!(reconcile_path("bad%FF/x.md").is_none());
}

#[test]
fn path_id_map_records_and_looks_up() {
    let mut m = PathIdMap::new();
    assert_eq!(m.len(), 0);
    m.insert("a/x.md".to_string(), "one".to_string());
    m.insert("a/y.md".to_string(), "two".to_string());
    assert_eq!(m.len(), 2);
    assert_eq!(m.get("a/x.md").unwrap().as_str(), "one");
    assert_eq!(m.get("a/y.md").unwrap().as_str(), "two");
    assert!(m.get("a/z.md").is_none());
    assert!(m.contains("a/x.md"));
    // replacing keeps the size and order
    m.insert("a/x.md".to_string(), "three".to_string());
    assert_eq!(m.len(), 2);
    assert_eq!(m.get("a/x.md").unwrap().as_str(), "three");
    assert_eq!(m.key_at(0).as_str(), "a/x.md");
    assert_eq!(m.value_at(1).as_str(), "two");
}

#[test]
fn sync_walks_directory_chain_in_order() {
    let mut st = SyncState::new("ROOT".to_string());
    let dirs = vec!["a".to_string(), "b".to_string()];

    let md = st.next_missing_dir(&dirs).unwrap();
    assert_eq!(md.index, 0);
    assert_eq!(md.dir_path, "a");
    assert_eq!(md.dir_name, "a");
    assert_eq!(md.parent_id, "ROOT");
    st.record_dir(md.dir_path, "ID-A".to_string());

    let md = st.next_missing_dir(&dirs).unwrap();
    assert_eq!(md.index, 1);
    assert_eq!(md.dir_path, "a/b");
    assert_eq!(md.parent_id, "ID-A");
    st.record_dir(md.dir_path, "ID-AB".to_string());

    assert!(st.next_missing_dir(&dirs).is_none());
    assert_eq!(st.doc_parent_id(&dirs), "ID-AB");
    assert_eq!(st.doc_parent_id(&vec![]), "ROOT");

    st.record_doc("docs/a/b/x.md".to_string(), "ID-X".to_string());
    assert_eq!(st.doc_ids.get("docs/a/b/x.md").unwrap().as_str(), "ID-X");
}

#[test]
fn intro_documents_reuse_parent_and_name_directories() {
    assert!(is_intro("intro"));
    assert!(is_intro("INTRO"));
    assert!(is_intro("Intro"));
    assert!(!is_intro("introduction"));
    let args = NotationDocArguments { emoji: None, title: Some("Guide".to_string()) };
    assert_eq!(page_title_of(&args, &"dirname".to_string()), "Guide");
    let none = NotationDocArguments { emoji: None, title: None };
    assert_eq!(page_title_of(&none, &"dirname".to_string()), "dirname");
}

#[test]
fn rel_path_strips_the_source_directory() {
    assert_eq!(rel_path("docs/a/x.md", "docs").unwrap(), "a/x.md");
    assert_eq!(rel_path("docs/a/x.md", "docs/").unwrap(), "a/x.md");
    assert_eq!(rel_path("docs", "docs").unwrap(), "");
    assert_eq!(rel_path("elsewhere/x.md", "docs"), None);
    assert_eq!(rel_path("docsx/x.md", "docs"), None);
    assert_eq!(rel_path("x.md", "").unwrap(), "x.md");
}

#[test]
fn code_language_matching_is_case_insensitive() {
    assert_eq!(parse_code_language(&Some("Rust".to_string())), "rust");
    assert_eq!(parse_code_language(&Some("PYTHON".to_string())), "python");
    assert_eq!(parse_code_language(&Some("no-such-language".to_string())), "plain text");
    assert_eq!(parse_code_language(&None), "plain text");
}

fn item(id: &str, title: &str) -> SearchResultItem {
    SearchResultItem {
        object: "page".to_string(),
        id: id.to_string(),
        url: format!("https://www.notion.so/{id}"),
        parent: SearchResultItemParent { page_id: None },
        properties: SearchResultItemProperty {
            title: TitleInner {
                title: vec![TitleArrayElement { plain_text: title.to_string() }],
            },
        },
    }
}

#[test]
fn page_search_filters_by_title_case_insensitively() {
    let results = vec![item("1", "Workspace"), item("2", "Other"), item("3", "WORKSPACE")];
    let kept = filter_pages_by_name(&results, "workspace");
    assert_eq!(kept.len(), 2);
    assert_eq!(kept[0].id, "1");
    assert_eq!(kept[1].id, "3");
}

#[test]
fn parent_lookup_needs_exactly_one_match() {
    let one = vec![item("42", "Home")];
    assert_eq!(
        select_unique_page_id(&one, &"Home".to_string()).unwrap(),
        "42"
    );
    let none: Vec<SearchResultItem> = vec![];
    match select_unique_page_id(&none, &"Home".to_string()) {
        Err(NotationError::AmbiguousLookup { name, count }) => {
            assert_eq!(name, "Home");
            assert_eq!(count, 0);
        }
        _ => panic!("expected an ambiguity failure"),
    }
    let two = vec![item("1", "Home"), item("2", "Home")];
    assert!(select_unique_page_id(&two, &"Home".to_string()).is_err());
}

#[test]
fn archive_endpoint_depends_on_content_kind() {
    assert_eq!(
        archive_path("https://api.example.com/v1", "res1", &PageContentType::ChildPage),
        "https://api.example.com/v1/pages/res1"
    );
    assert_eq!(
        archive_path("https://api.example.com/v1", "res2", &PageContentType::Paragraph),
        "https://api.example.com/v1/blocks/res2"
    );
    assert_eq!(PageContentType::ChildPage.display_name(), "Child Page");
    assert_eq!(PageContentType::default(), PageContentType::Unknown);
}

#[test]
fn create_page_request_carries_title_and_icon() {
    let req = CreatePageRequest::new("parent-1".to_string(), "My Page".to_string());
    assert_eq!(req.parent.page_id, "parent-1");
    assert_eq!(req.properties.title.title[0].text.content, "My Page");
    assert!(req.icon.is_none());
    let req = req.with_icon("🎉".to_string());
    assert_eq!(req.icon.as_ref().unwrap().emoji, "🎉");
    assert_eq!(req.icon.as_ref().unwrap().icon_type, "emoji");
}

#[test]
fn error_labels_name_each_kind() {
    let remote = NotationError::RemoteApi { status: 500, body: "oops".to_string() };
    assert_eq!(remote.label(), "remote call failed");
    let io = NotationError::Io { detail: "gone".to_string() };
    assert_eq!(io.label(), "io failure");
    let bad = NotationError::Validation { page: "p".to_string(), url: "u".to_string() };
    assert_eq!(bad.label(), "invalid url");
    let amb = NotationError::AmbiguousLookup { name: "n".to_string(), count: 2 };
    assert_eq!(amb.label(), "ambiguous page lookup");
}

#[test]
fn simulated_identifiers_have_the_asked_length() {
    let s = generate_random_string(30);
    assert_eq!(s.chars().count(), 30);
    assert!(s.chars().all(|c| c.is_ascii_alphanumeric()));
}

#[test]
fn request_keeps_children_in_order() {
    let mut req = AppendBlockRequest::new();
    req.append_child(AppendBlockRequestChild::new_paragraph_block("one".to_string()));
    req.extend_children(vec![
        AppendBlockRequestChild::new_paragraph_block("two".to_string()),
        AppendBlockRequestChild::new_heading_block("three".to_string(), 1),
    ]);
    let children = req.children();
    assert_eq!(children.len(), 3);
    assert_eq!(
        children[0].paragraph.as_ref().unwrap().rich_text[0].text.as_ref().unwrap().content,
        "one"
    );
    assert_eq!(
        children[2].heading_1.as_ref().unwrap().rich_text[0].text.as_ref().unwrap().content,
        "three"
    );
}

#[test]
fn span_builders_set_annotations() {
    let b = NotionBlock::new_text_block("x".to_string()).with_annotations(TextAnnotations::bold());
    let a = b.annotations.unwrap();
    assert!(a.bold && !a.code && !a.italic && !a.strikethrough && !a.underline);
    assert_eq!(a.color, "default");
    let c = NotionBlock::new_text_block("y".to_string()).with_annotations(TextAnnotations::code());
    assert!(c.annotations.unwrap().code);
    let l = NotionBlock::new_link_block("text".to_string(), "https://e.com/".to_string());
    assert_eq!(l.text.unwrap().link.unwrap().url, "https://e.com/");
}

#[test]
fn table_row_wraps_each_span_as_its_own_cell() {
    let row = AppendBlockRequestChild::new_table_row_block(vec![
        NotionBlock::new_text_block("a".to_string()),
        NotionBlock::new_text_block("b".to_string()),
    ]);
    let cells = &row.table_row.as_ref().unwrap().cells;
    assert_eq!(cells.len(), 2);
    assert_eq!(cells[0].len(), 1);
    assert_eq!(cells[1][0].text.as_ref().unwrap().content, "b");
}
