//! The destination block model: a Block Request is an ordered sequence of
//! Block Children, each a tagged record over the destination's block
//! kinds, carrying Rich Text Spans (styled runs of text), an external
//! image URL, or a nested table. Order is semantically significant and is
//! never reordered or deduplicated.

use vstd::prelude::*;

verus! {

/// The destination block kinds.
#[derive(Clone, Copy, Debug, PartialEq, Eq, Structural)]
pub enum BlockType {
    Paragraph,
    Heading1,
    Heading2,
    Heading3,
    Code,
    BulletedListItem,
    NumberedListItem,
    Image,
    Table,
    TableRow,
}

/// One styled run of text: content, an optional hyperlink target, and an
/// optional annotation set.
#[derive(Debug)]
pub struct NotionBlock {
    pub block_type: String,
    pub text: Option<TextBlock>,
    pub annotations: Option<TextAnnotations>,
}

#[derive(Debug)]
pub struct TextBlock {
    pub content: String,
    pub link: Option<TextLink>,
}

#[derive(Debug)]
pub struct TextLink {
    pub url: String,
}

#[derive(Debug)]
pub struct TextAnnotations {
    pub bold: bool,
    pub italic: bool,
    pub strikethrough: bool,
    pub underline: bool,
    pub code: bool,
    pub color: String,
}

/// The rich-text payload of a non-image, non-table block child; code
/// children also carry their language.
#[derive(Debug)]
pub struct RichTextParent {
    pub rich_text: Vec<NotionBlock>,
    pub language: Option<String>,
}

#[derive(Debug)]
pub struct ExternalImageInner {
    pub url: String,
}

#[derive(Debug)]
pub struct ImageParent {
    pub image_type: String,
    pub external: ExternalImageInner,
}

/// A table child: its width, header flags, and its rows (each itself a
/// table-row block child).
#[derive(Debug)]
pub struct TableParent {
    pub table_width: usize,
    pub has_column_header: bool,
    pub has_row_header: bool,
    pub children: Vec<AppendBlockRequestChild>,
}

#[derive(Debug)]
pub struct TableRowParent {
    pub cells: Vec<Vec<NotionBlock>>,
}

/// One Block Child: exactly the field matching `block_type` is set.
#[derive(Debug)]
pub struct AppendBlockRequestChild {
    pub object: String,
    pub block_type: BlockType,
    pub heading_1: Option<RichTextParent>,
    pub heading_2: Option<RichTextParent>,
    pub heading_3: Option<RichTextParent>,
    pub paragraph: Option<RichTextParent>,
    pub code: Option<RichTextParent>,
    pub bulleted_list_item: Option<RichTextParent>,
    pub numbered_list_item: Option<RichTextParent>,
    pub image: Option<ImageParent>,
    pub table: Option<TableParent>,
    pub table_row: Option<TableRowParent>,
}

/// An ordered sequence of Block Children to append under one page or
/// block.
#[derive(Debug)]
pub struct AppendBlockRequest {
    pub children: Vec<AppendBlockRequestChild>,
}

// ---------------------------------------------------------------------------
// Mathematical views.
// ---------------------------------------------------------------------------

pub struct TextAnnotationsV {
    pub bold: bool,
    pub italic: bool,
    pub strikethrough: bool,
    pub underline: bool,
    pub code: bool,
    pub color: Seq<char>,
}

pub struct TextBlockV {
    pub content: Seq<char>,
    pub link: Option<Seq<char>>,
}

/// The view of one Rich Text Span.
pub struct SpanV {
    pub block_type: Seq<char>,
    pub text: Option<TextBlockV>,
    pub annotations: Option<TextAnnotationsV>,
}

pub struct RichTextParentV {
    pub rich_text: Seq<SpanV>,
    pub language: Option<Seq<char>>,
}

pub struct ImageParentV {
    pub image_type: Seq<char>,
    pub url: Seq<char>,
}

pub struct TableParentV {
    pub table_width: int,
    pub has_column_header: bool,
    pub has_row_header: bool,
    pub children: Seq<ChildV>,
}

pub struct TableRowParentV {
    pub cells: Seq<Seq<SpanV>>,
}

/// The view of one Block Child.
pub struct ChildV {
    pub object: Seq<char>,
    pub block_type: BlockType,
    pub heading_1: Option<RichTextParentV>,
    pub heading_2: Option<RichTextParentV>,
    pub heading_3: Option<RichTextParentV>,
    pub paragraph: Option<RichTextParentV>,
    pub code: Option<RichTextParentV>,
    pub bulleted_list_item: Option<RichTextParentV>,
    pub numbered_list_item: Option<RichTextParentV>,
    pub image: Option<ImageParentV>,
    pub table: Option<TableParentV>,
    pub table_row: Option<TableRowParentV>,
}

impl View for TextAnnotations {
    type V = TextAnnotationsV;

    open spec fn view(&self) -> TextAnnotationsV {
        TextAnnotationsV {
            bold: self.bold,
            italic: self.italic,
            strikethrough: self.strikethrough,
            underline: self.underline,
            code: self.code,
            color: self.color@,
        }
    }
}

impl View for TextBlock {
    type V = TextBlockV;

    open spec fn view(&self) -> TextBlockV {
        TextBlockV {
            content: self.content@,
            link: match self.link {
                Some(l) => Some(l.url@),
                None => None,
            },
        }
    }
}

impl View for NotionBlock {
    type V = SpanV;

    open spec fn view(&self) -> SpanV {
        SpanV {
            block_type: self.block_type@,
            text: match self.text {
                Some(t) => Some(t@),
                None => None,
            },
            annotations: match self.annotations {
                Some(a) => Some(a@),
                None => None,
            },
        }
    }
}

impl DeepView for NotionBlock {
    type V = SpanV;

    open spec fn deep_view(&self) -> SpanV {
        self.view()
    }
}

impl View for RichTextParent {
    type V = RichTextParentV;

    open spec fn view(&self) -> RichTextParentV {
        RichTextParentV {
            rich_text: self.rich_text.deep_view(),
            language: self.language.deep_view(),
        }
    }
}

impl View for ImageParent {
    type V = ImageParentV;

    open spec fn view(&self) -> ImageParentV {
        ImageParentV { image_type: self.image_type@, url: self.external.url@ }
    }
}

impl View for TableRowParent {
    type V = TableRowParentV;

    open spec fn view(&self) -> TableRowParentV {
        TableRowParentV { cells: self.cells.deep_view() }
    }
}

impl AppendBlockRequestChild {
    /// The view of one child, recursing through a table's rows.
    pub open spec fn view_c(self) -> ChildV
        decreases self,
    {
        ChildV {
            object: self.object@,
            block_type: self.block_type,
            heading_1: Self::view_rtp(self.heading_1),
            heading_2: Self::view_rtp(self.heading_2),
            heading_3: Self::view_rtp(self.heading_3),
            paragraph: Self::view_rtp(self.paragraph),
            code: Self::view_rtp(self.code),
            bulleted_list_item: Self::view_rtp(self.bulleted_list_item),
            numbered_list_item: Self::view_rtp(self.numbered_list_item),
            image: match self.image {
                Some(i) => Some(i@),
                None => None,
            },
            table: match self.table {
                Some(t) => Some(
                    TableParentV {
                        table_width: t.table_width as int,
                        has_column_header: t.has_column_header,
                        has_row_header: t.has_row_header,
                        children: Self::view_children(t.children@),
                    },
                ),
                None => None,
            },
            table_row: match self.table_row {
                Some(tr) => Some(tr@),
                None => None,
            },
        }
    }

    pub open spec fn view_rtp(o: Option<RichTextParent>) -> Option<RichTextParentV> {
        match o {
            Some(p) => Some(p@),
            None => None,
        }
    }

    /// The views of a sequence of children, in order.
    pub open spec fn view_children(s: Seq<AppendBlockRequestChild>) -> Seq<ChildV>
        decreases s,
    {
        if s.len() == 0 {
            Seq::<ChildV>::empty()
        } else {
            seq![s[0].view_c()] + Self::view_children(s.drop_first())
        }
    }
}

impl View for AppendBlockRequestChild {
    type V = ChildV;

    open spec fn view(&self) -> ChildV {
        self.view_c()
    }
}

impl DeepView for AppendBlockRequestChild {
    type V = ChildV;

    open spec fn deep_view(&self) -> ChildV {
        self.view_c()
    }
}

impl View for AppendBlockRequest {
    type V = Seq<ChildV>;

    open spec fn view(&self) -> Seq<ChildV> {
        self.children.deep_view()
    }
}

/// `view_children` is the pointwise view of its argument.
pub proof fn lemma_view_children_points(s: Seq<AppendBlockRequestChild>)
    ensures
        AppendBlockRequestChild::view_children(s).len() == s.len(),
        forall|i: int|
            0 <= i < s.len() ==> AppendBlockRequestChild::view_children(s)[i] == s[i].view_c(),
    decreases s.len(),
{
    if s.len() > 0 {
        lemma_view_children_points(s.drop_first());
    }
}

/// The deep view of a vector of children agrees with `view_children`.
pub proof fn lemma_deep_view_is_view_children(v: Vec<AppendBlockRequestChild>)
    ensures
        v.deep_view() =~= AppendBlockRequestChild::view_children(v@),
{
    lemma_view_children_points(v@);
    assert forall|i: int| 0 <= i < v@.len() implies v.deep_view()[i] == v@[i].view_c() by {
        assert(v.deep_view()[i] == v@[i].deep_view());
    }
}

// ---------------------------------------------------------------------------
// Spec-level constructors: the intended value of each builder.
// ---------------------------------------------------------------------------

/// A plain text span: no link, no annotations.
pub open spec fn span_text(content: Seq<char>) -> SpanV {
    SpanV {
        block_type: "text"@,
        text: Some(TextBlockV { content, link: None }),
        annotations: None,
    }
}

/// A text span carrying a hyperlink target.
pub open spec fn span_link(content: Seq<char>, url: Seq<char>) -> SpanV {
    SpanV {
        block_type: "text"@,
        text: Some(TextBlockV { content, link: Some(url) }),
        annotations: None,
    }
}

/// The bold annotation set.
pub open spec fn ann_bold() -> TextAnnotationsV {
    TextAnnotationsV {
        bold: true,
        italic: false,
        strikethrough: false,
        underline: false,
        code: false,
        color: "default"@,
    }
}

/// The inline-code annotation set.
pub open spec fn ann_code() -> TextAnnotationsV {
    TextAnnotationsV {
        bold: false,
        italic: false,
        strikethrough: false,
        underline: false,
        code: true,
        color: "default"@,
    }
}

/// `s` with its annotation set replaced.
pub open spec fn span_with_ann(s: SpanV, a: TextAnnotationsV) -> SpanV {
    SpanV { annotations: Some(a), ..s }
}

/// A child of the given kind with no payload set yet.
pub open spec fn empty_child(bt: BlockType) -> ChildV {
    ChildV {
        object: "block"@,
        block_type: bt,
        heading_1: None,
        heading_2: None,
        heading_3: None,
        paragraph: None,
        code: None,
        bulleted_list_item: None,
        numbered_list_item: None,
        image: None,
        table: None,
        table_row: None,
    }
}

/// A rich-text payload with no language.
pub open spec fn rtp_of(spans: Seq<SpanV>) -> RichTextParentV {
    RichTextParentV { rich_text: spans, language: None }
}

/// `c` with the rich-text payload stored in the field matching its kind;
/// an image, table or table-row child is left unchanged.
pub open spec fn spec_with_rich_text(c: ChildV, spans: Seq<SpanV>) -> ChildV {
    match c.block_type {
        BlockType::NumberedListItem => ChildV { numbered_list_item: Some(rtp_of(spans)), ..c },
        BlockType::BulletedListItem => ChildV { bulleted_list_item: Some(rtp_of(spans)), ..c },
        BlockType::Paragraph => ChildV { paragraph: Some(rtp_of(spans)), ..c },
        BlockType::Heading1 => ChildV { heading_1: Some(rtp_of(spans)), ..c },
        BlockType::Heading2 => ChildV { heading_2: Some(rtp_of(spans)), ..c },
        BlockType::Heading3 => ChildV { heading_3: Some(rtp_of(spans)), ..c },
        BlockType::Code => ChildV { code: Some(rtp_of(spans)), ..c },
        _ => c,
    }
}

/// A child of the given kind holding the given spans.
pub open spec fn child_rich_text(bt: BlockType, spans: Seq<SpanV>) -> ChildV {
    spec_with_rich_text(empty_child(bt), spans)
}

/// A paragraph child holding the given spans.
pub open spec fn child_paragraph(spans: Seq<SpanV>) -> ChildV {
    child_rich_text(BlockType::Paragraph, spans)
}

/// A paragraph child of one plain span, newlines collapsed to spaces.
pub open spec fn child_paragraph_text(content: Seq<char>) -> ChildV {
    child_paragraph(seq![span_text(crate::text::replace_nl(content))])
}

/// The destination heading kind for a source depth: depths past three
/// degrade to the deepest supported heading.
pub open spec fn heading_block_type(depth: u8) -> BlockType {
    if depth == 1 {
        BlockType::Heading1
    } else if depth == 2 {
        BlockType::Heading2
    } else {
        BlockType::Heading3
    }
}

/// The payload a heading field of depth `field_depth` receives when a
/// heading of `requested_depth` is built: only the matching field is set,
/// and every depth past three lands in the depth-three field.
pub open spec fn spec_heading_field(field_depth: u8, requested_depth: u8, content: Seq<char>) -> Option<RichTextParentV> {
    if requested_depth == field_depth || (field_depth == 3 && requested_depth > 3) {
        Some(rtp_of(seq![span_text(content)]))
    } else {
        None
    }
}

/// A heading child of the given content and source depth.
pub open spec fn child_heading(content: Seq<char>, depth: u8) -> ChildV {
    ChildV {
        object: "block"@,
        block_type: heading_block_type(depth),
        heading_1: spec_heading_field(1, depth, content),
        heading_2: spec_heading_field(2, depth, content),
        heading_3: spec_heading_field(3, depth, content),
        paragraph: None,
        code: None,
        bulleted_list_item: None,
        numbered_list_item: None,
        image: None,
        table: None,
        table_row: None,
    }
}

/// A code child: one raw span per chunk, and the language.
pub open spec fn child_code(chunks: Seq<Seq<char>>, language: Seq<char>) -> ChildV {
    ChildV {
        code: Some(
            RichTextParentV {
                rich_text: chunks.map(|_i: int, c: Seq<char>| span_text(c)),
                language: Some(language),
            },
        ),
        ..empty_child(BlockType::Code)
    }
}

/// A bulleted list item of one plain span.
pub open spec fn child_bulleted_text(content: Seq<char>) -> ChildV {
    ChildV {
        bulleted_list_item: Some(rtp_of(seq![span_text(content)])),
        ..empty_child(BlockType::BulletedListItem)
    }
}

/// A numbered list item of one plain span.
pub open spec fn child_numbered_text(content: Seq<char>) -> ChildV {
    ChildV {
        numbered_list_item: Some(rtp_of(seq![span_text(content)])),
        ..empty_child(BlockType::NumberedListItem)
    }
}

/// An externally hosted image child.
pub open spec fn child_image(url: Seq<char>) -> ChildV {
    ChildV {
        image: Some(ImageParentV { image_type: "external"@, url }),
        ..empty_child(BlockType::Image)
    }
}

/// A table child of the given width, header flags and rows.
pub open spec fn child_table(width: int, col_header: bool, row_header: bool, rows: Seq<ChildV>) -> ChildV {
    ChildV {
        table: Some(
            TableParentV {
                table_width: width,
                has_column_header: col_header,
                has_row_header: row_header,
                children: rows,
            },
        ),
        ..empty_child(BlockType::Table)
    }
}

/// A table-row child: each incoming span becomes its own one-span cell.
pub open spec fn child_table_row(cells: Seq<SpanV>) -> ChildV {
    ChildV {
        table_row: Some(
            TableRowParentV { cells: cells.map(|_i: int, c: SpanV| seq![c]) },
        ),
        ..empty_child(BlockType::TableRow)
    }
}

// ---------------------------------------------------------------------------
// Builders.
// ---------------------------------------------------------------------------

impl TextAnnotations {
    /// The bold annotation set.
    pub fn bold() -> (r: Self)
        ensures
            r@ == ann_bold(),
    {
        TextAnnotations {
            bold: true,
            italic: false,
            strikethrough: false,
            underline: false,
            code: false,
            color: String::from_str("default"),
        }
    }

    /// The inline-code annotation set.
    pub fn code() -> (r: Self)
        ensures
            r@ == ann_code(),
    {
        TextAnnotations {
            bold: false,
            italic: false,
            strikethrough: false,
            underline: false,
            code: true,
            color: String::from_str("default"),
        }
    }
}

impl Clone for TextAnnotations {
    fn clone(&self) -> (r: Self)
        ensures
            r@ == self@,
    {
        TextAnnotations {
            bold: self.bold,
            italic: self.italic,
            strikethrough: self.strikethrough,
            underline: self.underline,
            code: self.code,
            color: self.color.clone(),
        }
    }
}

impl NotionBlock {
    /// A plain text span.
    pub fn new_text_block(content: String) -> (r: Self)
        ensures
            r@ == span_text(content@),
    {
        NotionBlock {
            block_type: String::from_str("text"),
            text: Some(TextBlock { content, link: None }),
            annotations: None,
        }
    }

    /// A text span carrying a hyperlink target.
    pub fn new_link_block(content: String, link: String) -> (r: Self)
        ensures
            r@ == span_link(content@, link@),
    {
        NotionBlock {
            block_type: String::from_str("text"),
            text: Some(TextBlock { content, link: Some(TextLink { url: link }) }),
            annotations: None,
        }
    }

    /// One chunk of a code block, kept raw.
    pub fn new_code_block(content: String) -> (r: Self)
        ensures
            r@ == span_text(content@),
    {
        NotionBlock {
            block_type: String::from_str("text"),
            text: Some(TextBlock { content, link: None }),
            annotations: None,
        }
    }

    /// The same span with its annotation set replaced.
    pub fn with_annotations(self, annotations: TextAnnotations) -> (r: Self)
        ensures
            r@ == span_with_ann(self@, annotations@),
    {
        NotionBlock { annotations: Some(annotations), ..self }
    }
}

impl Clone for NotionBlock {
    fn clone(&self) -> (r: Self)
        ensures
            r@ == self@,
    {
        NotionBlock {
            block_type: self.block_type.clone(),
            text: match &self.text {
                Some(t) => Some(
                    TextBlock {
                        content: t.content.clone(),
                        link: match &t.link {
                            Some(l) => Some(TextLink { url: l.url.clone() }),
                            None => None,
                        },
                    },
                ),
                None => None,
            },
            annotations: match &self.annotations {
                Some(a) => Some(a.clone()),
                None => None,
            },
        }
    }
}

/// A copy of a span list, element by element.
pub fn clone_spans(v: &Vec<NotionBlock>) -> (r: Vec<NotionBlock>)
    ensures
        r.deep_view() == v.deep_view(),
{
    let mut r: Vec<NotionBlock> = Vec::new();
    let mut i: usize = 0;
    while i < v.len()
        invariant
            i <= v@.len(),
            r@.len() == i,
            forall|j: int| 0 <= j < i ==> #[trigger] r@[j]@ == v@[j]@,
        decreases v@.len() - i,
    {
        r.push(v[i].clone());
        i = i + 1;
    }
    proof {
        assert forall|j: int| 0 <= j < v@.len() implies r.deep_view()[j] == v.deep_view()[j] by {
            assert(r@[j]@ == v@[j]@);
        }
        assert(r.deep_view() =~= v.deep_view());
    }
    r
}

impl RichTextParent {
    /// A rich-text payload of the given spans, with no language.
    pub fn new(rich_text: Vec<NotionBlock>) -> (r: Self)
        ensures
            r@ == rtp_of(rich_text.deep_view()),
    {
        RichTextParent { rich_text, language: None }
    }

    /// A payload of one plain text span.
    pub fn new_text(content: String) -> (r: Self)
        ensures
            r@ == rtp_of(seq![span_text(content@)]),
    {
        let mut rich_text: Vec<NotionBlock> = Vec::new();
        rich_text.push(NotionBlock::new_text_block(content));
        proof {
            assert(rich_text.deep_view() =~= seq![span_text(rich_text@[0].text->0.content@)]);
        }
        RichTextParent { rich_text, language: None }
    }

    /// A code payload: one raw span per chunk, plus the language.
    pub fn new_code(content: Vec<String>, language: String) -> (r: Self)
        ensures
            r@ == (RichTextParentV {
                rich_text: content.deep_view().map(|_i: int, c: Seq<char>| span_text(c)),
                language: Some(language@),
            }),
    {
        let ghost chunks = content.deep_view();
        let mut rich_text: Vec<NotionBlock> = Vec::new();
        let mut i: usize = 0;
        while i < content.len()
            invariant
                i <= content@.len(),
                chunks == content.deep_view(),
                chunks.len() == content@.len(),
                rich_text@.len() == i,
                forall|j: int| 0 <= j < i ==> #[trigger] rich_text@[j]@ == span_text(chunks[j]),
            decreases content@.len() - i,
        {
            proof {
                assert(chunks[i as int] == content@[i as int]@);
            }
            rich_text.push(NotionBlock::new_code_block(content[i].clone()));
            i = i + 1;
        }
        proof {
            let target = chunks.map(|_i: int, c: Seq<char>| span_text(c));
            assert forall|j: int| 0 <= j < chunks.len() implies rich_text.deep_view()[j]
                == target[j] by {
                assert(rich_text@[j]@ == span_text(chunks[j]));
            }
            assert(rich_text.deep_view() =~= target);
        }
        RichTextParent { rich_text, language: Some(language) }
    }

    /// The spans of this payload.
    pub fn get_blocks(&self) -> (r: Vec<NotionBlock>)
        ensures
            r.deep_view() == self@.rich_text,
    {
        clone_spans(&self.rich_text)
    }
}

impl Clone for RichTextParent {
    fn clone(&self) -> (r: Self)
        ensures
            r@ == self@,
    {
        RichTextParent {
            rich_text: clone_spans(&self.rich_text),
            language: match &self.language {
                Some(l) => Some(l.clone()),
                None => None,
            },
        }
    }
}

/// Whether a heading payload field receives content, as a free function
/// shared by the heading builder.
pub fn get_heading_text(field_depth: u8, requested_depth: u8, content: String) -> (r: Option<
    RichTextParent,
>)
    ensures
        match r {
            Some(p) => spec_heading_field(field_depth, requested_depth, content@) == Some(p@),
            None => spec_heading_field(field_depth, requested_depth, content@) is None,
        },
{
    if requested_depth == field_depth || (field_depth == 3 && requested_depth > 3) {
        Some(RichTextParent::new_text(content))
    } else {
        None
    }
}


/// The rich-text payload of a child, if its kind carries one: the checks
/// go in the fixed field order.
pub open spec fn spec_rich_text_blocks(c: ChildV) -> Option<Seq<SpanV>> {
    if c.heading_1 is Some {
        Some(c.heading_1->0.rich_text)
    } else if c.heading_2 is Some {
        Some(c.heading_2->0.rich_text)
    } else if c.heading_3 is Some {
        Some(c.heading_3->0.rich_text)
    } else if c.paragraph is Some {
        Some(c.paragraph->0.rich_text)
    } else if c.code is Some {
        Some(c.code->0.rich_text)
    } else if c.bulleted_list_item is Some {
        Some(c.bulleted_list_item->0.rich_text)
    } else if c.numbered_list_item is Some {
        Some(c.numbered_list_item->0.rich_text)
    } else {
        None
    }
}

impl AppendBlockRequestChild {
    /// A child of the given kind with no payload.
    pub fn new(block_type: BlockType) -> (r: Self)
        ensures
            r@ == empty_child(block_type),
    {
        AppendBlockRequestChild {
            object: String::from_str("block"),
            block_type,
            heading_1: None,
            heading_2: None,
            heading_3: None,
            paragraph: None,
            code: None,
            bulleted_list_item: None,
            numbered_list_item: None,
            image: None,
            table: None,
            table_row: None,
        }
    }

    /// The spans this child carries, if its kind carries rich text.
    pub fn get_rich_text_blocks(&self) -> (r: Option<Vec<NotionBlock>>)
        ensures
            match r {
                Some(v) => spec_rich_text_blocks(self@) == Some(v.deep_view()),
                None => spec_rich_text_blocks(self@) is None,
            },
    {
        if let Some(h) = &self.heading_1 {
            Some(h.get_blocks())
        } else if let Some(h) = &self.heading_2 {
            Some(h.get_blocks())
        } else if let Some(h) = &self.heading_3 {
            Some(h.get_blocks())
        } else if let Some(p) = &self.paragraph {
            Some(p.get_blocks())
        } else if let Some(c) = &self.code {
            Some(c.get_blocks())
        } else if let Some(b) = &self.bulleted_list_item {
            Some(b.get_blocks())
        } else if let Some(n) = &self.numbered_list_item {
            Some(n.get_blocks())
        } else {
            None
        }
    }

    /// A child of the given kind holding the given spans.
    pub fn new_rich_text(block_type: BlockType, rich_text: Vec<NotionBlock>) -> (r: Self)
        ensures
            r@ == child_rich_text(block_type, rich_text.deep_view()),
    {
        AppendBlockRequestChild::new(block_type).with_rich_text(rich_text)
    }

    /// A paragraph child of one plain span, newlines collapsed.
    pub fn new_paragraph_block(content: String) -> (r: Self)
        ensures
            r@ == child_paragraph_text(content@),
    {
        let formatted_content = crate::text::replace_newlines(content.as_str());
        let r = AppendBlockRequestChild {
            paragraph: Some(RichTextParent::new_text(formatted_content)),
            ..AppendBlockRequestChild::new(BlockType::Paragraph)
        };
        r
    }

    /// A heading child: its kind is clamped to the three supported depths,
    /// every depth past three degrading to the deepest.
    pub fn new_heading_block(content: String, depth: u8) -> (r: Self)
        ensures
            r@ == child_heading(content@, depth),
    {
        let block_type = match depth {
            1u8 => BlockType::Heading1,
            2u8 => BlockType::Heading2,
            3u8 => BlockType::Heading3,
            _ => BlockType::Heading3,
        };
        AppendBlockRequestChild {
            block_type,
            heading_1: get_heading_text(1, depth, content.clone()),
            heading_2: get_heading_text(2, depth, content.clone()),
            heading_3: get_heading_text(3, depth, content),
            ..AppendBlockRequestChild::new(BlockType::Heading1)
        }
    }

    /// A code child from its chunks and language.
    pub fn new_code_block(content: Vec<String>, language: String) -> (r: Self)
        ensures
            r@ == child_code(content.deep_view(), language@),
    {
        AppendBlockRequestChild {
            code: Some(RichTextParent::new_code(content, language)),
            ..AppendBlockRequestChild::new(BlockType::Code)
        }
    }

    /// A bulleted list item of one plain span.
    pub fn new_bulleted_list_item_block(content: String) -> (r: Self)
        ensures
            r@ == child_bulleted_text(content@),
    {
        AppendBlockRequestChild {
            bulleted_list_item: Some(RichTextParent::new_text(content)),
            ..AppendBlockRequestChild::new(BlockType::BulletedListItem)
        }
    }

    /// A numbered list item of one plain span.
    pub fn new_numbered_list_item_block(content: String) -> (r: Self)
        ensures
            r@ == child_numbered_text(content@),
    {
        AppendBlockRequestChild {
            numbered_list_item: Some(RichTextParent::new_text(content)),
            ..AppendBlockRequestChild::new(BlockType::NumberedListItem)
        }
    }

    /// An externally hosted image child.
    pub fn new_external_image_block(url: String) -> (r: Self)
        ensures
            r@ == child_image(url@),
    {
        AppendBlockRequestChild {
            image: Some(
                ImageParent {
                    image_type: String::from_str("external"),
                    external: ExternalImageInner { url },
                },
            ),
            ..AppendBlockRequestChild::new(BlockType::Image)
        }
    }

    /// A table child of the given width, header flags and rows.
    pub fn new_table_block(
        table_width: usize,
        has_column_header: bool,
        has_row_header: bool,
        rows: Vec<AppendBlockRequestChild>,
    ) -> (r: Self)
        ensures
            r@ == child_table(
                table_width as int,
                has_column_header,
                has_row_header,
                rows.deep_view(),
            ),
    {
        proof {
            lemma_deep_view_is_view_children(rows);
        }
        AppendBlockRequestChild {
            table: Some(
                TableParent { table_width, has_column_header, has_row_header, children: rows },
            ),
            ..AppendBlockRequestChild::new(BlockType::Table)
        }
    }

    /// A table-row child: each incoming span becomes its own one-span
    /// cell.
    pub fn new_table_row_block(cells: Vec<NotionBlock>) -> (r: Self)
        ensures
            r@ == child_table_row(cells.deep_view()),
    {
        let ghost spans = cells.deep_view();
        let mut formatted_cells: Vec<Vec<NotionBlock>> = Vec::new();
        let mut cs = cells;
        let mut i: usize = 0;
        let n = cs.len();
        while i < n
            invariant
                n == cs@.len(),
                i <= n,
                cs.deep_view() == spans,
                spans.len() == n,
                formatted_cells@.len() == i,
                forall|j: int|
                    0 <= j < i ==> #[trigger] formatted_cells@[j].deep_view() =~= seq![spans[j]],
            decreases n - i,
        {
            let mut one: Vec<NotionBlock> = Vec::new();
            one.push(cs[i].clone());
            proof {
                assert(cs@[i as int]@ == cs.deep_view()[i as int]);
                assert(one.deep_view() =~= seq![spans[i as int]]);
            }
            formatted_cells.push(one);
            i = i + 1;
        }
        proof {
            let target = spans.map(|_i: int, c: SpanV| seq![c]);
            assert forall|j: int| 0 <= j < n implies formatted_cells.deep_view()[j] == target[j] by {
                assert(formatted_cells@[j].deep_view() =~= seq![spans[j]]);
            }
            assert(formatted_cells.deep_view() =~= target);
        }
        AppendBlockRequestChild {
            table_row: Some(TableRowParent { cells: formatted_cells }),
            ..AppendBlockRequestChild::new(BlockType::TableRow)
        }
    }

    /// The same child with the rich-text payload stored in the field
    /// matching its kind; image, table and table-row children are left
    /// unchanged.
    pub fn with_rich_text(self, rich_text: Vec<NotionBlock>) -> (r: Self)
        ensures
            r@ == spec_with_rich_text(self@, rich_text.deep_view()),
    {
        let mut this = self;
        match this.block_type {
            BlockType::NumberedListItem => {
                this.numbered_list_item = Some(RichTextParent::new(rich_text));
            },
            BlockType::BulletedListItem => {
                this.bulleted_list_item = Some(RichTextParent::new(rich_text));
            },
            BlockType::Paragraph => {
                this.paragraph = Some(RichTextParent::new(rich_text));
            },
            BlockType::Heading1 => {
                this.heading_1 = Some(RichTextParent::new(rich_text));
            },
            BlockType::Heading2 => {
                this.heading_2 = Some(RichTextParent::new(rich_text));
            },
            BlockType::Heading3 => {
                this.heading_3 = Some(RichTextParent::new(rich_text));
            },
            BlockType::Code => {
                this.code = Some(RichTextParent::new(rich_text));
            },
            _ => {},
        }
        this
    }
}

/// A copy of one block child, element by element, recursing through a
/// table's rows.
pub fn clone_child(c: &AppendBlockRequestChild) -> (r: AppendBlockRequestChild)
    ensures
        r@ == c@,
    decreases *c,
{
    let heading_1 = clone_rtp_opt(&c.heading_1);
    let heading_2 = clone_rtp_opt(&c.heading_2);
    let heading_3 = clone_rtp_opt(&c.heading_3);
    let paragraph = clone_rtp_opt(&c.paragraph);
    let code = clone_rtp_opt(&c.code);
    let bulleted_list_item = clone_rtp_opt(&c.bulleted_list_item);
    let numbered_list_item = clone_rtp_opt(&c.numbered_list_item);
    let image = match &c.image {
        Some(i) => Some(
            ImageParent {
                image_type: i.image_type.clone(),
                external: ExternalImageInner { url: i.external.url.clone() },
            },
        ),
        None => None,
    };
    let table = match &c.table {
        Some(t) => {
            let mut rows: Vec<AppendBlockRequestChild> = Vec::new();
            let mut i: usize = 0;
            let n = t.children.len();
            while i < n
                invariant
                    (*c).table == Some(*t),
                    n == t.children@.len(),
                    i <= n,
                    rows@.len() == i,
                    forall|j: int| 0 <= j < i ==> #[trigger] rows@[j].view_c() == t.children@[j].view_c(),
                decreases n - i,
            {
                proof {
                    assert((*c).table == Some(*t));
                    assert(0 <= i < (*c).table->0.children@.len());
                    assert(decreases_to!(*c => (*c).table));
                    assert(decreases_to!((*c).table => (*c).table->0));
                    assert(decreases_to!((*c).table->0 => (*c).table->0.children));
                    assert(decreases_to!((*c).table->0.children => (*c).table->0.children@));
                    assert(decreases_to!((*c).table->0.children@ => (*c).table->0.children@[i as int]));
                    assert(decreases_to!(*c => t.children@[i as int]));
                }
                let row = clone_child(&t.children[i]);
                rows.push(row);
                i = i + 1;
            }
            proof {
                lemma_view_children_points(rows@);
                lemma_view_children_points(t.children@);
                assert(AppendBlockRequestChild::view_children(rows@)
                    =~= AppendBlockRequestChild::view_children(t.children@));
            }
            Some(
                TableParent {
                    table_width: t.table_width,
                    has_column_header: t.has_column_header,
                    has_row_header: t.has_row_header,
                    children: rows,
                },
            )
        },
        None => None,
    };
    let table_row = match &c.table_row {
        Some(tr) => {
            let mut cells: Vec<Vec<NotionBlock>> = Vec::new();
            let mut i: usize = 0;
            let n = tr.cells.len();
            while i < n
                invariant
                    n == tr.cells@.len(),
                    i <= n,
                    cells@.len() == i,
                    forall|j: int|
                        0 <= j < i ==> #[trigger] cells@[j].deep_view() == tr.cells@[j].deep_view(),
                decreases n - i,
            {
                cells.push(clone_spans(&tr.cells[i]));
                i = i + 1;
            }
            proof {
                assert forall|j: int| 0 <= j < n implies cells.deep_view()[j]
                    == tr.cells.deep_view()[j] by {
                    assert(cells@[j].deep_view() == tr.cells@[j].deep_view());
                }
                assert(cells.deep_view() =~= tr.cells.deep_view());
            }
            Some(TableRowParent { cells })
        },
        None => None,
    };
    AppendBlockRequestChild {
        object: c.object.clone(),
        block_type: c.block_type,
        heading_1,
        heading_2,
        heading_3,
        paragraph,
        code,
        bulleted_list_item,
        numbered_list_item,
        image,
        table,
        table_row,
    }
}

/// A copy of an optional rich-text payload.
pub fn clone_rtp_opt(o: &Option<RichTextParent>) -> (r: Option<RichTextParent>)
    ensures
        AppendBlockRequestChild::view_rtp(r) == AppendBlockRequestChild::view_rtp(*o),
{
    match o {
        Some(p) => Some(p.clone()),
        None => None,
    }
}

impl Clone for AppendBlockRequestChild {
    fn clone(&self) -> (r: Self)
        ensures
            r@ == self@,
    {
        clone_child(self)
    }
}

impl AppendBlockRequest {
    /// An empty request.
    pub fn new() -> (r: Self)
        ensures
            r@ == Seq::<ChildV>::empty(),
    {
        let r = AppendBlockRequest { children: Vec::new() };
        proof {
            assert(r@ =~= Seq::<ChildV>::empty());
        }
        r
    }

    /// A request of a single child.
    pub fn new_child(child: AppendBlockRequestChild) -> (r: Self)
        ensures
            r@ =~= seq![child@],
    {
        let mut children: Vec<AppendBlockRequestChild> = Vec::new();
        children.push(child);
        let r = AppendBlockRequest { children };
        proof {
            assert(r@ =~= seq![r.children@[0].view_c()]);
        }
        r
    }

    /// A request of the given children, in order.
    pub fn new_children(children: Vec<AppendBlockRequestChild>) -> (r: Self)
        ensures
            r@ == children.deep_view(),
    {
        AppendBlockRequest { children }
    }

    /// Appends one child at the end.
    pub fn append_child(&mut self, child: AppendBlockRequestChild)
        ensures
            final(self)@ =~= old(self)@ + seq![child@],
    {
        self.children.push(child);
        proof {
            assert forall|j: int| 0 <= j < self.children@.len() implies self@[j] == (old(self)@
                + seq![child@])[j] by {
                assert(self@[j] == self.children@[j].deep_view());
            }
        }
    }

    /// Appends the given children at the end, keeping their order.
    pub fn extend_children(&mut self, children: Vec<AppendBlockRequestChild>)
        ensures
            final(self)@ =~= old(self)@ + children.deep_view(),
    {
        let ghost added = children.deep_view();
        let mut rest = children;
        self.children.append(&mut rest);
        proof {
            assert forall|j: int| 0 <= j < self.children@.len() implies self@[j] == (old(self)@
                + added)[j] by {
                assert(self@[j] == self.children@[j].deep_view());
                if j < old(self)@.len() {
                    assert(old(self)@[j] == old(self).children@[j].deep_view());
                } else {
                    assert(added[j - old(self)@.len()] == children@[j - old(
                        self,
                    )@.len()].deep_view());
                }
            }
        }
    }

    /// A copy of the request's children, in order.
    pub fn children(&self) -> (r: Vec<AppendBlockRequestChild>)
        ensures
            r.deep_view() == self@,
    {
        let mut r: Vec<AppendBlockRequestChild> = Vec::new();
        let mut i: usize = 0;
        let n = self.children.len();
        while i < n
            invariant
                n == self.children@.len(),
                i <= n,
                r@.len() == i,
                forall|j: int| 0 <= j < i ==> #[trigger] r@[j].view_c() == self.children@[j].view_c(),
            decreases n - i,
        {
            r.push(clone_child(&self.children[i]));
            i = i + 1;
        }
        proof {
            assert forall|j: int| 0 <= j < n implies r.deep_view()[j] == self@[j] by {
                assert(r@[j].view_c() == self.children@[j].view_c());
            }
            assert(r.deep_view() =~= self@);
        }
        r
    }
}


/// Heading depths degrade to the deepest supported kind: every source
/// depth past three produces exactly the child a depth-three heading
/// would, and its kind is the third heading kind.
pub proof fn lemma_heading_depth_clamped(content: Seq<char>, depth: u8)
    requires
        depth >= 3,
    ensures
        heading_block_type(depth) == BlockType::Heading3,
        child_heading(content, depth) == child_heading(content, 3u8),
{
}

} // verus!
