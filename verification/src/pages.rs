//! The request and response shapes for page creation and archiving in
//! the remote workspace, and the decisions around them: how a page
//! request is assembled from a parent, a title and an optional emoji,
//! and which endpoint kind an archived resource goes to.

use vstd::prelude::*;

verus! {

/// The kind of one piece of page content, as the remote reports it.
#[derive(Clone, Copy, Debug, PartialEq, Eq, Structural)]
pub enum PageContentType {
    Paragraph,
    ChildPage,
    Unknown,
}

impl Default for PageContentType {
    /// An unrecognized kind.
    fn default() -> (r: Self)
        ensures
            r == PageContentType::Unknown,
    {
        PageContentType::Unknown
    }
}

impl PageContentType {
    /// The kind's display name.
    pub fn display_name(&self) -> (r: &'static str)
        ensures
            r@ == self.display_name_spec(),
    {
        match self {
            PageContentType::Paragraph => "Paragraph",
            PageContentType::ChildPage => "Child Page",
            PageContentType::Unknown => "Unknown",
        }
    }

    pub open spec fn display_name_spec(&self) -> Seq<char> {
        match self {
            PageContentType::Paragraph => "Paragraph"@,
            PageContentType::ChildPage => "Child Page"@,
            PageContentType::Unknown => "Unknown"@,
        }
    }
}

/// The endpoint path an archive request goes to: pages for child pages,
/// blocks for everything else.
pub open spec fn spec_archive_path(
    base: Seq<char>,
    resource_id: Seq<char>,
    t: PageContentType,
) -> Seq<char> {
    match t {
        PageContentType::ChildPage => base + "/pages/"@ + resource_id,
        _ => base + "/blocks/"@ + resource_id,
    }
}

/// Composes the endpoint path an archive request goes to.
pub fn archive_path(base: &str, resource_id: &str, t: &PageContentType) -> (r: String)
    ensures
        r@ == spec_archive_path(base@, resource_id@, *t),
{
    match t {
        PageContentType::ChildPage => String::from_str(base).concat("/pages/").concat(
            resource_id,
        ),
        _ => String::from_str(base).concat("/blocks/").concat(resource_id),
    }
}

/// The identifier a page creation answers with.
pub struct CreatePageResponse {
    pub id: String,
}

/// The parent a new page hangs under.
pub struct PageParent {
    pub page_id: String,
}

pub struct TitleTextInner {
    pub content: String,
}

pub struct TitleText {
    pub text_type: String,
    pub text: TitleTextInner,
}

pub struct TitleSubProperties {
    pub title: Vec<TitleText>,
    pub property_type: String,
    pub id: String,
}

/// A new page's properties: its title, as the one property the request
/// sets.
pub struct PageProperties {
    pub title: TitleSubProperties,
}

impl PageProperties {
    /// A title property holding exactly the given text.
    pub fn new(title: String) -> (r: Self)
        ensures
            r.title.title@.len() == 1,
            r.title.title@[0].text_type@ == "text"@,
            r.title.title@[0].text.content@ == title@,
            r.title.property_type@ == "title"@,
            r.title.id@ == "title"@,
    {
        let mut texts: Vec<TitleText> = Vec::new();
        texts.push(
            TitleText {
                text_type: String::from_str("text"),
                text: TitleTextInner { content: title },
            },
        );
        PageProperties {
            title: TitleSubProperties {
                title: texts,
                property_type: String::from_str("title"),
                id: String::from_str("title"),
            },
        }
    }
}

/// An emoji icon for a new page.
pub struct PageEmojiIcon {
    pub icon_type: String,
    pub emoji: String,
}

impl PageEmojiIcon {
    pub fn new(emoji: String) -> (r: Self)
        ensures
            r.icon_type@ == "emoji"@,
            r.emoji@ == emoji@,
    {
        PageEmojiIcon { icon_type: String::from_str("emoji"), emoji }
    }
}

/// An externally hosted cover image for a new page.
pub struct PageCoverExternalUrl {
    pub url: String,
}

pub struct PageCover {
    pub cover_type: String,
    pub external: PageCoverExternalUrl,
}

impl PageCover {
    pub fn new(external_url: String) -> (r: Self)
        ensures
            r.cover_type@ == "external"@,
            r.external.url@ == external_url@,
    {
        PageCover {
            cover_type: String::from_str("external"),
            external: PageCoverExternalUrl { url: external_url },
        }
    }
}

/// A page creation request: parent, properties, and optional icon and
/// cover. The created page starts with no children; content is appended
/// afterwards.
pub struct CreatePageRequest {
    pub parent: PageParent,
    pub properties: PageProperties,
    pub icon: Option<PageEmojiIcon>,
    pub cover: Option<PageCover>,
}

impl CreatePageRequest {
    /// A plain request: the given parent and title, nothing else.
    pub fn new(parent_id: String, title: String) -> (r: Self)
        ensures
            r.parent.page_id@ == parent_id@,
            r.properties.title.title@.len() == 1,
            r.properties.title.title@[0].text.content@ == title@,
            r.icon is None,
            r.cover is None,
    {
        CreatePageRequest {
            parent: PageParent { page_id: parent_id },
            properties: PageProperties::new(title),
            icon: None,
            cover: None,
        }
    }

    /// The same request carrying an emoji icon.
    pub fn with_icon(self, icon: String) -> (r: Self)
        ensures
            r.icon matches Some(i) && i.icon_type@ == "emoji"@ && i.emoji@ == icon@,
            r.parent == self.parent,
            r.properties == self.properties,
            r.cover == self.cover,
    {
        CreatePageRequest { icon: Some(PageEmojiIcon::new(icon)), ..self }
    }

    /// The same request carrying a cover.
    pub fn with_cover(self, cover: PageCover) -> (r: Self)
        ensures
            r.cover == Some(cover),
            r.parent == self.parent,
            r.properties == self.properties,
            r.icon == self.icon,
    {
        CreatePageRequest { cover: Some(cover), ..self }
    }
}

} // verus!
