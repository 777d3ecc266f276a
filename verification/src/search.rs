//! The shapes of a name-based page search and the decisions over its
//! answer: matches are filtered by case-insensitive title equality, and
//! a parent lookup must land on exactly one page.

use vstd::prelude::*;

use crate::errors::NotationError;
use crate::external::{lower_of, lowercase};
use crate::text::str_eq;

verus! {

/// A page search request: the query and the fixed page filter.
pub struct SearchRequest {
    pub query: String,
    pub filter: SearchFilter,
}

pub struct SearchFilter {
    pub value: String,
    pub property: String,
}

impl SearchRequest {
    /// A request for pages whose title relates to the query.
    pub fn new(query: String) -> (r: Self)
        ensures
            r.query@ == query@,
            r.filter.value@ == "page"@,
            r.filter.property@ == "object"@,
    {
        SearchRequest {
            query,
            filter: SearchFilter {
                value: String::from_str("page"),
                property: String::from_str("object"),
            },
        }
    }
}

/// What one search answer holds of a page.
pub struct SearchResultItem {
    pub object: String,
    pub id: String,
    pub url: String,
    pub parent: SearchResultItemParent,
    pub properties: SearchResultItemProperty,
}

pub struct SearchResultItemParent {
    pub page_id: Option<String>,
}

pub struct SearchResultItemProperty {
    pub title: TitleInner,
}

pub struct TitleInner {
    pub title: Vec<TitleArrayElement>,
}

pub struct TitleArrayElement {
    pub plain_text: String,
}

/// A whole search answer.
pub struct SearchResult {
    pub results: Vec<SearchResultItem>,
}

impl Default for SearchResult {
    /// No results.
    fn default() -> (r: Self)
        ensures
            r.results@.len() == 0,
    {
        SearchResult { results: Vec::new() }
    }
}

impl Clone for TitleArrayElement {
    fn clone(&self) -> (r: Self)
        ensures
            r.plain_text@ == self.plain_text@,
    {
        TitleArrayElement { plain_text: self.plain_text.clone() }
    }
}

impl Clone for SearchResultItem {
    fn clone(&self) -> (r: Self)
        ensures
            item_view(r) == item_view(*self),
    {
        let mut title: Vec<TitleArrayElement> = Vec::new();
        let mut i: usize = 0;
        let n = self.properties.title.title.len();
        while i < n
            invariant
                n == self.properties.title.title@.len(),
                i <= n,
                title@.len() == i,
                forall|j: int|
                    0 <= j < i ==> (#[trigger] title@[j]).plain_text@
                        == self.properties.title.title@[j].plain_text@,
            decreases n - i,
        {
            title.push(self.properties.title.title[i].clone());
            i = i + 1;
        }
        let r = SearchResultItem {
            object: self.object.clone(),
            id: self.id.clone(),
            url: self.url.clone(),
            parent: SearchResultItemParent {
                page_id: match &self.parent.page_id {
                    Some(p) => Some(p.clone()),
                    None => None,
                },
            },
            properties: SearchResultItemProperty { title: TitleInner { title } },
        };
        proof {
            assert(item_view(r).titles =~= item_view(*self).titles);
            assert(item_view(r) =~= item_view(*self));
        }
        r
    }
}

/// The mathematical content of a search answer item.
pub struct ItemV {
    pub object: Seq<char>,
    pub id: Seq<char>,
    pub url: Seq<char>,
    pub parent_page_id: Option<Seq<char>>,
    pub titles: Seq<Seq<char>>,
}

pub open spec fn item_view(x: SearchResultItem) -> ItemV {
    ItemV {
        object: x.object@,
        id: x.id@,
        url: x.url@,
        parent_page_id: x.parent.page_id.deep_view(),
        titles: Seq::new(
            x.properties.title.title@.len(),
            |j: int| x.properties.title.title@[j].plain_text@,
        ),
    }
}

/// Whether an item's first title run equals the lowercased query,
/// case-insensitively.
pub open spec fn title_matches(x: SearchResultItem, lower_name: Seq<char>) -> bool {
    lower_of(x.properties.title.title@[0].plain_text@) == lower_name
}

/// The items whose first title run matches, in order.
pub open spec fn spec_filter_pages(items: Seq<SearchResultItem>, lower_name: Seq<char>) -> Seq<
    ItemV,
>
    decreases items.len(),
{
    if items.len() == 0 {
        Seq::<ItemV>::empty()
    } else if title_matches(items.last(), lower_name) {
        spec_filter_pages(items.drop_last(), lower_name).push(item_view(items.last()))
    } else {
        spec_filter_pages(items.drop_last(), lower_name)
    }
}

/// Keeps the search answers whose title equals the queried name,
/// case-insensitively. Every answer must carry at least one title run.
pub fn filter_pages_by_name(results: &Vec<SearchResultItem>, page_name: &str) -> (r: Vec<
    SearchResultItem,
>)
    requires
        forall|i: int|
            0 <= i < results@.len() ==> (#[trigger] results@[i]).properties.title.title@.len()
                > 0,
    ensures
        Seq::new(r@.len(), |j: int| item_view(r@[j])) == spec_filter_pages(
            results@,
            lower_of(page_name@),
        ),
{
    let lower_name = lowercase(page_name);
    let mut kept: Vec<SearchResultItem> = Vec::new();
    let mut i: usize = 0;
    let n = results.len();
    proof {
        assert(results@.subrange(0, 0) =~= Seq::<SearchResultItem>::empty());
        assert(Seq::new(kept@.len(), |j: int| item_view(kept@[j])) =~= spec_filter_pages(
            results@.subrange(0, 0),
            lower_of(page_name@),
        ));
    }
    while i < n
        invariant
            n == results@.len(),
            i <= n,
            lower_name@ == lower_of(page_name@),
            forall|k: int|
                0 <= k < n ==> (#[trigger] results@[k]).properties.title.title@.len() > 0,
            Seq::new(kept@.len(), |j: int| item_view(kept@[j])) == spec_filter_pages(
                results@.subrange(0, i as int),
                lower_of(page_name@),
            ),
        decreases n - i,
    {
        let item = &results[i];
        let item_lower = lowercase(item.properties.title.title[0].plain_text.as_str());
        let matched = str_eq(item_lower.as_str(), lower_name.as_str());
        proof {
            assert(results@.subrange(0, i + 1).drop_last() =~= results@.subrange(0, i as int));
            assert(results@.subrange(0, i + 1).last() == results@[i as int]);
        }
        if matched {
            kept.push(item.clone());
        }
        i = i + 1;
        proof {
            assert(Seq::new(kept@.len(), |j: int| item_view(kept@[j])) =~= spec_filter_pages(
                results@.subrange(0, i as int),
                lower_of(page_name@),
            ));
        }
    }
    proof {
        assert(results@.subrange(0, n as int) =~= results@);
    }
    kept
}

/// The parent lookup's decision: exactly one match hands back its
/// identifier; zero or several is an ambiguity error carrying the name
/// and the count.
pub fn select_unique_page_id(matches: &Vec<SearchResultItem>, name: &String) -> (r: Result<
    String,
    NotationError,
>)
    ensures
        match r {
            Ok(id) => matches@.len() == 1 && id@ == matches@[0].id@,
            Err(e) => matches@.len() != 1 && (e matches NotationError::AmbiguousLookup {
                name: n2,
                count,
            } && n2@ == name@ && count == matches@.len()),
        },
{
    if matches.len() == 1 {
        Ok(matches[0].id.clone())
    } else {
        Err(NotationError::AmbiguousLookup { name: name.clone(), count: matches.len() })
    }
}

} // verus!
