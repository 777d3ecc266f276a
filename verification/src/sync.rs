//! The Hierarchy Synchronizer's decisions. The run discovers documents,
//! then phase one creates every destination page — walking each
//! document's directory chain, creating each directory at most once as a
//! child of its parent's page, and recording every identifier in the
//! Path-to-Identifier Map — and only then does phase two convert and
//! push content, so a document can link to any other regardless of
//! traversal order. The remote calls themselves happen outside; what
//! stands here is every decision between them.

use vstd::prelude::*;

use crate::args::NotationDocArguments;
use crate::convert::doc_title;
use crate::external::{lower_of, lowercase};
use crate::pathmap::{join_slash, PathIdMap};
use crate::text::{is_prefix_of, str_eq, str_to_chars};

verus! {

/// The key a directory chain prefix is recorded under: its first
/// `i + 1` names joined with slashes.
pub open spec fn dir_key(dirs: Seq<Seq<char>>, i: int) -> Seq<char> {
    join_slash(dirs.subrange(0, i + 1))
}

/// The synchronizer's state across one run: the root page everything
/// hangs under, the directories created so far, and the documents
/// recorded so far.
pub struct SyncState {
    pub root_id: String,
    pub dir_ids: PathIdMap,
    pub doc_ids: PathIdMap,
}

/// The next directory phase one must create: where it sits in the
/// chain, the map key it will be recorded under, its bare name, and the
/// identifier of the page it hangs under.
pub struct MissingDir {
    pub index: usize,
    pub dir_path: String,
    pub dir_name: String,
    pub parent_id: String,
}

impl SyncState {
    pub open spec fn wf(&self) -> bool {
        self.dir_ids.wf() && self.doc_ids.wf()
    }

    /// A fresh run: nothing created, nothing recorded.
    pub fn new(root_id: String) -> (r: Self)
        ensures
            r.wf(),
            r.root_id@ == root_id@,
            r.dir_ids.as_map() == Map::<Seq<char>, Seq<char>>::empty(),
            r.doc_ids.as_map() == Map::<Seq<char>, Seq<char>>::empty(),
            r.doc_ids@ == Seq::<(Seq<char>, Seq<char>)>::empty(),
    {
        SyncState { root_id, dir_ids: PathIdMap::new(), doc_ids: PathIdMap::new() }
    }

    /// The first directory of the chain that has no page yet, with the
    /// identifier of its parent (the chain prefix before it, or the
    /// root); `None` means the whole chain exists.
    pub fn next_missing_dir(&self, dirs: &Vec<String>) -> (r: Option<MissingDir>)
        requires
            self.wf(),
        ensures
            match r {
                Some(md) => md.index < dirs@.len() && (forall|j: int|
                    0 <= j < md.index ==> self.dir_ids.as_map().contains_key(
                        #[trigger] dir_key(dirs.deep_view(), j),
                    )) && !self.dir_ids.as_map().contains_key(
                    dir_key(dirs.deep_view(), md.index as int),
                ) && md.dir_path@ == dir_key(dirs.deep_view(), md.index as int)
                    && md.dir_name@ == dirs.deep_view()[md.index as int] && md.parent_id@ == (
                if md.index == 0 {
                    self.root_id@
                } else {
                    self.dir_ids.as_map()[dir_key(dirs.deep_view(), md.index - 1)]
                }),
                None => forall|j: int|
                    0 <= j < dirs@.len() ==> self.dir_ids.as_map().contains_key(
                        #[trigger] dir_key(dirs.deep_view(), j),
                    ),
            },
    {
        let ghost dv = dirs.deep_view();
        let mut key = String::new();
        let mut last_id = self.root_id.clone();
        let mut i: usize = 0;
        let n = dirs.len();
        while i < n
            invariant
                self.wf(),
                dv == dirs.deep_view(),
                n == dv.len(),
                i <= n,
                i > 0 ==> key@ == dir_key(dv, i - 1),
                forall|j: int|
                    0 <= j < i ==> self.dir_ids.as_map().contains_key(
                        #[trigger] dir_key(dv, j),
                    ),
                last_id@ == if i == 0 {
                    self.root_id@
                } else {
                    self.dir_ids.as_map()[dir_key(dv, i - 1)]
                },
            decreases n - i,
        {
            proof {
                assert(dv[i as int] == dirs@[i as int]@);
            }
            let next_key = if i == 0 {
                dirs[i].clone()
            } else {
                key.concat("/").concat(dirs[i].as_str())
            };
            proof {
                reveal_strlit("/");
                if i == 0 {
                    assert(dv.subrange(0, 1) =~= seq![dv[0]]);
                    assert(next_key@ == dir_key(dv, 0));
                } else {
                    assert(dv.subrange(0, i + 1).drop_last() =~= dv.subrange(0, i as int));
                    assert(next_key@ =~= dir_key(dv, i as int));
                }
            }
            match self.dir_ids.get(next_key.as_str()) {
                Some(id) => {
                    last_id = id.clone();
                    key = next_key;
                    i = i + 1;
                },
                None => {
                    return Some(
                        MissingDir {
                            index: i,
                            dir_path: next_key,
                            dir_name: dirs[i].clone(),
                            parent_id: last_id,
                        },
                    );
                },
            }
        }
        None
    }

    /// Records a created directory page.
    pub fn record_dir(&mut self, dir_path: String, id: String)
        requires
            old(self).wf(),
        ensures
            final(self).wf(),
            final(self).root_id == old(self).root_id,
            final(self).doc_ids == old(self).doc_ids,
            final(self).dir_ids.as_map() == old(self).dir_ids.as_map().insert(dir_path@, id@),
    {
        self.dir_ids.insert(dir_path, id);
    }

    /// The page a leaf document hangs under: the whole chain's
    /// directory page where one was created, else the root.
    pub fn doc_parent_id(&self, dirs: &Vec<String>) -> (r: String)
        requires
            self.wf(),
        ensures
            ({
                let k = join_slash(dirs.deep_view());
                r@ == if self.dir_ids.as_map().contains_key(k) {
                    self.dir_ids.as_map()[k]
                } else {
                    self.root_id@
                }
            }),
    {
        let key = crate::pathmap::join_segments(dirs);
        match self.dir_ids.get(key.as_str()) {
            Some(id) => id.clone(),
            None => self.root_id.clone(),
        }
    }

    /// Records a document's page identifier under its full source path.
    pub fn record_doc(&mut self, path: String, id: String)
        requires
            old(self).wf(),
        ensures
            final(self).wf(),
            final(self).root_id == old(self).root_id,
            final(self).dir_ids == old(self).dir_ids,
            final(self).doc_ids.as_map() == old(self).doc_ids.as_map().insert(path@, id@),
            !old(self).doc_ids.as_map().contains_key(path@) ==> final(self).doc_ids@ == old(
                self,
            ).doc_ids@.push((path@, id@)),
    {
        self.doc_ids.insert(path, id);
    }
}

/// Whether a file stem names an intro document (case-insensitively): an
/// intro document gets no page of its own but reuses its directory's,
/// and its metadata names the directory page.
pub fn is_intro(file_stem: &str) -> (r: bool)
    ensures
        r == (lower_of(file_stem@) == "intro"@),
{
    let lower = lowercase(file_stem);
    str_eq(lower.as_str(), "intro")
}

/// The title a page gets: the metadata override where one was given,
/// else the fallback name.
pub fn page_title_of(args: &NotationDocArguments, fallback: &String) -> (r: String)
    ensures
        r@ == doc_title(args@, fallback@),
{
    match &args.title {
        Some(t) => t.clone(),
        None => fallback.clone(),
    }
}

/// The path of a discovered file relative to the source directory:
/// the directory prefix (one trailing slash dropped) and its following
/// slash are removed. `None` means the file does not sit under the
/// directory.
pub open spec fn spec_rel_path(path: Seq<char>, dir: Seq<char>) -> Option<Seq<char>> {
    let base = if dir.len() >= 1 && dir.last() == '/' {
        dir.drop_last()
    } else {
        dir
    };
    if base.len() == 0 {
        Some(path)
    } else if path == base {
        Some(Seq::<char>::empty())
    } else if is_prefix_of(base + seq!['/'], path) {
        Some(path.skip(base.len() as int + 1))
    } else {
        None
    }
}

/// Strips the source directory prefix off a discovered path.
pub fn rel_path(path: &str, dir: &str) -> (r: Option<String>)
    ensures
        match r {
            Some(p) => spec_rel_path(path@, dir@) == Some(p@),
            None => spec_rel_path(path@, dir@) is None,
        },
{
    let dchars = str_to_chars(dir);
    let dn = dchars.len();
    let base_len: usize = if dn >= 1 && dchars[dn - 1] == '/' {
        dn - 1
    } else {
        dn
    };
    let ghost base = if dir@.len() >= 1 && dir@.last() == '/' {
        dir@.drop_last()
    } else {
        dir@
    };
    proof {
        assert(base =~= dchars@.subrange(0, base_len as int));
    }
    if base_len == 0 {
        return Some(String::from_str(path));
    }
    let pchars = str_to_chars(path);
    let pn = pchars.len();
    if pn < base_len {
        proof {
            assert(path@ != base) by {
                assert(path@.len() != base.len());
            }
            assert(!is_prefix_of(base + seq!['/'], path@)) by {
                assert((base + seq!['/']).len() > path@.len());
            }
        }
        return None;
    }
    // compare the first base_len characters
    let mut i: usize = 0;
    while i < base_len
        invariant
            base_len >= 1,
            base_len <= pchars@.len(),
            base_len <= dchars@.len(),
            base == (if dir@.len() >= 1 && dir@.last() == '/' {
                dir@.drop_last()
            } else {
                dir@
            }),
            base == dchars@.subrange(0, base_len as int),
            dchars@ == dir@,
            pchars@ == path@,
            i <= base_len,
            forall|j: int| 0 <= j < i ==> pchars@[j] == base[j],
        decreases base_len - i,
    {
        if pchars[i] != dchars[i] {
            proof {
                assert(base[i as int] == dchars@[i as int]);
                assert(path@ != base) by {
                    assert(path@.len() >= base.len());
                    if path@.len() == base.len() {
                        if path@ == base {
                            assert(path@[i as int] == base[i as int]);
                        }
                    }
                }
                assert(!is_prefix_of(base + seq!['/'], path@)) by {
                    if is_prefix_of(base + seq!['/'], path@) {
                        assert(path@.subrange(0, base.len() as int + 1)[i as int]
                            == path@[i as int]);
                        assert((base + seq!['/'])[i as int] == base[i as int]);
                    }
                }
            }
            return None;
        }
        i = i + 1;
    }
    if pn == base_len {
        proof {
            assert(path@ =~= base);
        }
        return Some(String::new());
    }
    // pn > base_len: the next character must be the separating slash
    if pchars[base_len] != '/' {
        proof {
            assert(path@ != base) by {
                assert(path@.len() != base.len());
            }
            assert(!is_prefix_of(base + seq!['/'], path@)) by {
                if is_prefix_of(base + seq!['/'], path@) {
                    assert(path@.subrange(0, base.len() as int + 1)[base_len as int]
                        == path@[base_len as int]);
                    assert((base + seq!['/'])[base_len as int] == '/');
                }
            }
        }
        return None;
    }
    let mut out: Vec<char> = Vec::new();
    let mut k: usize = base_len + 1;
    proof {
        assert(out@ =~= path@.subrange(base_len as int + 1, k as int));
    }
    while k < pn
        invariant
            base_len as int + 1 <= k <= pn,
            pn == pchars@.len(),
            pchars@ == path@,
            out@ == path@.subrange(base_len as int + 1, k as int),
        decreases pn - k,
    {
        out.push(pchars[k]);
        k = k + 1;
        proof {
            assert(out@ =~= path@.subrange(base_len as int + 1, k as int));
        }
    }
    proof {
        assert(is_prefix_of(base + seq!['/'], path@)) by {
            assert(path@.subrange(0, base.len() as int + 1) =~= base + seq!['/']);
        }
        assert(path@ != base) by {
            assert(path@.len() != base.len());
        }
        assert(out@ =~= path@.skip(base.len() as int + 1));
    }
    Some(crate::external::chars_to_string(&out))
}

/// The two phases are order-independent: recording two distinct
/// documents in either order builds the same Path-to-Identifier Map,
/// and a document's conversion is a function of that completed map
/// alone, so mutual forward references between two documents resolve
/// whichever document is visited first in either phase.
pub proof fn lemma_two_phase_order_independent(
    m: Map<Seq<char>, Seq<char>>,
    pa: Seq<char>,
    ia: Seq<char>,
    pb: Seq<char>,
    ib: Seq<char>,
    doc: crate::convert::MdNode,
    file: Seq<char>,
    page_id: Seq<char>,
    title: Seq<char>,
)
    requires
        pa != pb,
    ensures
        m.insert(pa, ia).insert(pb, ib) == m.insert(pb, ib).insert(pa, ia),
        crate::convert::spec_convert_node(
            doc,
            doc,
            crate::convert::Ctx { file, page_id, map: m.insert(pa, ia).insert(pb, ib), title },
        ) == crate::convert::spec_convert_node(
            doc,
            doc,
            crate::convert::Ctx { file, page_id, map: m.insert(pb, ib).insert(pa, ia), title },
        ),
{
    crate::pathmap::lemma_insert_commutes(m, pa, ia, pb, ib);
}

} // verus!
