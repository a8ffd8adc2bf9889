//! The path resolver: normalizes a raw URL path, finds the longest
//! cached prefix, and walks the remaining segments one fetched folder at
//! a time. The caller fetches folder contents and feeds them to
//! [`search_step`]; the cache grows as child folders are seen.

use vstd::prelude::*;
use crate::dircache::DirCache;
use crate::error::{ErrModel, GofileError};
use crate::model::{
    children_model, contents_model, Contents, ContentsModel, FolderEntry, FolderModel,
};
use crate::strutil::{concat2, concat3, find_char_from, rfind_char, str_eq, substr_copy};
use crate::webtext::{percent_decoded_of, percent_path_decode};

verus! {

// ---------------------------------------------------------------------------
// Normalization
// ---------------------------------------------------------------------------

/// How a raw URL path normalizes: a leading slash is ensured, one
/// trailing slash is stripped (making the root the empty string), and
/// the result is percent-decoded as UTF-8.
pub open spec fn normalize_spec(raw: Seq<char>) -> Option<Seq<char>> {
    let lead = if raw.len() > 0 && raw[0] == '/' {
        raw
    } else {
        seq!['/'] + raw
    };
    let stripped = if lead.len() > 0 && lead.last() == '/' {
        lead.drop_last()
    } else {
        lead
    };
    percent_decoded_of(stripped)
}

/// Normalizes a raw URL path; `None` when the percent-decoded bytes are
/// not valid UTF-8.
pub fn normalize_path(raw: &str) -> (r: Option<String>)
    ensures
        match r {
            Some(p) => normalize_spec(raw@) == Some(p@),
            None => normalize_spec(raw@) is None,
        },
{
    let n = raw.unicode_len();
    let lead: String = if n > 0 && raw.get_char(0) == '/' {
        raw.to_owned()
    } else {
        let l = concat2("/", raw);
        proof {
            reveal_strlit("/");
            assert(l@ =~= seq!['/'] + raw@);
        }
        l
    };
    let ll = lead.as_str().unicode_len();
    let stripped: String = if ll > 0 && lead.as_str().get_char(ll - 1) == '/' {
        let s = substr_copy(lead.as_str(), 0, ll - 1);
        proof {
            assert(s@ =~= lead@.drop_last());
        }
        s
    } else {
        lead
    };
    percent_path_decode(stripped.as_str())
}

// ---------------------------------------------------------------------------
// The chop-prefix order
// ---------------------------------------------------------------------------

/// `p` is what repeatedly stripping the last `/segment` of `orig` can
/// reach: `orig` itself, or a prefix cut just before a slash.
pub open spec fn is_chop_prefix(orig: Seq<char>, p: Seq<char>) -> bool {
    p == orig || (p.len() < orig.len() && p == orig.subrange(0, p.len() as int) && orig[
        p.len() as int
    ] == '/')
}

/// The resolver's position: the normalized path looked for, and the
/// cached prefix (with its folder code) resolved so far.
pub struct SearchState {
    pub orig_path: String,
    pub current_path: String,
    pub current_id: String,
}

/// Starts a search: normalizes the raw path and finds the longest
/// cached chop-prefix. A path already cached in full starts at itself:
/// no parent lookup precedes its fetch.
pub fn search_begin(cache: &DirCache<String>, raw: &str) -> (r: Result<SearchState, GofileError>)
    requires
        cache.has_root(),
    ensures
        match r {
            Ok(st) => ({
                &&& normalize_spec(raw@) == Some(st.orig_path@)
                &&& is_chop_prefix(st.orig_path@, st.current_path@)
                &&& cache@.contains_key(st.current_path@)
                &&& cache@[st.current_path@]@ == st.current_id@
                &&& forall|p: Seq<char>|
                    is_chop_prefix(st.orig_path@, p) && p.len() > st.current_path@.len()
                        ==> !cache@.contains_key(p)
            }),
            Err(e) => (normalize_spec(raw@) is None && e@ == ErrModel::Unexpected(
                "Invalid UTF-8 in percent-decoded URI path"@,
            )) || (match normalize_spec(raw@) {
                Some(p) => p.len() > 0 && p[0] != '/',
                None => false,
            } && e@ == ErrModel::Unexpected(
                "Expected a path-like string starting with '/'"@,
            )),
        },
{
    let orig = match normalize_path(raw) {
        Some(p) => p,
        None => {
            return Err(
                GofileError::Unexpected {
                    message: "Invalid UTF-8 in percent-decoded URI path".to_owned(),
                },
            );
        },
    };
    let mut path = orig.clone();
    loop
        invariant
            cache.has_root(),
            normalize_spec(raw@) == Some(orig@),
            is_chop_prefix(orig@, path@),
            forall|p: Seq<char>|
                is_chop_prefix(orig@, p) && p.len() > path@.len() ==> !cache@.contains_key(p),
        decreases path@.len(),
    {
        let hit = match cache.find_dir(path.as_str()) {
            Some(id) => Some(id.clone()),
            None => None,
        };
        match hit {
            Some(id) => {
                return Ok(SearchState { orig_path: orig, current_path: path, current_id: id });
            },
            None => {
                match rfind_char(path.as_str(), '/') {
                    Some(i) => {
                        proof {
                            assert forall|p: Seq<char>|
                                is_chop_prefix(orig@, p) && p.len() > i implies !cache@.contains_key(
                                p,
                            ) by {
                                if p.len() <= path@.len() {
                                    if p.len() == path@.len() {
                                        assert(p =~= path@);
                                    } else {
                                        assert(orig@[p.len() as int] == path@[p.len() as int]);
                                    }
                                }
                            }
                        }
                        let shorter = substr_copy(path.as_str(), 0, i);
                        proof {
                            assert(shorter@ == path@.subrange(0, i as int));
                            assert(shorter@ =~= orig@.subrange(0, i as int));
                            assert(orig@[i as int] == path@[i as int]);
                        }
                        path = shorter;
                    },
                    None => {
                        proof {
                            assert(path@.len() > 0) by {
                                if path@.len() == 0 {
                                    assert(path@ =~= Seq::<char>::empty());
                                    assert(cache@.contains_key(path@));
                                }
                            }
                            assert(orig@.len() > 0);
                            assert(orig@[0] != '/') by {
                                if orig@[0] == '/' {
                                    if path@ == orig@ {
                                        assert(path@[0] == '/');
                                    } else {
                                        assert(path@ == orig@.subrange(0, path@.len() as int));
                                        assert(path@[0] == orig@[0]);
                                    }
                                    assert(path@[0] != '/');
                                }
                            }
                        }
                        return Err(
                            GofileError::Unexpected {
                                message: "Expected a path-like string starting with '/'".to_owned(),
                            },
                        );
                    },
                }
            },
        }
    }
}

// ---------------------------------------------------------------------------
// Child filtering
// ---------------------------------------------------------------------------

/// Rebuilds a child list for a listing: files a client cannot serve
/// (inaccessible or frozen) are dropped, and each kept entry is keyed by
/// its identifier.
pub open spec fn filter_children_spec(cs: Seq<(Seq<char>, ContentsModel)>) -> Seq<
    (Seq<char>, ContentsModel),
>
    decreases cs.len(),
{
    if cs.len() == 0 {
        Seq::empty()
    } else {
        let rest = filter_children_spec(cs.drop_first());
        match cs[0].1 {
            ContentsModel::File(f) => if !f.can_access || f.is_frozen {
                rest
            } else {
                seq![(f.id, cs[0].1)] + rest
            },
            ContentsModel::Folder(f) => seq![(f.id, cs[0].1)] + rest,
        }
    }
}

/// Filter stability: no file the filter keeps is inaccessible or frozen.
pub proof fn lemma_filter_children_no_bad(cs: Seq<(Seq<char>, ContentsModel)>)
    ensures
        forall|i: int|
            0 <= i < filter_children_spec(cs).len() ==> match (
            #[trigger] filter_children_spec(cs)[i]).1 {
                ContentsModel::File(f) => f.can_access && !f.is_frozen,
                ContentsModel::Folder(_) => true,
            },
    decreases cs.len(),
{
    if cs.len() > 0 {
        lemma_filter_children_no_bad(cs.drop_first());
    }
}

/// Applies [`filter_children_spec`] to a child list.
pub fn filter_children(children: Vec<(String, Contents)>) -> (r: Vec<(String, Contents)>)
    ensures
        children_model(r@) == filter_children_spec(children_model(children@)),
    decreases children@.len(),
{
    let ghost orig = children@;
    let mut children = children;
    if children.len() == 0 {
        let r: Vec<(String, Contents)> = Vec::new();
        proof {
            assert(children_model(r@) =~= filter_children_spec(children_model(orig)));
        }
        return r;
    }
    let pair = children.remove(0);
    proof {
        assert(children@ =~= orig.drop_first());
        assert(children_model(orig) == seq![(orig[0].0@, contents_model(orig[0].1))]
            + children_model(orig.drop_first()));
        assert(children_model(orig)[0] == (pair.0@, contents_model(pair.1)));
        assert(children_model(orig).drop_first() =~= children_model(orig.drop_first()));
    }
    let (_key, child) = pair;
    let rest = filter_children(children);
    let keep: bool = match &child {
        Contents::File(f) => f.can_access && !f.is_frozen,
        Contents::Folder(_) => true,
    };
    if !keep {
        return rest;
    }
    let id = child.id().clone();
    let ghost rest0 = rest@;
    let mut out = rest;
    out.insert(0, (id, child));
    proof {
        assert(out@.drop_first() =~= rest0);
        assert(children_model(out@) == seq![(out@[0].0@, contents_model(out@[0].1))]
            + children_model(rest0));
    }
    out
}

// ---------------------------------------------------------------------------
// Cache updates while walking
// ---------------------------------------------------------------------------

/// Is the entry a folder?
pub open spec fn is_folder_entry(c: Contents) -> bool {
    c is Folder
}

/// A folder entry's name.
pub open spec fn folder_name_of(c: Contents) -> Seq<char> {
    c->Folder_0.name@
}

/// A folder entry's code, as stored.
pub open spec fn folder_code_of(c: Contents) -> String {
    c->Folder_0.code
}

proof fn lemma_prefix_cancel(p: Seq<char>, a: Seq<char>, b: Seq<char>)
    requires
        p + a == p + b,
    ensures
        a == b,
{
    assert((p + a).len() == p.len() + a.len());
    assert((p + b).len() == p.len() + b.len());
    assert(a.len() == b.len());
    assert forall|k: int| 0 <= k < a.len() implies a[k] == b[k] by {
        assert((p + a)[p.len() + k] == a[k]);
        assert((p + b)[p.len() + k] == b[k]);
    }
    assert(a =~= b);
}

/// Inserts every child folder into the cache at its absolute path
/// `base/name`, bound to its code; with several folder children of one
/// name, the last wins. No binding is ever removed.
pub fn insert_folder_children(
    cache: &mut DirCache<String>,
    base: &str,
    children: &Vec<(String, Contents)>,
)
    ensures
        forall|k: Seq<char>| old(cache)@.contains_key(k) ==> final(cache)@.contains_key(k),
        forall|i: int|
            0 <= i < children@.len() && is_folder_entry(#[trigger] children@[i].1)
                ==> final(cache)@.contains_key(base@ + "/"@ + folder_name_of(children@[i].1)),
        forall|i: int|
            0 <= i < children@.len() && is_folder_entry(#[trigger] children@[i].1) && (forall|
                j: int,
            |
                i < j < children@.len() ==> !(is_folder_entry(#[trigger] children@[j].1)
                    && folder_name_of(children@[j].1) == folder_name_of(children@[i].1)))
                ==> final(cache)@[base@ + "/"@ + folder_name_of(children@[i].1)]
                == folder_code_of(children@[i].1),
{
    let n = children.len();
    let mut i: usize = 0;
    while i < n
        invariant
            n == children@.len(),
            i <= n,
            forall|k: Seq<char>| old(cache)@.contains_key(k) ==> cache@.contains_key(k),
            forall|ii: int|
                0 <= ii < i && is_folder_entry(#[trigger] children@[ii].1)
                    ==> cache@.contains_key(base@ + "/"@ + folder_name_of(children@[ii].1)),
            forall|ii: int|
                0 <= ii < i && is_folder_entry(#[trigger] children@[ii].1) && (forall|j: int|
                    ii < j < i ==> !(is_folder_entry(#[trigger] children@[j].1)
                        && folder_name_of(children@[j].1) == folder_name_of(children@[ii].1)))
                    ==> cache@[base@ + "/"@ + folder_name_of(children@[ii].1)]
                    == folder_code_of(children@[ii].1),
        decreases n - i,
    {
        match &children[i].1 {
            Contents::Folder(f) => {
                let ghost pre = cache@;
                let key = concat3(base, "/", f.name.as_str());
                cache.insert_dir(key, f.code.clone());
                proof {
                    assert(cache@ == pre.insert(
                        base@ + "/"@ + folder_name_of(children@[i as int].1),
                        folder_code_of(children@[i as int].1),
                    ));
                    assert forall|ii: int|
                        0 <= ii < i + 1 && is_folder_entry(#[trigger] children@[ii].1) && (forall|
                            j: int,
                        |
                            ii < j < i + 1 ==> !(is_folder_entry(#[trigger] children@[j].1)
                                && folder_name_of(children@[j].1) == folder_name_of(
                                children@[ii].1,
                            ))) implies cache@[base@ + "/"@ + folder_name_of(children@[ii].1)]
                        == folder_code_of(children@[ii].1) by {
                        if ii < i {
                            assert(!(folder_name_of(children@[i as int].1) == folder_name_of(
                                children@[ii].1,
                            )));
                            if base@ + "/"@ + folder_name_of(children@[ii].1) == base@ + "/"@
                                + folder_name_of(children@[i as int].1) {
                                lemma_prefix_cancel(
                                    base@ + "/"@,
                                    folder_name_of(children@[ii].1),
                                    folder_name_of(children@[i as int].1),
                                );
                            }
                        }
                    }
                }
            },
            _ => {},
        }
        i = i + 1;
    }
}

// ---------------------------------------------------------------------------
// The walk
// ---------------------------------------------------------------------------

/// The outcome of feeding one fetched listing to the resolver.
pub enum SearchStep {
    /// The entry at the searched path.
    Found(Contents),
    /// The path does not exist.
    Missing,
    /// A remote error to surface.
    Fail(GofileError),
    /// Fetch the new state's folder and continue.
    Descend(SearchState),
}

/// `e` ends the next segment of `orig` after the prefix of length
/// `cplen`: the segment runs from `cplen + 1` to the next slash, or to
/// the end of the path.
pub open spec fn is_seg_boundary(orig: Seq<char>, cplen: int, e: int) -> bool {
    cplen + 1 <= e <= orig.len() && (e == orig.len() || orig[e] == '/') && forall|j: int|
        cplen + 1 <= j < e ==> orig[j] != '/'
}

/// Is a child usable and named `seg`? Files a client cannot serve are
/// never selectable.
pub open spec fn child_matchable(c: Contents, seg: Seq<char>) -> bool {
    match c {
        Contents::File(f) => f.can_access && !f.is_frozen && f.name@ == seg,
        Contents::Folder(f) => f.name@ == seg,
    }
}

/// The result entry a matched child yields when it completes the path:
/// a file as it is, a folder with its children filtered.
pub open spec fn walk_found(orig: Seq<char>, cur: Seq<char>, child: Contents, c: Contents)
    -> bool {
    match child {
        Contents::File(f) => c == child && f.can_access && !f.is_frozen && orig == cur + "/"@
            + f.name@,
        Contents::Folder(f) => (contents_model(c) == ContentsModel::Folder(
            FolderModel {
                children: filter_children_spec(children_model(f.children@)),
                ..crate::model::folder_model(f)
            },
        )) && orig == cur + "/"@ + f.name@,
    }
}

/// Feeds one fetched listing into the search.
///
/// At the searched path itself (the cache hit equalled the whole input)
/// the entry is the answer: a folder's child folders enter the cache and
/// its children are filtered. One step earlier in the walk, the next
/// segment picks a child: completing the path returns it, a folder
/// descends, anything else means the path does not exist; a remote
/// `NotFound` mid-walk also means that, while other errors surface.
///
/// Every folder child of a fetched listing enters the cache at its
/// absolute path `current/name`, bound to its code (with several
/// children of one name, the last). After any step that found a folder,
/// the searched path itself is in the cache: a later search for it
/// begins at the path itself.
pub fn search_step(
    st: SearchState,
    fetched: Result<Contents, GofileError>,
    cache: &mut DirCache<String>,
) -> (r: SearchStep)
    requires
        is_chop_prefix(st.orig_path@, st.current_path@),
        old(cache)@.contains_key(st.current_path@),
    ensures
        forall|k: Seq<char>| old(cache)@.contains_key(k) ==> final(cache)@.contains_key(k),
        match fetched {
            Ok(c0) => match c0 {
                Contents::Folder(f) => {
                    &&& forall|i: int|
                        0 <= i < f.children@.len() && is_folder_entry(#[trigger] f.children@[i].1)
                            ==> final(cache)@.contains_key(
                            st.current_path@ + "/"@ + folder_name_of(f.children@[i].1),
                        )
                    &&& forall|i: int|
                        0 <= i < f.children@.len() && is_folder_entry(#[trigger] f.children@[i].1)
                            && (forall|j: int|
                            i < j < f.children@.len() ==> !(is_folder_entry(
                                #[trigger] f.children@[j].1,
                            ) && folder_name_of(f.children@[j].1) == folder_name_of(
                                f.children@[i].1,
                            ))) ==> final(cache)@[st.current_path@ + "/"@ + folder_name_of(
                            f.children@[i].1,
                        )] == folder_code_of(f.children@[i].1)
                },
                Contents::File(_) => true,
            },
            Err(_) => true,
        },
        match r {
            SearchStep::Fail(e) => (fetched matches Err(e0) && e == e0 && (st.current_path@
                == st.orig_path@ || !(e0@ is NotFound))),
            SearchStep::Missing => st.current_path@ != st.orig_path@ && match fetched {
                Err(e0) => e0@ is NotFound,
                Ok(c0) => match c0 {
                    Contents::File(_) => true,
                    Contents::Folder(f) => exists|e: int|
                        #![trigger is_seg_boundary(st.orig_path@, st.current_path@.len() as int, e)]
                        is_seg_boundary(st.orig_path@, st.current_path@.len() as int, e) && ({
                            let seg = st.orig_path@.subrange(
                                st.current_path@.len() as int + 1,
                                e,
                            );
                            ||| (forall|k: int|
                                0 <= k < f.children@.len() ==> !child_matchable(
                                    (#[trigger] f.children@[k]).1,
                                    seg,
                                ))
                            ||| (e < st.orig_path@.len() && exists|k: int|
                                0 <= k < f.children@.len() && (#[trigger] f.children@[k]).1
                                    is File && child_matchable(f.children@[k].1, seg))
                        }),
                },
            },
            SearchStep::Found(c) => ({
                &&& fetched is Ok
                &&& (c is Folder ==> final(cache)@.contains_key(st.orig_path@))
                &&& (match contents_model(c) {
                    ContentsModel::Folder(fm) => forall|i: int|
                        0 <= i < fm.children.len() ==> match (#[trigger] fm.children[i]).1 {
                            ContentsModel::File(f) => f.can_access && !f.is_frozen,
                            ContentsModel::Folder(_) => true,
                        },
                    ContentsModel::File(_) => true,
                })
                &&& (st.current_path@ == st.orig_path@ ==> match fetched {
                    Ok(c0) => match c0 {
                        Contents::File(_) => c == c0,
                        Contents::Folder(f) => contents_model(c) == ContentsModel::Folder(
                            FolderModel {
                                children: filter_children_spec(children_model(f.children@)),
                                ..crate::model::folder_model(f)
                            },
                        ),
                    },
                    Err(_) => false,
                })
                &&& (st.current_path@ != st.orig_path@ ==> match fetched {
                    Ok(c0) => match c0 {
                        Contents::Folder(f) => exists|k: int|
                            0 <= k < f.children@.len() && walk_found(
                                st.orig_path@,
                                st.current_path@,
                                (#[trigger] f.children@[k]).1,
                                c,
                            ),
                        Contents::File(_) => false,
                    },
                    Err(_) => false,
                })
            }),
            SearchStep::Descend(st2) => ({
                &&& st.current_path@ != st.orig_path@
                &&& st2.orig_path@ == st.orig_path@
                &&& is_chop_prefix(st.orig_path@, st2.current_path@)
                &&& st2.current_path@.len() > st.current_path@.len()
                &&& final(cache)@.contains_key(st2.current_path@)
                &&& final(cache)@[st2.current_path@]@ == st2.current_id@
                &&& match fetched {
                    Ok(c0) => match c0 {
                        Contents::Folder(f) => exists|kk: int|
                            0 <= kk < f.children@.len() && match (#[trigger] f.children@[kk]).1 {
                                Contents::Folder(cf2) => st2.current_path@ == st.current_path@
                                    + "/"@ + cf2.name@ && st2.current_id == cf2.code,
                                Contents::File(_) => false,
                            },
                        Contents::File(_) => false,
                    },
                    Err(_) => false,
                }
            }),
        },
{
    let leaf = str_eq(st.orig_path.as_str(), st.current_path.as_str());
    let contents = match fetched {
        Err(e) => {
            if leaf {
                return SearchStep::Fail(e);
            }
            return match e {
                GofileError::NotFound => SearchStep::Missing,
                other => SearchStep::Fail(other),
            };
        },
        Ok(c) => c,
    };
    if leaf {
        match contents {
            Contents::File(f) => SearchStep::Found(Contents::File(f)),
            Contents::Folder(folder) => {
                let FolderEntry {
                    can_access,
                    id,
                    name,
                    create_time,
                    mod_time,
                    password,
                    total_size,
                    code,
                    public,
                    parent_folder,
                    is_owner,
                    children,
                } = folder;
                insert_folder_children(cache, st.current_path.as_str(), &children);
                let filtered = filter_children(children);
                proof {
                    lemma_filter_children_no_bad(children_model(children@));
                }
                SearchStep::Found(
                    Contents::Folder(
                        FolderEntry {
                            can_access,
                            id,
                            name,
                            create_time,
                            mod_time,
                            password,
                            total_size,
                            code,
                            public,
                            parent_folder,
                            is_owner,
                            children: filtered,
                        },
                    ),
                )
            },
        }
    } else {
        let folder = match contents {
            Contents::File(_) => {
                return SearchStep::Missing;
            },
            Contents::Folder(folder) => folder,
        };
        insert_folder_children(cache, st.current_path.as_str(), &folder.children);
        let cplen = st.current_path.as_str().unicode_len();
        let olen = st.orig_path.as_str().unicode_len();
        proof {
            assert(cplen < olen && st.orig_path@[cplen as int] == '/');
        }
        let segend = match find_char_from(st.orig_path.as_str(), '/', cplen + 1) {
            Some(i) => i,
            None => olen,
        };
        let segment = substr_copy(st.orig_path.as_str(), cplen + 1, segend);
        let n = folder.children.len();
        let mut i: usize = 0;
        let mut found: Option<usize> = None;
        while i < n
            invariant
                n == folder.children@.len(),
                i <= n,
                segment@ == st.orig_path@.subrange(cplen + 1, segend as int),
                match found {
                    Some(k) => k < i && child_matchable(folder.children@[k as int].1, segment@)
                        && forall|j: int|
                        k < j < i ==> !child_matchable(
                            (#[trigger] folder.children@[j]).1,
                            segment@,
                        ),
                    None => forall|j: int|
                        0 <= j < i ==> !child_matchable(
                            (#[trigger] folder.children@[j]).1,
                            segment@,
                        ),
                },
            decreases n - i,
        {
            let child = &folder.children[i].1;
            let usable = match child {
                Contents::File(f) => f.can_access && !f.is_frozen,
                Contents::Folder(_) => true,
            };
            if usable {
                if str_eq(child.name(), segment.as_str()) {
                    found = Some(i);
                }
            }
            i = i + 1;
        }
        let k = match found {
            None => {
                proof {
                    assert(is_seg_boundary(st.orig_path@, cplen as int, segend as int));
                    assert forall|k2: int| 0 <= k2 < folder.children@.len() implies !child_matchable(
                        (#[trigger] folder.children@[k2]).1,
                        st.orig_path@.subrange(cplen + 1, segend as int),
                    ) by {
                        assert(!child_matchable(folder.children@[k2].1, segment@));
                    }
                }
                return SearchStep::Missing;
            },
            Some(k) => k,
        };
        let ghost kids0 = folder.children@;
        let mut children = folder.children;
        let pair = children.remove(k);
        let child = pair.1;
        proof {
            assert(pair == kids0[k as int]);
        }
        let complete = segend == olen;
        proof {
            assert(st.current_path@ == st.orig_path@.subrange(0, cplen as int));
            if complete {
                assert(st.orig_path@ =~= st.current_path@ + "/"@ + segment@) by {
                    reveal_strlit("/");
                }
            } else {
                assert(st.orig_path@[segend as int] == '/');
                assert((st.current_path@ + "/"@ + segment@).len() == segend) by {
                    reveal_strlit("/");
                }
                assert(st.orig_path@ != st.current_path@ + "/"@ + segment@);
            }
        }
        if complete {
            match child {
                Contents::File(f) => {
                    let c = Contents::File(f);
                    proof {
                        assert(walk_found(st.orig_path@, st.current_path@, kids0[k as int].1, c));
                    }
                    SearchStep::Found(c)
                },
                Contents::Folder(cf) => {
                    let ghost cf0 = cf;
                    let FolderEntry {
                        can_access,
                        id,
                        name,
                        create_time,
                        mod_time,
                        password,
                        total_size,
                        code,
                        public,
                        parent_folder,
                        is_owner,
                        children: cfchildren,
                    } = cf;
                    let filtered = filter_children(cfchildren);
                    proof {
                        lemma_filter_children_no_bad(children_model(cf0.children@));
                    }
                    let c = Contents::Folder(
                        FolderEntry {
                            can_access,
                            id,
                            name,
                            create_time,
                            mod_time,
                            password,
                            total_size,
                            code,
                            public,
                            parent_folder,
                            is_owner,
                            children: filtered,
                        },
                    );
                    proof {
                        assert(walk_found(st.orig_path@, st.current_path@, kids0[k as int].1, c));
                        assert(is_folder_entry(kids0[k as int].1));
                        assert(cache@.contains_key(st.current_path@ + "/"@ + folder_name_of(
                            kids0[k as int].1,
                        )));
                        assert(cache@.contains_key(st.orig_path@));
                    }
                    SearchStep::Found(c)
                },
            }
        } else {
            match child {
                Contents::File(_) => {
                    proof {
                        assert(is_seg_boundary(st.orig_path@, cplen as int, segend as int));
                        assert(kids0[k as int].1 is File);
                        assert(child_matchable(
                            kids0[k as int].1,
                            st.orig_path@.subrange(cplen + 1, segend as int),
                        ));
                    }
                    SearchStep::Missing
                },
                Contents::Folder(cf) => {
                    let new_path = concat3(st.current_path.as_str(), "/", cf.name.as_str());
                    proof {
                        reveal_strlit("/");
                        assert(cf.name@ == segment@);
                        assert(new_path@ == st.current_path@ + "/"@ + cf.name@);
                        assert(new_path@ =~= st.orig_path@.subrange(0, segend as int));
                        assert(is_chop_prefix(st.orig_path@, new_path@));
                        assert(is_folder_entry(kids0[k as int].1));
                        assert forall|j: int|
                            k < j < kids0.len() implies !(is_folder_entry(
                            (#[trigger] kids0[j]).1,
                        ) && folder_name_of(kids0[j].1) == folder_name_of(kids0[k as int].1)) by {
                            if is_folder_entry(kids0[j].1) && folder_name_of(kids0[j].1)
                                == folder_name_of(kids0[k as int].1) {
                                assert(child_matchable(kids0[j].1, segment@));
                            }
                        }
                        assert(cache@[st.current_path@ + "/"@ + folder_name_of(kids0[k as int].1)]
                            == folder_code_of(kids0[k as int].1));
                        assert(cache@.contains_key(new_path@));
                        assert(cache@[new_path@] == cf.code);
                    }
                    let st2 = SearchState {
                        orig_path: st.orig_path,
                        current_path: new_path,
                        current_id: cf.code,
                    };
                    proof {
                        assert(kids0[k as int].1 == Contents::Folder(cf));
                        assert(match kids0[k as int].1 {
                            Contents::Folder(cf2) => st2.current_path@ == st.current_path@ + "/"@
                                + cf2.name@ && st2.current_id == cf2.code,
                            Contents::File(_) => false,
                        });
                    }
                    SearchStep::Descend(st2)
                },
            }
        }
    }
}

} // verus!
