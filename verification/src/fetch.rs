//! The pure halves of the content-fetching operations: assembling a
//! folder listing out of a possibly gated reply, the bypass side-channel
//! (proxy-link rewrite and its retry gamble), and the sibling pick for
//! single-file bypass lookups. The caller performs the HTTP requests and
//! feeds the replies in.

use vstd::prelude::*;
use crate::envelope::{parse_document, parse_envelope_spec, resp_to_result_spec, DecodeFault};
use crate::error::{ErrModel, GofileError};
use crate::json::{jarr_view, jobj_view, jval_of, lemma_jobj_view, obj_lookup, JVal, Json};
use crate::jsontext::json_doc_of;
use crate::model::{
    as_str_val, as_u64_val, children_model, contents_model, cwp_children_model, folder_model,
    lemma_children_model, str_seq_model, Contents, ContentsModel, ContentsOk, ContentsOkModel,
    ContentsRestricted, ContentsWithPassword, CwpModel, FileModel, FolderEntry, FolderEntryOk,
    FolderModel, FolderOkModel, PasswordStatus, RestrictedModel,
};
use crate::strutil::str_eq;
use crate::webtext::host_of;

verus! {

// ---------------------------------------------------------------------------
// Bypass file lists
// ---------------------------------------------------------------------------

/// One entry of a bypass reply: a file name, its size, the remote link
/// it mirrors, and the proxy link that serves the bytes.
pub struct BypassFile {
    pub name: String,
    pub size: u64,
    pub link: String,
    pub proxy_link: String,
}

/// Ghost model of a bypass entry.
pub struct BypassFileModel {
    pub name: Seq<char>,
    pub size: u64,
    pub link: Seq<char>,
    pub proxy_link: Seq<char>,
}

impl View for BypassFile {
    type V = BypassFileModel;

    open spec fn view(&self) -> BypassFileModel {
        BypassFileModel {
            name: self.name@,
            size: self.size,
            link: self.link@,
            proxy_link: self.proxy_link@,
        }
    }
}

/// Ghost model of a bypass entry list.
pub open spec fn bypass_files_model(v: Seq<BypassFile>) -> Seq<BypassFileModel> {
    v.map_values(|f: BypassFile| f@)
}

/// How one bypass entry decodes from an object's members.
pub open spec fn parse_bypass_file_spec(em: Seq<(Seq<char>, JVal)>) -> Result<
    BypassFileModel,
    DecodeFault,
> {
    let name = as_str_val(obj_lookup(em, "name"@));
    let size = as_u64_val(obj_lookup(em, "size"@));
    let link = as_str_val(obj_lookup(em, "link"@));
    let proxy_link = as_str_val(obj_lookup(em, "proxyLink"@));
    if name is Some && size is Some && link is Some && proxy_link is Some {
        Ok(
            BypassFileModel {
                name: name->0,
                size: size->0,
                link: link->0,
                proxy_link: proxy_link->0,
            },
        )
    } else {
        Err(DecodeFault::BadPayload)
    }
}

/// How a bypass entry list decodes, item by item.
pub open spec fn parse_bypass_items_spec(items: Seq<JVal>) -> Result<
    Seq<BypassFileModel>,
    DecodeFault,
>
    decreases items.len(),
{
    if items.len() == 0 {
        Ok(Seq::empty())
    } else {
        match items[0] {
            JVal::Obj(em) => match parse_bypass_file_spec(em) {
                Err(e) => Err(e),
                Ok(h) => match parse_bypass_items_spec(items.drop_first()) {
                    Err(e) => Err(e),
                    Ok(rest) => Ok(seq![h] + rest),
                },
            },
            _ => Err(DecodeFault::BadPayload),
        }
    }
}

/// How a bypass reply's `data` member decodes: an array of entries.
pub open spec fn parse_bypass_files_spec(data: JVal) -> Result<Seq<BypassFileModel>, DecodeFault> {
    match data {
        JVal::Arr(items) => parse_bypass_items_spec(items),
        _ => Err(DecodeFault::BadPayload),
    }
}

fn parse_bypass_file(entries: &Vec<(String, Json)>) -> (r: Result<BypassFile, DecodeFault>)
    ensures
        match r {
            Ok(f) => parse_bypass_file_spec(jobj_view(entries@)) == Ok::<
                BypassFileModel,
                DecodeFault,
            >(f@),
            Err(e) => parse_bypass_file_spec(jobj_view(entries@)) == Err::<
                BypassFileModel,
                DecodeFault,
            >(e),
        },
{
    let name = crate::model::field_str(entries, "name");
    let size = crate::model::field_u64(entries, "size");
    let link = crate::model::field_str(entries, "link");
    let proxy_link = crate::model::field_str(entries, "proxyLink");
    match (name, size, link, proxy_link) {
        (Some(name), Some(size), Some(link), Some(proxy_link)) => Ok(
            BypassFile { name, size, link, proxy_link },
        ),
        _ => Err(DecodeFault::BadPayload),
    }
}

fn parse_bypass_items(items: &Vec<Json>, from: usize) -> (r: Result<Vec<BypassFile>, DecodeFault>)
    requires
        from <= items@.len(),
    ensures
        match r {
            Ok(v) => parse_bypass_items_spec(
                jarr_view(items@).subrange(from as int, items@.len() as int),
            ) == Ok::<Seq<BypassFileModel>, DecodeFault>(bypass_files_model(v@)),
            Err(e) => parse_bypass_items_spec(
                jarr_view(items@).subrange(from as int, items@.len() as int),
            ) == Err::<Seq<BypassFileModel>, DecodeFault>(e),
        },
    decreases items@.len() - from,
{
    let n = items.len();
    proof {
        crate::json::lemma_jarr_view(items@);
    }
    let ghost ss = jarr_view(items@).subrange(from as int, items@.len() as int);
    if from == n {
        proof {
            assert(ss =~= Seq::<JVal>::empty());
            assert(bypass_files_model(Seq::<BypassFile>::empty()) =~= Seq::<
                BypassFileModel,
            >::empty());
        }
        let out: Vec<BypassFile> = Vec::new();
        proof {
            assert(out@ =~= Seq::<BypassFile>::empty());
        }
        return Ok(out);
    }
    proof {
        assert(ss[0] == jval_of(items@[from as int]));
        assert(ss.drop_first() =~= jarr_view(items@).subrange(from + 1, items@.len() as int));
    }
    let head = match &items[from] {
        Json::Obj(entries) => match parse_bypass_file(entries) {
            Ok(f) => f,
            Err(e) => {
                return Err(e);
            },
        },
        _ => {
            proof {
                assert(!(jval_of(items@[from as int]) is Obj));
            }
            return Err(DecodeFault::BadPayload);
        },
    };
    let rest = match parse_bypass_items(items, from + 1) {
        Ok(v) => v,
        Err(e) => {
            return Err(e);
        },
    };
    let ghost rest0 = rest@;
    let mut out = rest;
    out.insert(0, head);
    proof {
        assert(out@.drop_first() =~= rest0);
        assert(bypass_files_model(out@) =~= seq![out@[0]@] + bypass_files_model(rest0));
    }
    Ok(out)
}

/// Decodes a bypass reply's `data` payload.
pub fn parse_bypass_files(data: &Json) -> (r: Result<Vec<BypassFile>, DecodeFault>)
    ensures
        match r {
            Ok(v) => parse_bypass_files_spec(data@) == Ok::<Seq<BypassFileModel>, DecodeFault>(
                bypass_files_model(v@),
            ),
            Err(e) => parse_bypass_files_spec(data@) == Err::<Seq<BypassFileModel>, DecodeFault>(
                e,
            ),
        },
{
    match data {
        Json::Arr(items) => {
            proof {
                crate::json::lemma_jarr_view(items@);
                assert(jarr_view(items@).subrange(0, items@.len() as int) =~= jarr_view(
                    items@,
                ));
            }
            parse_bypass_items(items, 0)
        },
        _ => Err(DecodeFault::BadPayload),
    }
}

// ---------------------------------------------------------------------------
// The bypass retry gamble
// ---------------------------------------------------------------------------

/// The single host name whose proxy links are known broken.
pub open spec fn is_broken_host(link: Seq<char>) -> bool {
    host_of(link) == Some("gf.cybar.xyz"@)
}

/// Ghost classification of one bypass request attempt.
pub enum AttemptModel {
    /// The reply is usable.
    Accept(Seq<BypassFileModel>),
    /// The first entry's proxy host is on the broken list: try again.
    Retry,
    /// The attempt fails the whole operation.
    Fail(ErrModel),
}

/// How one attempt at the bypass endpoint classifies: HTTP 502 is
/// `NotFound`; an undecodable body or reply is a transport error; an
/// error status is its error; a list whose first entry points at a
/// broken proxy host asks for a retry; anything else is accepted.
pub open spec fn bypass_attempt_spec(status: u16, doc: Option<JVal>) -> AttemptModel {
    if status == 502 {
        AttemptModel::Fail(ErrModel::NotFound)
    } else {
        match doc {
            None => AttemptModel::Fail(ErrModel::Http("failed to decode the reply body"@)),
            Some(d) => match parse_envelope_spec(d) {
                Err(_) => AttemptModel::Fail(
                    ErrModel::Http("failed to decode the reply body"@),
                ),
                Ok(m) => match resp_to_result_spec(m) {
                    Err(e) => AttemptModel::Fail(e),
                    Ok(data) => match parse_bypass_files_spec(data) {
                        Err(_) => AttemptModel::Fail(
                            ErrModel::Http("failed to decode the reply body"@),
                        ),
                        Ok(files) => if files.len() > 0 && is_broken_host(
                            files[0].proxy_link,
                        ) {
                            AttemptModel::Retry
                        } else {
                            AttemptModel::Accept(files)
                        },
                    },
                },
            },
        }
    }
}

/// Classifies one reply of the bypass endpoint.
pub fn bypass_attempt(status: u16, body: &str) -> (r: Result<Option<Vec<BypassFile>>, GofileError>)
    ensures
        match r {
            Ok(of) => match of {
                Some(files) => bypass_attempt_spec(status, json_doc_of(body@))
                    == AttemptModel::Accept(bypass_files_model(files@)),
                None => bypass_attempt_spec(status, json_doc_of(body@)) == AttemptModel::Retry,
            },
            Err(e) => bypass_attempt_spec(status, json_doc_of(body@)) == AttemptModel::Fail(e@),
        },
{
    if status == 502 {
        return Err(GofileError::NotFound);
    }
    let resp = match parse_document(body) {
        Ok(resp) => resp,
        Err(_) => {
            return Err(
                GofileError::Http { message: "failed to decode the reply body".to_owned() },
            );
        },
    };
    let data = match resp.into_result() {
        Ok(d) => d,
        Err(e) => {
            return Err(e);
        },
    };
    let files = match parse_bypass_files(&data) {
        Ok(fs) => fs,
        Err(_) => {
            return Err(
                GofileError::Http { message: "failed to decode the reply body".to_owned() },
            );
        },
    };
    if files.len() > 0 {
        let broken = match crate::webtext::url_host(files[0].proxy_link.as_str()) {
            Some(h) => str_eq(h.as_str(), "gf.cybar.xyz"),
            None => false,
        };
        if broken {
            return Ok(None);
        }
    }
    Ok(Some(files))
}

/// The attempt budget of the bypass gamble.
pub struct BypassGamble {
    pub attempts_left: u32,
}

/// The number of attempts the gamble makes before giving up.
pub open spec fn bypass_max_retries() -> u32 {
    10
}

/// A fresh gamble with the full budget of ten attempts.
pub fn bypass_gamble_new() -> (r: BypassGamble)
    ensures
        r.attempts_left == bypass_max_retries(),
{
    BypassGamble { attempts_left: 10 }
}

/// Feeds one reply into the gamble. `None` asks the caller to request
/// again; `Some` is the final outcome. A retry verdict on the last
/// remaining attempt yields the max-retries error.
pub fn bypass_gamble_step(
    st: &mut BypassGamble,
    status: u16,
    body: &str,
    folder_code: &str,
) -> (r: Option<Result<Vec<BypassFile>, GofileError>>)
    requires
        old(st).attempts_left >= 1,
    ensures
        match bypass_attempt_spec(status, json_doc_of(body@)) {
            AttemptModel::Accept(fm) => (r matches Some(Ok(files)) && bypass_files_model(files@)
                == fm),
            AttemptModel::Fail(em) => (r matches Some(Err(e)) && e@ == em),
            AttemptModel::Retry => if old(st).attempts_left > 1 {
                r is None && final(st).attempts_left == old(st).attempts_left - 1
            } else {
                (r matches Some(Err(e)) && e@ == ErrModel::Unexpected(
                    "Max retries reached while fetching bypass files for folder "@
                        + folder_code@,
                ))
            },
        },
{
    match bypass_attempt(status, body) {
        Err(e) => Some(Err(e)),
        Ok(Some(files)) => Some(Ok(files)),
        Ok(None) => {
            if st.attempts_left > 1 {
                st.attempts_left = st.attempts_left - 1;
                None
            } else {
                let message = crate::strutil::concat2(
                    "Max retries reached while fetching bypass files for folder ",
                    folder_code,
                );
                Some(Err(GofileError::Unexpected { message }))
            }
        },
    }
}

/// The outcome of running the gamble against a stream of attempt
/// classifications under a budget.
pub enum GambleModel {
    /// Some attempt within the budget was accepted, after the given
    /// number of requests.
    Accepted(Seq<BypassFileModel>, int),
    /// Some attempt within the budget failed, after the given number of
    /// requests.
    Failed(ErrModel, int),
    /// Every attempt the budget allowed asked for a retry.
    Exhausted,
}

/// Runs the gamble in the ghost world.
pub open spec fn gamble_outcome(cls: Seq<AttemptModel>, budget: nat) -> GambleModel
    decreases budget,
{
    if budget == 0 || cls.len() == 0 {
        GambleModel::Exhausted
    } else {
        match cls[0] {
            AttemptModel::Accept(f) => GambleModel::Accepted(f, 1),
            AttemptModel::Fail(e) => GambleModel::Failed(e, 1),
            AttemptModel::Retry => match gamble_outcome(
                cls.drop_first(),
                (budget - 1) as nat,
            ) {
                GambleModel::Accepted(f, n) => GambleModel::Accepted(f, n + 1),
                GambleModel::Failed(e, n) => GambleModel::Failed(e, n + 1),
                GambleModel::Exhausted => GambleModel::Exhausted,
            },
        }
    }
}

/// Retry exhaustion: an endpoint whose every reply asks for a retry
/// exhausts the whole budget of ten attempts, and the gamble then fails
/// with the max-retries error (see [`bypass_gamble_step`]).
pub proof fn lemma_bypass_retry_exhaustion(cls: Seq<AttemptModel>)
    requires
        cls.len() >= bypass_max_retries(),
        forall|i: int| 0 <= i < bypass_max_retries() ==> cls[i] == AttemptModel::Retry,
    ensures
        gamble_outcome(cls, bypass_max_retries() as nat) == GambleModel::Exhausted,
{
    lemma_gamble_all_retries(cls, bypass_max_retries() as nat);
}

proof fn lemma_gamble_all_retries(cls: Seq<AttemptModel>, budget: nat)
    requires
        cls.len() >= budget,
        forall|i: int| 0 <= i < budget ==> cls[i] == AttemptModel::Retry,
    ensures
        gamble_outcome(cls, budget) == GambleModel::Exhausted,
    decreases budget,
{
    if budget > 0 {
        assert(cls[0] == AttemptModel::Retry);
        assert(forall|i: int|
            0 <= i < budget - 1 ==> #[trigger] cls.drop_first()[i] == cls[i + 1]);
        lemma_gamble_all_retries(cls.drop_first(), (budget - 1) as nat);
    }
}

// ---------------------------------------------------------------------------
// Assembling a folder listing
// ---------------------------------------------------------------------------

/// The password error a restricted reply denotes.
pub open spec fn restricted_err_model(m: RestrictedModel) -> ErrModel {
    let status = match m {
        RestrictedModel::File(f) => f.password_status,
        RestrictedModel::Folder(f) => f.password_status,
    };
    match status {
        PasswordStatus::PasswordRequired => ErrModel::PasswordRequired,
        PasswordStatus::PasswordWrong => ErrModel::PasswordWrong,
    }
}

/// A gated folder's model with its children dropped.
pub open spec fn folder_ok_to_empty_model(fm: FolderOkModel) -> FolderModel {
    FolderModel {
        can_access: fm.can_access,
        id: fm.id,
        name: fm.name,
        create_time: fm.create_time,
        mod_time: fm.mod_time,
        password: fm.password,
        total_size: fm.total_size,
        code: fm.code,
        public: fm.public,
        parent_folder: fm.parent_folder,
        is_owner: fm.is_owner,
        children: Seq::empty(),
    }
}

/// Splits a gated child list: accessible children become plain entries
/// (child folders flattened to empty), restricted folders are queued for
/// an individual re-fetch, restricted files are dropped.
pub open spec fn partition_children(cs: Seq<(Seq<char>, CwpModel)>) -> (
    Seq<(Seq<char>, ContentsModel)>,
    Seq<Seq<char>>,
)
    decreases cs.len(),
{
    if cs.len() == 0 {
        (Seq::empty(), Seq::empty())
    } else {
        let rest = partition_children(cs.drop_first());
        match cs[0].1 {
            CwpModel::Accessible(ContentsOkModel::File(fm)) => (
                seq![(cs[0].0, ContentsModel::File(fm))] + rest.0,
                rest.1,
            ),
            CwpModel::Accessible(ContentsOkModel::Folder(fm)) => (
                seq![(cs[0].0, ContentsModel::Folder(folder_ok_to_empty_model(fm)))] + rest.0,
                rest.1,
            ),
            CwpModel::Restricted(RestrictedModel::Folder(fr)) => (
                rest.0,
                seq![fr.id] + rest.1,
            ),
            CwpModel::Restricted(RestrictedModel::File(_)) => rest,
        }
    }
}

fn partition_exec(children: Vec<(String, ContentsWithPassword)>) -> (r: (
    Vec<(String, Contents)>,
    Vec<String>,
))
    ensures
        children_model(r.0@) == partition_children(cwp_children_model(children@)).0,
        str_seq_model(r.1@) == partition_children(cwp_children_model(children@)).1,
    decreases children@.len(),
{
    let ghost orig = children@;
    let mut children = children;
    if children.len() == 0 {
        let r: (Vec<(String, Contents)>, Vec<String>) = (Vec::new(), Vec::new());
        proof {
            assert(cwp_children_model(orig).len() == 0) by {
                crate::model::lemma_cwp_children_model(orig);
            }
            assert(children_model(r.0@) =~= partition_children(cwp_children_model(orig)).0);
            assert(str_seq_model(r.1@) =~= partition_children(cwp_children_model(orig)).1);
        }
        return r;
    }
    let pair = children.remove(0);
    proof {
        assert(children@ =~= orig.drop_first());
        assert(cwp_children_model(orig) == seq![(orig[0].0@, crate::model::cwp_model(orig[0].1))]
            + cwp_children_model(orig.drop_first()));
        assert(cwp_children_model(orig)[0] == (pair.0@, crate::model::cwp_model(pair.1)));
        assert(cwp_children_model(orig).drop_first() =~= cwp_children_model(orig.drop_first()));
    }
    let (key, child) = pair;
    let (rest_c, rest_p) = partition_exec(children);
    match child {
        ContentsWithPassword::Accessible(ContentsOk::File(fe)) => {
            let ghost rest0 = rest_c@;
            let mut out = rest_c;
            out.insert(0, (key, Contents::File(fe)));
            proof {
                assert(out@.drop_first() =~= rest0);
                assert(children_model(out@) == seq![(out@[0].0@, contents_model(out@[0].1))]
                    + children_model(rest0));
            }
            (out, rest_p)
        },
        ContentsWithPassword::Accessible(ContentsOk::Folder(fok)) => {
            let ghost fokm = fok@;
            let entry = fok.into_folder_entry_empty();
            proof {
                assert(entry@ == folder_ok_to_empty_model(fokm));
            }
            let ghost rest0 = rest_c@;
            let mut out = rest_c;
            out.insert(0, (key, Contents::Folder(entry)));
            proof {
                assert(out@.drop_first() =~= rest0);
                assert(children_model(out@) == seq![(out@[0].0@, contents_model(out@[0].1))]
                    + children_model(rest0));
            }
            (out, rest_p)
        },
        ContentsWithPassword::Restricted(ContentsRestricted::Folder(fr)) => {
            let ghost rest0 = rest_p@;
            let mut out = rest_p;
            out.insert(0, fr.id);
            proof {
                assert(out@.drop_first() =~= rest0);
                assert(str_seq_model(out@) =~= seq![out@[0]@] + str_seq_model(rest0));
            }
            (rest_c, out)
        },
        ContentsWithPassword::Restricted(ContentsRestricted::File(_)) => (rest_c, rest_p),
    }
}

/// A folder listing being assembled: the folder with the children kept
/// so far, and the restricted child folders still to be re-fetched.
pub struct ContentsAssembly {
    pub folder: FolderEntry,
    pub pending: Vec<String>,
}

/// The first step of assembling a reply.
pub enum AssembleBegin {
    /// The reply was a file: it is the result.
    Done(Contents),
    /// The reply was restricted: the matching password error.
    Fail(GofileError),
    /// The reply was a folder; re-fetch each pending id, feed the replies
    /// to [`assemble_child`], then take [`assemble_finish`].
    NeedChildren(ContentsAssembly),
}

/// Begins assembling a fetched reply into a content entry: a restricted
/// reply raises its password error, a file is returned as is, a folder
/// has its children split by [`partition_children`].
pub fn assemble_begin(cwp: ContentsWithPassword) -> (r: AssembleBegin)
    ensures
        match cwp@ {
            CwpModel::Restricted(m) => (r matches AssembleBegin::Fail(e) && e@
                == restricted_err_model(m)),
            CwpModel::Accessible(ContentsOkModel::File(fm)) => (r matches AssembleBegin::Done(c)
                && c@ == ContentsModel::File(fm)),
            CwpModel::Accessible(ContentsOkModel::Folder(fm)) => (r
                matches AssembleBegin::NeedChildren(acc) && acc.folder@ == FolderModel {
                children: partition_children(fm.children).0,
                ..folder_ok_to_empty_model(fm)
            } && str_seq_model(acc.pending@) == partition_children(fm.children).1),
        },
{
    match cwp {
        ContentsWithPassword::Restricted(restricted) => AssembleBegin::Fail(restricted.into_err()),
        ContentsWithPassword::Accessible(ContentsOk::File(fe)) => AssembleBegin::Done(
            Contents::File(fe),
        ),
        ContentsWithPassword::Accessible(ContentsOk::Folder(fok)) => {
            let ghost fokm = fok@;
            let FolderEntryOk {
                can_access,
                id,
                name,
                create_time,
                mod_time,
                password,
                total_size,
                code,
                public,
                parent_folder,
                is_owner,
                children,
            } = fok;
            let (new_children, pending) = partition_exec(children);
            let folder = FolderEntry {
                can_access,
                id,
                name,
                create_time,
                mod_time,
                password,
                total_size,
                code,
                public,
                parent_folder,
                is_owner,
                children: new_children,
            };
            AssembleBegin::NeedChildren(ContentsAssembly { folder, pending })
        },
    }
}

/// Appending one entry to a child list appends its model.
pub proof fn lemma_children_model_push(s: Seq<(String, Contents)>, p: (String, Contents))
    ensures
        children_model(s.push(p)) == children_model(s) + seq![(p.0@, contents_model(p.1))],
    decreases s.len(),
{
    if s.len() == 0 {
        assert(s.push(p)[0] == p);
        assert(s.push(p).drop_first() =~= Seq::<(String, Contents)>::empty());
        assert(children_model(s.push(p)) == seq![(p.0@, contents_model(p.1))] + children_model(
            s.push(p).drop_first(),
        ));
        assert(children_model(Seq::<(String, Contents)>::empty()) == Seq::<
            (Seq<char>, ContentsModel),
        >::empty());
        assert(children_model(s) == Seq::<(Seq<char>, ContentsModel)>::empty());
        assert(children_model(s.push(p)) =~= children_model(s) + seq![
            (p.0@, contents_model(p.1)),
        ]);
    } else {
        assert(s.push(p)[0] == s[0]);
        assert(s.push(p).drop_first() =~= s.drop_first().push(p));
        lemma_children_model_push(s.drop_first(), p);
        assert(children_model(s.push(p)) == seq![(s[0].0@, contents_model(s[0].1))]
            + children_model(s.push(p).drop_first()));
        assert(children_model(s.push(p).drop_first()) == children_model(s.drop_first()) + seq![
            (p.0@, contents_model(p.1)),
        ]);
        assert(children_model(s) == seq![(s[0].0@, contents_model(s[0].1))] + children_model(
            s.drop_first(),
        ));
        assert(children_model(s.push(p)) =~= children_model(s) + seq![
            (p.0@, contents_model(p.1)),
        ]);
    }
}

/// Feeds the re-fetched reply for a pending restricted child folder into
/// the assembly: a folder is appended to the children (flattened to
/// empty), a file is an internal fault, a still-restricted reply raises
/// that child's password error.
pub fn assemble_child(
    acc: &mut ContentsAssembly,
    folder_id: String,
    fetched: Result<ContentsWithPassword, GofileError>,
) -> (r: Result<(), GofileError>)
    ensures
        match fetched {
            Err(e) => r == Err::<(), GofileError>(e) && *final(acc) == *old(acc),
            Ok(cwp) => match cwp@ {
                CwpModel::Accessible(ContentsOkModel::File(fm)) => (r matches Err(e) && e@
                    == ErrModel::Unexpected("expected folder but got file "@ + fm.id))
                    && *final(acc) == *old(acc),
                CwpModel::Accessible(ContentsOkModel::Folder(fm)) => r == Ok::<(), GofileError>(
                    (),
                ) && final(acc).folder@ == FolderModel {
                    children: old(acc).folder@.children + seq![
                        (folder_id@, ContentsModel::Folder(folder_ok_to_empty_model(fm))),
                    ],
                    ..old(acc).folder@
                } && final(acc).pending == old(acc).pending,
                CwpModel::Restricted(m) => (r matches Err(e) && e@ == restricted_err_model(m))
                    && *final(acc) == *old(acc),
            },
        },
{
    let cwp = match fetched {
        Ok(cwp) => cwp,
        Err(e) => {
            return Err(e);
        },
    };
    match cwp {
        ContentsWithPassword::Restricted(restricted) => Err(restricted.into_err()),
        ContentsWithPassword::Accessible(ContentsOk::File(fe)) => {
            let message = crate::strutil::concat2("expected folder but got file ", fe.id.as_str());
            Err(GofileError::Unexpected { message })
        },
        ContentsWithPassword::Accessible(ContentsOk::Folder(fok)) => {
            let ghost fokm = fok@;
            let entry = fok.into_folder_entry_empty();
            proof {
                lemma_children_model_push(
                    acc.folder.children@,
                    (folder_id, Contents::Folder(entry)),
                );
            }
            acc.folder.children.push((folder_id, Contents::Folder(entry)));
            Ok(())
        },
    }
}

/// Closes the assembly: the folder with every child collected.
pub fn assemble_finish(acc: ContentsAssembly) -> (r: Contents)
    ensures
        r == Contents::Folder(acc.folder),
{
    Contents::Folder(acc.folder)
}

// ---------------------------------------------------------------------------
// The bypass side-channel
// ---------------------------------------------------------------------------

/// What to do about the bypass after fetching an entry.
pub enum BypassPlan {
    /// Return the entry as it is.
    Keep,
    /// Fetch the folder's bypass list and rewrite the children.
    FetchFolderBypass { code: String },
    /// A file: resolve its parent folder under the same rules and return
    /// the rewritten sibling with this id.
    ResolveParent { parent_id: String, file_id: String },
}

/// Ghost model of a bypass plan.
pub enum BypassPlanModel {
    Keep,
    FetchFolderBypass(Seq<char>),
    ResolveParent(Seq<char>, Seq<char>),
}

impl View for BypassPlan {
    type V = BypassPlanModel;

    open spec fn view(&self) -> BypassPlanModel {
        match *self {
            BypassPlan::Keep => BypassPlanModel::Keep,
            BypassPlan::FetchFolderBypass { code } => BypassPlanModel::FetchFolderBypass(code@),
            BypassPlan::ResolveParent { parent_id, file_id } => BypassPlanModel::ResolveParent(
                parent_id@,
                file_id@,
            ),
        }
    }
}

/// Does the child list hold at least one file?
pub open spec fn has_file_child(cs: Seq<(Seq<char>, ContentsModel)>) -> bool {
    exists|i: int| 0 <= i < cs.len() && (#[trigger] cs[i].1) is File
}

/// The bypass decision: never without the flag; never for a non-public
/// or password-gated folder, nor one without file children; a password-
/// free file goes through its parent folder.
pub open spec fn bypass_plan_spec(c: ContentsModel, use_bypass: bool) -> BypassPlanModel {
    if !use_bypass {
        BypassPlanModel::Keep
    } else {
        match c {
            ContentsModel::Folder(f) => if !f.public || f.password || !has_file_child(
                f.children,
            ) {
                BypassPlanModel::Keep
            } else {
                BypassPlanModel::FetchFolderBypass(f.code)
            },
            ContentsModel::File(f) => if f.password {
                BypassPlanModel::Keep
            } else {
                BypassPlanModel::ResolveParent(f.parent_folder, f.id)
            },
        }
    }
}

/// Decides the bypass plan for a fetched entry.
pub fn bypass_plan(contents: &Contents, use_bypass: bool) -> (r: BypassPlan)
    ensures
        r@ == bypass_plan_spec(contents@, use_bypass),
{
    if !use_bypass {
        return BypassPlan::Keep;
    }
    match contents {
        Contents::Folder(f) => {
            if !f.public || f.password {
                return BypassPlan::Keep;
            }
            let n = f.children.len();
            let mut i: usize = 0;
            proof {
                lemma_children_model(f.children@);
            }
            let mut found = false;
            while i < n
                invariant
                    n == f.children@.len(),
                    i <= n,
                    children_model(f.children@).len() == n,
                    forall|j: int|
                        0 <= j < n ==> #[trigger] children_model(f.children@)[j] == (
                        f.children@[j].0@,
                        contents_model(f.children@[j].1),
                        ),
                    found ==> has_file_child(children_model(f.children@)),
                    !found ==> forall|j: int|
                        0 <= j < i ==> !((#[trigger] children_model(f.children@)[j]).1 is File),
                decreases n - i,
            {
                match &f.children[i].1 {
                    Contents::File(_) => {
                        proof {
                            assert(children_model(f.children@)[i as int].1 is File);
                        }
                        found = true;
                    },
                    _ => {
                        proof {
                            assert(!(contents_model(f.children@[i as int].1) is File));
                        }
                    },
                }
                i = i + 1;
            }
            if !found {
                assert(!has_file_child(children_model(f.children@)));
                return BypassPlan::Keep;
            }
            BypassPlan::FetchFolderBypass { code: f.code.clone() }
        },
        Contents::File(f) => {
            if f.password {
                return BypassPlan::Keep;
            }
            BypassPlan::ResolveParent { parent_id: f.parent_folder.clone(), file_id: f.id.clone() }
        },
    }
}

/// One child under one bypass entry: a file whose object key occurs in
/// the entry's remote link takes the proxy link and is marked bypassed;
/// everything else is untouched.
pub open spec fn rewrite_one_spec(key: Seq<char>, c: ContentsModel, bf: BypassFileModel)
    -> ContentsModel {
    match c {
        ContentsModel::File(fm) => if crate::strutil::contains_sub(bf.link, key) {
            ContentsModel::File(
                FileModel {
                    can_access: fm.can_access,
                    id: fm.id,
                    name: fm.name,
                    create_time: fm.create_time,
                    mod_time: fm.mod_time,
                    size: fm.size,
                    md5: fm.md5,
                    link: bf.proxy_link,
                    servers: fm.servers,
                    parent_folder: fm.parent_folder,
                    password: fm.password,
                    is_frozen: fm.is_frozen,
                    mimetype: fm.mimetype,
                    bypassed: true,
                },
            )
        } else {
            c
        },
        _ => c,
    }
}

/// One pass of the rewrite: every child against one bypass entry.
pub open spec fn rewrite_pass_spec(cs: Seq<(Seq<char>, ContentsModel)>, bf: BypassFileModel)
    -> Seq<(Seq<char>, ContentsModel)> {
    Seq::new(cs.len(), |i: int| (cs[i].0, rewrite_one_spec(cs[i].0, cs[i].1, bf)))
}

/// The whole rewrite: the passes of all bypass entries in order, later
/// entries overriding earlier ones.
pub open spec fn rewrite_all_spec(
    cs: Seq<(Seq<char>, ContentsModel)>,
    bfs: Seq<BypassFileModel>,
) -> Seq<(Seq<char>, ContentsModel)>
    decreases bfs.len(),
{
    if bfs.len() == 0 {
        cs
    } else {
        rewrite_all_spec(rewrite_pass_spec(cs, bfs[0]), bfs.drop_first())
    }
}

proof fn lemma_rewrite_all_push(
    cs: Seq<(Seq<char>, ContentsModel)>,
    bfs: Seq<BypassFileModel>,
    bf: BypassFileModel,
)
    ensures
        rewrite_all_spec(cs, bfs.push(bf)) == rewrite_pass_spec(rewrite_all_spec(cs, bfs), bf),
    decreases bfs.len(),
{
    if bfs.len() == 0 {
        assert(bfs.push(bf)[0] == bf);
        assert(bfs.push(bf).drop_first() =~= Seq::<BypassFileModel>::empty());
        assert(rewrite_all_spec(cs, bfs.push(bf)) == rewrite_all_spec(
            rewrite_pass_spec(cs, bf),
            bfs.push(bf).drop_first(),
        ));
        assert(rewrite_all_spec(rewrite_pass_spec(cs, bf), Seq::<BypassFileModel>::empty())
            == rewrite_pass_spec(cs, bf));
        assert(rewrite_all_spec(cs, bfs) == cs);
    } else {
        assert(bfs.push(bf)[0] == bfs[0]);
        assert(bfs.push(bf).drop_first() =~= bfs.drop_first().push(bf));
        lemma_rewrite_all_push(rewrite_pass_spec(cs, bfs[0]), bfs.drop_first(), bf);
        assert(rewrite_all_spec(cs, bfs.push(bf)) == rewrite_all_spec(
            rewrite_pass_spec(cs, bfs[0]),
            bfs.drop_first().push(bf),
        ));
        assert(rewrite_all_spec(cs, bfs) == rewrite_all_spec(
            rewrite_pass_spec(cs, bfs[0]),
            bfs.drop_first(),
        ));
    }
}

fn rewrite_pass(children: Vec<(String, Contents)>, bf: &BypassFile) -> (r: Vec<(String, Contents)>)
    ensures
        children_model(r@) == rewrite_pass_spec(children_model(children@), bf@),
{
    let ghost orig = children@;
    proof {
        lemma_children_model(orig);
    }
    let mut rest = children;
    let mut out: Vec<(String, Contents)> = Vec::new();
    while rest.len() > 0
        invariant
            out@.len() + rest@.len() == orig.len(),
            forall|i: int| 0 <= i < rest@.len() ==> #[trigger] rest@[i] == orig[out@.len() + i],
            children_model(orig).len() == orig.len(),
            forall|j: int|
                0 <= j < orig.len() ==> #[trigger] children_model(orig)[j] == (
                orig[j].0@,
                contents_model(orig[j].1),
                ),
            children_model(out@).len() == out@.len(),
            forall|j: int|
                0 <= j < out@.len() ==> #[trigger] children_model(out@)[j]
                    == rewrite_pass_spec(children_model(orig), bf@)[j],
        decreases rest@.len(),
    {
        let ghost k = out@.len() as int;
        let (key, c) = rest.remove(0);
        proof {
            assert((key, c) == orig[k]);
        }
        let transformed = match c {
            Contents::File(fe) => {
                if crate::strutil::str_contains(bf.link.as_str(), key.as_str()) {
                    let mut fe = fe;
                    fe.link = bf.proxy_link.clone();
                    fe.bypassed = true;
                    Contents::File(fe)
                } else {
                    Contents::File(fe)
                }
            },
            other => other,
        };
        proof {
            assert(contents_model(transformed) == rewrite_one_spec(
                orig[k].0@,
                contents_model(orig[k].1),
                bf@,
            ));
        }
        let ghost out0 = out@;
        out.push((key, transformed));
        proof {
            lemma_children_model_push(out0, (key, transformed));
            lemma_children_model(out@);
        }
    }
    proof {
        assert(children_model(out@) =~= rewrite_pass_spec(children_model(orig), bf@));
    }
    out
}

/// Rewrites a folder's children against a bypass list: each entry whose
/// remote link carries a child file's key rewrites that child's link to
/// the proxy and marks it bypassed; no other child, and no other part of
/// the folder, is changed.
pub fn apply_bypass(folder: FolderEntry, bypass_files: &Vec<BypassFile>) -> (r: FolderEntry)
    ensures
        r@ == (FolderModel {
            children: rewrite_all_spec(
                folder@.children,
                bypass_files_model(bypass_files@),
            ),
            ..folder@
        }),
{
    let FolderEntry {
        can_access,
        id,
        name,
        create_time,
        mod_time,
        password,
        total_size,
        code,
        public,
        parent_folder,
        is_owner,
        children,
    } = folder;
    let ghost orig = children_model(children@);
    let mut cs = children;
    let n = bypass_files.len();
    let mut b: usize = 0;
    while b < n
        invariant
            n == bypass_files@.len(),
            b <= n,
            children_model(cs@) == rewrite_all_spec(
                orig,
                bypass_files_model(bypass_files@).take(b as int),
            ),
        decreases n - b,
    {
        let ghost prefix = bypass_files_model(bypass_files@).take(b as int);
        cs = rewrite_pass(cs, &bypass_files[b]);
        proof {
            lemma_rewrite_all_push(orig, prefix, bypass_files@[b as int]@);
            assert(prefix.push(bypass_files@[b as int]@) =~= bypass_files_model(
                bypass_files@,
            ).take(b + 1));
        }
        b = b + 1;
    }
    proof {
        assert(bypass_files_model(bypass_files@).take(n as int) =~= bypass_files_model(
            bypass_files@,
        ));
    }
    FolderEntry {
        can_access,
        id,
        name,
        create_time,
        mod_time,
        password,
        total_size,
        code,
        public,
        parent_folder,
        is_owner,
        children: cs,
    }
}

// ---------------------------------------------------------------------------
// Client string work
// ---------------------------------------------------------------------------

/// The marker the website token follows in the remote's script bundle.
pub open spec fn wt_marker() -> Seq<char> {
    "appdata.wt = \""@
}

/// `t` is the website token of `body`: the text after the first marker
/// occurrence, up to the next double quote (or the end of the body).
pub open spec fn wt_token_at(body: Seq<char>, i: int, t: Seq<char>) -> bool {
    &&& crate::strutil::match_at(body, wt_marker(), i)
    &&& (forall|k: int| 0 <= k < i ==> !crate::strutil::match_at(body, wt_marker(), k))
    &&& ({
        let start = i + wt_marker().len();
        ||| (exists|j: int|
            start <= j < body.len() && body[j] == '"' && (forall|k2: int|
                start <= k2 < j ==> body[k2] != '"') && t == body.subrange(start, j))
        ||| ((forall|j: int| start <= j < body.len() ==> body[j] != '"') && t == body.subrange(
            start,
            body.len() as int,
        ))
    })
}

/// Scrapes the website token out of the remote's script bundle: the
/// substring between the first `appdata.wt = "` and the next `"`.
/// `None` when the marker does not occur: the scrape failed.
pub fn wt_extract(body: &str) -> (r: Option<String>)
    ensures
        match r {
            Some(t) => exists|i: int| wt_token_at(body@, i, t@),
            None => !crate::strutil::contains_sub(body@, wt_marker()),
        },
{
    let marker = "appdata.wt = \"";
    proof {
        reveal_strlit("appdata.wt = \"");
        assert(marker@ =~= wt_marker()) by {
            reveal_strlit("appdata.wt = \"");
        }
    }
    match crate::strutil::find_sub(body, marker) {
        None => {
            proof {
                assert forall|k: int| !crate::strutil::match_at(body@, wt_marker(), k) by {
                    assert(!crate::strutil::match_at(body@, marker@, k));
                }
                assert(!crate::strutil::contains_sub(body@, wt_marker()));
            }
            None
        },
        Some(i) => {
            let ml = marker.unicode_len();
            let bl = body.unicode_len();
            let start = i + ml;
            let end = match crate::strutil::find_char_from(body, '"', start) {
                Some(j) => j,
                None => bl,
            };
            let token = crate::strutil::substr_copy(body, start, end);
            let res: Option<String> = Some(token);
            proof {
                assert(wt_token_at(body@, i as int, res->0@));
                assert(exists|ii: int| wt_token_at(body@, ii, res->0@));
            }
            res
        },
    }
}

/// Comma-joins a list of identifiers, as the batch-delete body expects.
pub open spec fn join_comma(ids: Seq<Seq<char>>) -> Seq<char>
    decreases ids.len(),
{
    if ids.len() == 0 {
        Seq::empty()
    } else if ids.len() == 1 {
        ids[0]
    } else {
        ids[0] + seq![','] + join_comma(ids.drop_first())
    }
}

proof fn lemma_join_push(s: Seq<Seq<char>>, x: Seq<char>)
    ensures
        join_comma(s.push(x)) == if s.len() == 0 {
            x
        } else {
            join_comma(s) + seq![','] + x
        },
    decreases s.len(),
{
    if s.len() == 0 {
        assert(s.push(x).len() == 1);
        assert(s.push(x)[0] == x);
    } else {
        assert(s.push(x)[0] == s[0]);
        assert(s.push(x).drop_first() =~= s.drop_first().push(x));
        lemma_join_push(s.drop_first(), x);
        assert(join_comma(s.push(x)) == s[0] + seq![','] + join_comma(s.drop_first().push(x)));
        if s.len() == 1 {
            assert(join_comma(s.drop_first().push(x)) == x);
            assert(join_comma(s) == s[0]);
        } else {
            assert(join_comma(s.drop_first().push(x)) == join_comma(s.drop_first()) + seq![',']
                + x);
            assert(join_comma(s) == s[0] + seq![','] + join_comma(s.drop_first()));
            assert(join_comma(s.push(x)) =~= join_comma(s) + seq![','] + x);
        }
    }
}

/// Joins content ids with commas for a batch delete.
pub fn join_ids(ids: &Vec<String>) -> (r: String)
    ensures
        r@ == join_comma(str_seq_model(ids@)),
{
    let n = ids.len();
    let mut out = String::new();
    proof {
        assert(str_seq_model(ids@).take(0) =~= Seq::<Seq<char>>::empty());
    }
    let mut i: usize = 0;
    while i < n
        invariant
            n == ids@.len(),
            i <= n,
            out@ == join_comma(str_seq_model(ids@).take(i as int)),
        decreases n - i,
    {
        if i == 0 {
            out = ids[0].clone();
        } else {
            out.append(",");
            out.append(ids[i].as_str());
        }
        proof {
            reveal_strlit(",");
            assert(","@ =~= seq![',']);
            lemma_join_push(str_seq_model(ids@).take(i as int), ids@[i as int]@);
            assert(str_seq_model(ids@).take(i as int).push(ids@[i as int]@) =~= str_seq_model(
                ids@,
            ).take(i + 1));
        }
        i = i + 1;
    }
    proof {
        assert(str_seq_model(ids@).take(n as int) =~= str_seq_model(ids@));
    }
    out
}

/// The identifier of a content entry's model.
pub open spec fn contents_id(c: ContentsModel) -> Seq<char> {
    match c {
        ContentsModel::File(f) => f.id,
        ContentsModel::Folder(f) => f.id,
    }
}

/// Picks, out of a resolved parent folder, the child carrying the given
/// file id; its absence is an internal fault.
pub fn pick_bypassed_sibling(parent: FolderEntry, file_id: &String) -> (r: Result<
    Contents,
    GofileError,
>)
    ensures
        ({
            let cs = folder_model(parent).children;
            match r {
                Ok(c) => exists|i: int|
                    0 <= i < cs.len() && c@ == (#[trigger] cs[i]).1 && contents_id(cs[i].1)
                        == file_id@ && forall|j: int|
                        0 <= j < i ==> contents_id(cs[j].1) != file_id@,
                Err(e) => (forall|i: int|
                    0 <= i < cs.len() ==> contents_id((#[trigger] cs[i]).1) != file_id@) && e@
                    == ErrModel::Unexpected(
                    "Expected file "@ + file_id@ + " to be found in parent folder "@
                        + parent@.id,
                ),
            }
        }),
{
    proof {
        lemma_children_model(parent.children@);
    }
    let n = parent.children.len();
    let mut i: usize = 0;
    let mut found: Option<usize> = None;
    while i < n
        invariant
            n == parent.children@.len(),
            i <= n,
            children_model(parent.children@).len() == n,
            forall|j: int|
                0 <= j < n ==> #[trigger] children_model(parent.children@)[j] == (
                parent.children@[j].0@,
                contents_model(parent.children@[j].1),
                ),
            match found {
                Some(fi) => fi < i && contents_id(
                    children_model(parent.children@)[fi as int].1,
                ) == file_id@ && forall|j: int|
                    0 <= j < fi ==> contents_id(
                        (#[trigger] children_model(parent.children@)[j]).1,
                    ) != file_id@,
                None => forall|j: int|
                    0 <= j < i ==> contents_id(
                        (#[trigger] children_model(parent.children@)[j]).1,
                    ) != file_id@,
            },
        decreases n - i,
    {
        if found.is_none() {
            if str_eq(parent.children[i].1.id().as_str(), file_id.as_str()) {
                found = Some(i);
            }
        }
        i = i + 1;
    }
    proof {
        assert(folder_model(parent).children == children_model(parent.children@));
    }
    match found {
        Some(fi) => {
            let mut children = parent.children;
            let pair = children.remove(fi);
            Ok(pair.1)
        },
        None => {
            let message = crate::strutil::concat2(
                crate::strutil::concat3("Expected file ", file_id.as_str(),
                    " to be found in parent folder ").as_str(),
                parent.id.as_str(),
            );
            proof {
                assert(message@ =~= "Expected file "@ + file_id@
                    + " to be found in parent folder "@ + parent.id@);
            }
            Err(GofileError::Unexpected { message })
        },
    }
}

} // verus!
