//! The remote's content model: files, folders, their restricted variants,
//! and the verified decoders from JSON payloads into them.
//!
//! Payloads are tagged unions on a `"type"` member; a folder reply that
//! carries a `passwordStatus` member parses as a restricted variant.

use vstd::prelude::*;
use crate::envelope::DecodeFault;
use crate::error::GofileError;
use crate::json::{
    Json, JVal, jarr_view, jobj_view, jval_of, lemma_jarr_view, lemma_jobj_view,
    lemma_obj_lookup_in, obj_find_idx, obj_get, obj_lookup,
};
use crate::strutil::str_eq;

verus! {

// ---------------------------------------------------------------------------
// Identifier form
// ---------------------------------------------------------------------------

/// Is `c` a hexadecimal digit?
pub open spec fn is_hexdig(c: char) -> bool {
    (48 <= c as u32 && c as u32 <= 57) || (97 <= c as u32 && c as u32 <= 102) || (65 <= c as u32
        && c as u32 <= 70)
}

/// The canonical textual form of a 128-bit identifier: 36 characters,
/// hyphens at positions 8, 13, 18 and 23, hexadecimal digits elsewhere.
pub open spec fn is_uuid(s: Seq<char>) -> bool {
    s.len() == 36 && s[8] == '-' && s[13] == '-' && s[18] == '-' && s[23] == '-' && forall|i: int|
        0 <= i < 36 && i != 8 && i != 13 && i != 18 && i != 23 ==> is_hexdig(#[trigger] s[i])
}

/// Decides whether `s` is in the canonical identifier form.
pub fn check_uuid(s: &str) -> (r: bool)
    ensures
        r == is_uuid(s@),
{
    let n = s.unicode_len();
    if n != 36 {
        return false;
    }
    let mut i: usize = 0;
    while i < 36
        invariant
            n == s@.len(),
            n == 36,
            i <= 36,
            forall|j: int|
                0 <= j < i ==> if j == 8 || j == 13 || j == 18 || j == 23 {
                    s@[j] == '-'
                } else {
                    is_hexdig(#[trigger] s@[j])
                },
        decreases 36 - i,
    {
        let c = s.get_char(i);
        if i == 8 || i == 13 || i == 18 || i == 23 {
            if c != '-' {
                return false;
            }
        } else {
            let u = c as u32;
            if !((48 <= u && u <= 57) || (97 <= u && u <= 102) || (65 <= u && u <= 70)) {
                assert(!is_hexdig(s@[i as int]));
                return false;
            }
        }
        i = i + 1;
    }
    true
}

/// A content identifier: either a canonical 128-bit id, or an opaque
/// public-share code. Both carry their text and are passed through as-is.
pub enum IdOrCode {
    Uuid4 { uuid: String },
    Code { code: String },
}

impl IdOrCode {
    /// Classifies a free string: the canonical identifier form parses as
    /// an id, anything else is kept as a code.
    pub fn from_text(s: &str) -> (r: IdOrCode)
        ensures
            is_uuid(s@) ==> (r matches IdOrCode::Uuid4 { uuid } && uuid@ == s@),
            !is_uuid(s@) ==> (r matches IdOrCode::Code { code } && code@ == s@),
    {
        if check_uuid(s) {
            IdOrCode::Uuid4 { uuid: s.to_owned() }
        } else {
            IdOrCode::Code { code: s.to_owned() }
        }
    }

    /// The text of the identifier, as the remote accepts it.
    pub fn display(&self) -> (r: &String)
        ensures
            match *self {
                IdOrCode::Uuid4 { uuid } => r@ == uuid@,
                IdOrCode::Code { code } => r@ == code@,
            },
    {
        match self {
            IdOrCode::Uuid4 { uuid } => uuid,
            IdOrCode::Code { code } => code,
        }
    }
}

// ---------------------------------------------------------------------------
// Entry types and their ghost models
// ---------------------------------------------------------------------------

/// A file entry of the remote's content graph.
pub struct FileEntry {
    pub can_access: bool,
    pub id: String,
    pub name: String,
    pub create_time: u64,
    pub mod_time: u64,
    pub size: u64,
    pub md5: String,
    pub link: String,
    pub servers: Vec<String>,
    pub parent_folder: String,
    pub password: bool,
    pub is_frozen: bool,
    pub mimetype: Option<String>,
    pub bypassed: bool,
}

/// Ghost model of a file entry.
pub struct FileModel {
    pub can_access: bool,
    pub id: Seq<char>,
    pub name: Seq<char>,
    pub create_time: u64,
    pub mod_time: u64,
    pub size: u64,
    pub md5: Seq<char>,
    pub link: Seq<char>,
    pub servers: Seq<Seq<char>>,
    pub parent_folder: Seq<char>,
    pub password: bool,
    pub is_frozen: bool,
    pub mimetype: Option<Seq<char>>,
    pub bypassed: bool,
}

/// Ghost model of a list of server names.
pub open spec fn str_seq_model(v: Seq<String>) -> Seq<Seq<char>> {
    v.map_values(|s: String| s@)
}

/// Ghost model of an optional string.
pub open spec fn opt_str_model(v: Option<String>) -> Option<Seq<char>> {
    match v {
        Some(s) => Some(s@),
        None => None,
    }
}

impl View for FileEntry {
    type V = FileModel;

    open spec fn view(&self) -> FileModel {
        FileModel {
            can_access: self.can_access,
            id: self.id@,
            name: self.name@,
            create_time: self.create_time,
            mod_time: self.mod_time,
            size: self.size,
            md5: self.md5@,
            link: self.link@,
            servers: str_seq_model(self.servers@),
            parent_folder: self.parent_folder@,
            password: self.password,
            is_frozen: self.is_frozen,
            mimetype: opt_str_model(self.mimetype),
            bypassed: self.bypassed,
        }
    }
}

/// The two password verdicts a restricted reply can carry.
#[derive(Clone, Copy, Debug, PartialEq, Eq, Structural)]
pub enum PasswordStatus {
    PasswordRequired,
    PasswordWrong,
}

/// A folder reply stripped down by a password gate: no children, no code.
pub struct FolderEntryRestricted {
    pub password_status: PasswordStatus,
    pub can_access: bool,
    pub id: String,
    pub name: String,
    pub create_time: u64,
    pub mod_time: u64,
    pub public: bool,
}

/// A file reply stripped down by a password gate.
pub struct FileEntryRestricted {
    pub password_status: PasswordStatus,
    pub can_access: bool,
    pub public: bool,
}

/// A restricted reply: the caller's password is missing or wrong.
pub enum ContentsRestricted {
    File(FileEntryRestricted),
    Folder(FolderEntryRestricted),
}

impl ContentsRestricted {
    /// The password verdict carried by the reply.
    pub fn password_status(&self) -> (r: PasswordStatus)
        ensures
            r == match *self {
                ContentsRestricted::File(f) => f.password_status,
                ContentsRestricted::Folder(f) => f.password_status,
            },
    {
        match self {
            ContentsRestricted::File(f) => f.password_status,
            ContentsRestricted::Folder(f) => f.password_status,
        }
    }

    /// The error a restricted reply denotes: `PasswordRequired` or
    /// `PasswordWrong`, by its status.
    pub fn into_err(self) -> (r: GofileError)
        ensures
            r == match (match self {
                ContentsRestricted::File(f) => f.password_status,
                ContentsRestricted::Folder(f) => f.password_status,
            }) {
                PasswordStatus::PasswordRequired => GofileError::PasswordRequired,
                PasswordStatus::PasswordWrong => GofileError::PasswordWrong,
            },
    {
        match self.password_status() {
            PasswordStatus::PasswordRequired => GofileError::PasswordRequired,
            PasswordStatus::PasswordWrong => GofileError::PasswordWrong,
        }
    }
}

/// Ghost model of a restricted folder reply.
pub struct FolderRestrictedModel {
    pub password_status: PasswordStatus,
    pub can_access: bool,
    pub id: Seq<char>,
    pub name: Seq<char>,
    pub create_time: u64,
    pub mod_time: u64,
    pub public: bool,
}

impl View for FolderEntryRestricted {
    type V = FolderRestrictedModel;

    open spec fn view(&self) -> FolderRestrictedModel {
        FolderRestrictedModel {
            password_status: self.password_status,
            can_access: self.can_access,
            id: self.id@,
            name: self.name@,
            create_time: self.create_time,
            mod_time: self.mod_time,
            public: self.public,
        }
    }
}

/// Ghost model of a restricted file reply.
pub struct FileRestrictedModel {
    pub password_status: PasswordStatus,
    pub can_access: bool,
    pub public: bool,
}

impl View for FileEntryRestricted {
    type V = FileRestrictedModel;

    open spec fn view(&self) -> FileRestrictedModel {
        FileRestrictedModel {
            password_status: self.password_status,
            can_access: self.can_access,
            public: self.public,
        }
    }
}

/// Ghost model of a restricted reply.
pub enum RestrictedModel {
    File(FileRestrictedModel),
    Folder(FolderRestrictedModel),
}

impl View for ContentsRestricted {
    type V = RestrictedModel;

    open spec fn view(&self) -> RestrictedModel {
        match *self {
            ContentsRestricted::File(f) => RestrictedModel::File(f@),
            ContentsRestricted::Folder(f) => RestrictedModel::Folder(f@),
        }
    }
}

// ---------------------------------------------------------------------------
// Field access over object payloads
// ---------------------------------------------------------------------------

/// The string a looked-up member holds, if it is a string.
pub open spec fn as_str_val(o: Option<JVal>) -> Option<Seq<char>> {
    match o {
        Some(JVal::Str(s)) => Some(s),
        _ => None,
    }
}

/// The number a looked-up member holds, if it is a number.
pub open spec fn as_u64_val(o: Option<JVal>) -> Option<u64> {
    match o {
        Some(JVal::Num(n)) => Some(n),
        _ => None,
    }
}

/// The boolean a looked-up member holds, if it is a boolean.
pub open spec fn as_bool_val(o: Option<JVal>) -> Option<bool> {
    match o {
        Some(JVal::Bool(b)) => Some(b),
        _ => None,
    }
}

/// A boolean member with a default for absence.
pub open spec fn bool_or_val(o: Option<JVal>, dflt: bool) -> Option<bool> {
    match o {
        None => Some(dflt),
        Some(JVal::Bool(b)) => Some(b),
        Some(_) => None,
    }
}

/// An optional string member: absent or null is an accepted `None`.
pub open spec fn opt_str_val(o: Option<JVal>) -> Option<Option<Seq<char>>> {
    match o {
        None => Some(None),
        Some(JVal::Null) => Some(None),
        Some(JVal::Str(s)) => Some(Some(s)),
        Some(_) => None,
    }
}

/// The strings an array of strings holds, if every item is a string.
pub open spec fn str_items_val(items: Seq<JVal>) -> Option<Seq<Seq<char>>>
    decreases items.len(),
{
    if items.len() == 0 {
        Some(Seq::empty())
    } else {
        match items[0] {
            JVal::Str(s) => match str_items_val(items.drop_first()) {
                Some(rest) => Some(seq![s] + rest),
                None => None,
            },
            _ => None,
        }
    }
}

pub proof fn lemma_str_items_val(items: Seq<JVal>)
    ensures
        str_items_val(items) is Some <==> (forall|i: int|
            0 <= i < items.len() ==> items[i] is Str),
        str_items_val(items) is Some ==> {
            let out = str_items_val(items)->0;
            out.len() == items.len() && forall|i: int|
                0 <= i < items.len() ==> out[i] == items[i]->Str_0
        },
    decreases items.len(),
{
    if items.len() > 0 {
        lemma_str_items_val(items.drop_first());
        assert(forall|i: int| 0 <= i < items.len() - 1 ==> items.drop_first()[i] == items[i + 1]);
        if str_items_val(items) is Some {
            assert forall|i: int| 0 <= i < items.len() implies items[i] is Str by {
                if i > 0 {
                    assert(items.drop_first()[i - 1] == items[i]);
                }
            }
            let out = str_items_val(items)->0;
            let rest = str_items_val(items.drop_first())->0;
            assert(out == seq![items[0]->Str_0] + rest);
            assert forall|i: int| 0 <= i < items.len() implies out[i] == items[i]->Str_0 by {
                if i > 0 {
                    assert(out[i] == rest[i - 1]);
                    assert(items.drop_first()[i - 1] == items[i]);
                }
            }
        } else {
            if items[0] is Str {
                assert(str_items_val(items.drop_first()) is None);
                let k = choose|i: int|
                    0 <= i < items.drop_first().len() && !(items.drop_first()[i] is Str);
                assert(items[k + 1] == items.drop_first()[k]);
                assert(!(items[k + 1] is Str));
            }
        }
    }
}

/// A member that must be an array of strings.
pub open spec fn str_list_val(o: Option<JVal>) -> Option<Seq<Seq<char>>> {
    match o {
        Some(JVal::Arr(items)) => str_items_val(items),
        _ => None,
    }
}

/// The password verdict a looked-up member denotes, if any.
pub open spec fn pw_status_val(o: Option<JVal>) -> Option<PasswordStatus> {
    match as_str_val(o) {
        Some(s) => if s == "passwordRequired"@ {
            Some(PasswordStatus::PasswordRequired)
        } else if s == "passwordWrong"@ {
            Some(PasswordStatus::PasswordWrong)
        } else {
            None
        },
        None => None,
    }
}

/// Reads a required string member.
pub fn field_str(entries: &Vec<(String, Json)>, key: &str) -> (r: Option<String>)
    ensures
        match r {
            Some(s) => as_str_val(obj_lookup(jobj_view(entries@), key@)) == Some(s@),
            None => as_str_val(obj_lookup(jobj_view(entries@), key@)) is None,
        },
{
    match obj_get(entries, key) {
        Some(v) => match v {
            Json::Str(s) => Some(s.clone()),
            _ => None,
        },
        None => None,
    }
}

/// Reads a required number member.
pub fn field_u64(entries: &Vec<(String, Json)>, key: &str) -> (r: Option<u64>)
    ensures
        match r {
            Some(n) => as_u64_val(obj_lookup(jobj_view(entries@), key@)) == Some(n),
            None => as_u64_val(obj_lookup(jobj_view(entries@), key@)) is None,
        },
{
    match obj_get(entries, key) {
        Some(v) => match v {
            Json::Num(n) => Some(*n),
            _ => None,
        },
        None => None,
    }
}

/// Reads a required boolean member.
pub fn field_bool(entries: &Vec<(String, Json)>, key: &str) -> (r: Option<bool>)
    ensures
        match r {
            Some(b) => as_bool_val(obj_lookup(jobj_view(entries@), key@)) == Some(b),
            None => as_bool_val(obj_lookup(jobj_view(entries@), key@)) is None,
        },
{
    match obj_get(entries, key) {
        Some(v) => match v {
            Json::Bool(b) => Some(*b),
            _ => None,
        },
        None => None,
    }
}

/// Reads a boolean member that defaults when absent.
pub fn field_bool_or(entries: &Vec<(String, Json)>, key: &str, dflt: bool) -> (r: Option<bool>)
    ensures
        r == bool_or_val(obj_lookup(jobj_view(entries@), key@), dflt),
{
    match obj_get(entries, key) {
        Some(v) => match v {
            Json::Bool(b) => Some(*b),
            _ => None,
        },
        None => Some(dflt),
    }
}

/// Reads an optional string member.
pub fn field_opt_str(entries: &Vec<(String, Json)>, key: &str) -> (r: Option<Option<String>>)
    ensures
        match r {
            Some(s) => opt_str_val(obj_lookup(jobj_view(entries@), key@)) == Some(
                opt_str_model(s),
            ),
            None => opt_str_val(obj_lookup(jobj_view(entries@), key@)) is None,
        },
{
    match obj_get(entries, key) {
        Some(v) => match v {
            Json::Str(s) => Some(Some(s.clone())),
            Json::Null => Some(None),
            _ => None,
        },
        None => Some(None),
    }
}

/// Reads a required array-of-strings member.
pub fn field_str_list(entries: &Vec<(String, Json)>, key: &str) -> (r: Option<Vec<String>>)
    ensures
        match r {
            Some(v) => str_list_val(obj_lookup(jobj_view(entries@), key@)) == Some(
                str_seq_model(v@),
            ),
            None => str_list_val(obj_lookup(jobj_view(entries@), key@)) is None,
        },
{
    let arr = match obj_get(entries, key) {
        Some(v) => match v {
            Json::Arr(items) => {
                proof {
                    assert(jval_of(*v) == JVal::Arr(jarr_view(items@)));
                }
                items
            },
            _ => {
                return None;
            },
        },
        None => {
            return None;
        },
    };
    let n = arr.len();
    let mut out: Vec<String> = Vec::new();
    let mut i: usize = 0;
    proof {
        lemma_jarr_view(arr@);
    }
    while i < n
        invariant
            n == arr@.len(),
            i <= n,
            out@.len() == i,
            jarr_view(arr@).len() == n,
            str_list_val(obj_lookup(jobj_view(entries@), key@)) == str_items_val(
                jarr_view(arr@),
            ),
            forall|j: int| 0 <= j < n ==> #[trigger] jarr_view(arr@)[j] == jval_of(arr@[j]),
            forall|j: int| 0 <= j < i ==> (#[trigger] jarr_view(arr@)[j]) is Str,
            forall|j: int| 0 <= j < i ==> #[trigger] out@[j]@ == jarr_view(arr@)[j]->Str_0,
        decreases n - i,
    {
        match &arr[i] {
            Json::Str(s) => {
                proof {
                    assert(arr@[i as int] == Json::Str(*s));
                    assert(jval_of(arr@[i as int]) == JVal::Str(s@));
                }
                let ghost out0 = out@;
                out.push(s.clone());
                proof {
                    assert(out@ == out0.push(*s));
                    assert forall|j: int| 0 <= j <= i implies (#[trigger] jarr_view(arr@)[j])
                        is Str by {}
                    assert forall|j: int| 0 <= j <= i implies #[trigger] out@[j]@ == jarr_view(
                        arr@,
                    )[j]->Str_0 by {
                        if j < i {
                            assert(out@[j] == out0[j]);
                        } else {
                            assert(out@[j] == *s);
                        }
                    }
                }
            },
            _ => {
                proof {
                    assert(!(jval_of(arr@[i as int]) is Str));
                    assert(!(jarr_view(arr@)[i as int] is Str));
                    lemma_str_items_val(jarr_view(arr@));
                    assert(str_items_val(jarr_view(arr@)) is None);
                }
                return None;
            },
        }
        i = i + 1;
    }
    proof {
        lemma_str_items_val(jarr_view(arr@));
        assert(forall|j: int| 0 <= j < n ==> (#[trigger] jarr_view(arr@)[j]) is Str);
        assert(str_items_val(jarr_view(arr@)) is Some);
        let specout = str_items_val(jarr_view(arr@))->0;
        assert(specout.len() == n);
        assert forall|j: int| 0 <= j < n implies str_seq_model(out@)[j] == specout[j] by {
            assert(str_seq_model(out@)[j] == out@[j]@);
            assert(specout[j] == jarr_view(arr@)[j]->Str_0);
        }
        assert(str_seq_model(out@) =~= specout);
    }
    Some(out)
}

// ---------------------------------------------------------------------------
// Folders and tagged unions
// ---------------------------------------------------------------------------

/// A folder entry with resolved children.
pub struct FolderEntry {
    pub can_access: bool,
    pub id: String,
    pub name: String,
    pub create_time: u64,
    pub mod_time: u64,
    pub password: bool,
    pub total_size: u64,
    pub code: String,
    pub public: bool,
    pub parent_folder: Option<String>,
    pub is_owner: bool,
    pub children: Vec<(String, Contents)>,
}

/// A content entry: a file or a folder.
pub enum Contents {
    File(FileEntry),
    Folder(FolderEntry),
}

/// Ghost model of a folder entry.
pub struct FolderModel {
    pub can_access: bool,
    pub id: Seq<char>,
    pub name: Seq<char>,
    pub create_time: u64,
    pub mod_time: u64,
    pub password: bool,
    pub total_size: u64,
    pub code: Seq<char>,
    pub public: bool,
    pub parent_folder: Option<Seq<char>>,
    pub is_owner: bool,
    pub children: Seq<(Seq<char>, ContentsModel)>,
}

/// Ghost model of a content entry.
pub enum ContentsModel {
    File(FileModel),
    Folder(FolderModel),
}

/// Ghost model of a child list.
pub open spec fn children_model(s: Seq<(String, Contents)>) -> Seq<(Seq<char>, ContentsModel)>
    decreases s,
{
    if s.len() == 0 {
        Seq::empty()
    } else {
        seq![(s[0].0@, contents_model(s[0].1))] + children_model(s.drop_first())
    }
}

/// Ghost model of a folder entry.
pub open spec fn folder_model(f: FolderEntry) -> FolderModel
    decreases f,
{
    FolderModel {
        can_access: f.can_access,
        id: f.id@,
        name: f.name@,
        create_time: f.create_time,
        mod_time: f.mod_time,
        password: f.password,
        total_size: f.total_size,
        code: f.code@,
        public: f.public,
        parent_folder: opt_str_model(f.parent_folder),
        is_owner: f.is_owner,
        children: children_model(f.children@),
    }
}

/// Ghost model of a content entry.
pub open spec fn contents_model(c: Contents) -> ContentsModel
    decreases c,
{
    match c {
        Contents::File(f) => ContentsModel::File(f@),
        Contents::Folder(f) => ContentsModel::Folder(folder_model(f)),
    }
}

impl View for FolderEntry {
    type V = FolderModel;

    open spec fn view(&self) -> FolderModel {
        folder_model(*self)
    }
}

impl View for Contents {
    type V = ContentsModel;

    open spec fn view(&self) -> ContentsModel {
        contents_model(*self)
    }
}

/// The model of a child list is the child-wise model.
pub proof fn lemma_children_model(s: Seq<(String, Contents)>)
    ensures
        children_model(s).len() == s.len(),
        forall|i: int|
            0 <= i < s.len() ==> #[trigger] children_model(s)[i] == (
            s[i].0@,
            contents_model(s[i].1),
            ),
    decreases s,
{
    if s.len() > 0 {
        lemma_children_model(s.drop_first());
        assert(forall|i: int| 0 <= i < s.len() - 1 ==> s.drop_first()[i] == s[i + 1]);
    }
}

/// A folder as decoded from a reply, whose children may themselves be
/// password-gated.
pub struct FolderEntryOk {
    pub can_access: bool,
    pub id: String,
    pub name: String,
    pub create_time: u64,
    pub mod_time: u64,
    pub password: bool,
    pub total_size: u64,
    pub code: String,
    pub public: bool,
    pub parent_folder: Option<String>,
    pub is_owner: bool,
    pub children: Vec<(String, ContentsWithPassword)>,
}

/// An accessible reply: a file, or a folder with gated children.
pub enum ContentsOk {
    File(FileEntry),
    Folder(FolderEntryOk),
}

/// A reply that is either accessible or stripped by a password gate.
pub enum ContentsWithPassword {
    Accessible(ContentsOk),
    Restricted(ContentsRestricted),
}

/// Ghost model of a folder with gated children.
pub struct FolderOkModel {
    pub can_access: bool,
    pub id: Seq<char>,
    pub name: Seq<char>,
    pub create_time: u64,
    pub mod_time: u64,
    pub password: bool,
    pub total_size: u64,
    pub code: Seq<char>,
    pub public: bool,
    pub parent_folder: Option<Seq<char>>,
    pub is_owner: bool,
    pub children: Seq<(Seq<char>, CwpModel)>,
}

/// Ghost model of an accessible reply.
pub enum ContentsOkModel {
    File(FileModel),
    Folder(FolderOkModel),
}

/// Ghost model of a possibly gated reply.
pub enum CwpModel {
    Accessible(ContentsOkModel),
    Restricted(RestrictedModel),
}

/// Ghost model of a gated child list.
pub open spec fn cwp_children_model(s: Seq<(String, ContentsWithPassword)>) -> Seq<
    (Seq<char>, CwpModel),
>
    decreases s,
{
    if s.len() == 0 {
        Seq::empty()
    } else {
        seq![(s[0].0@, cwp_model(s[0].1))] + cwp_children_model(s.drop_first())
    }
}

/// Ghost model of a folder with gated children.
pub open spec fn folder_ok_model(f: FolderEntryOk) -> FolderOkModel
    decreases f,
{
    FolderOkModel {
        can_access: f.can_access,
        id: f.id@,
        name: f.name@,
        create_time: f.create_time,
        mod_time: f.mod_time,
        password: f.password,
        total_size: f.total_size,
        code: f.code@,
        public: f.public,
        parent_folder: opt_str_model(f.parent_folder),
        is_owner: f.is_owner,
        children: cwp_children_model(f.children@),
    }
}

/// Ghost model of an accessible reply.
pub open spec fn contents_ok_model(c: ContentsOk) -> ContentsOkModel
    decreases c,
{
    match c {
        ContentsOk::File(f) => ContentsOkModel::File(f@),
        ContentsOk::Folder(f) => ContentsOkModel::Folder(folder_ok_model(f)),
    }
}

/// Ghost model of a possibly gated reply.
pub open spec fn cwp_model(c: ContentsWithPassword) -> CwpModel
    decreases c,
{
    match c {
        ContentsWithPassword::Accessible(c) => CwpModel::Accessible(contents_ok_model(c)),
        ContentsWithPassword::Restricted(c) => CwpModel::Restricted(c@),
    }
}

impl View for FolderEntryOk {
    type V = FolderOkModel;

    open spec fn view(&self) -> FolderOkModel {
        folder_ok_model(*self)
    }
}

impl View for ContentsOk {
    type V = ContentsOkModel;

    open spec fn view(&self) -> ContentsOkModel {
        contents_ok_model(*self)
    }
}

impl View for ContentsWithPassword {
    type V = CwpModel;

    open spec fn view(&self) -> CwpModel {
        cwp_model(*self)
    }
}

/// The model of a gated child list is the child-wise model.
pub proof fn lemma_cwp_children_model(s: Seq<(String, ContentsWithPassword)>)
    ensures
        cwp_children_model(s).len() == s.len(),
        forall|i: int|
            0 <= i < s.len() ==> #[trigger] cwp_children_model(s)[i] == (
            s[i].0@,
            cwp_model(s[i].1),
            ),
    decreases s,
{
    if s.len() > 0 {
        lemma_cwp_children_model(s.drop_first());
        assert(forall|i: int| 0 <= i < s.len() - 1 ==> s.drop_first()[i] == s[i + 1]);
    }
}

impl FolderEntryOk {
    /// The same folder with no children: used both for the folder a child
    /// list is being rebuilt for, and for child folders, whose own
    /// children are not fetched transitively.
    pub fn into_folder_entry_empty(self) -> (r: FolderEntry)
        ensures
            r@ == (FolderModel {
                can_access: self.can_access,
                id: self.id@,
                name: self.name@,
                create_time: self.create_time,
                mod_time: self.mod_time,
                password: self.password,
                total_size: self.total_size,
                code: self.code@,
                public: self.public,
                parent_folder: opt_str_model(self.parent_folder),
                is_owner: self.is_owner,
                children: Seq::empty(),
            }),
    {
        FolderEntry {
            can_access: self.can_access,
            id: self.id,
            name: self.name,
            create_time: self.create_time,
            mod_time: self.mod_time,
            password: self.password,
            total_size: self.total_size,
            code: self.code,
            public: self.public,
            parent_folder: self.parent_folder,
            is_owner: self.is_owner,
            children: Vec::new(),
        }
    }
}

impl Contents {
    /// Is this entry a folder?
    pub fn is_dir(&self) -> (r: bool)
        ensures
            r == (self@ matches ContentsModel::Folder(_)),
    {
        match self {
            Contents::Folder(_) => true,
            Contents::File(_) => false,
        }
    }

    /// The entry's name.
    pub fn name(&self) -> (r: &str)
        ensures
            r@ == match self@ {
                ContentsModel::File(f) => f.name,
                ContentsModel::Folder(f) => f.name,
            },
    {
        match self {
            Contents::Folder(folder) => folder.name.as_str(),
            Contents::File(file) => file.name.as_str(),
        }
    }

    /// The entry's identifier.
    pub fn id(&self) -> (r: &String)
        ensures
            r@ == match self@ {
                ContentsModel::File(f) => f.id,
                ContentsModel::Folder(f) => f.id,
            },
    {
        match self {
            Contents::File(file) => &file.id,
            Contents::Folder(folder) => &folder.id,
        }
    }

    /// A file's size, or a folder's total size.
    pub fn size(&self) -> (r: u64)
        ensures
            r == match self@ {
                ContentsModel::File(f) => f.size,
                ContentsModel::Folder(f) => f.total_size,
            },
    {
        match self {
            Contents::File(file) => file.size,
            Contents::Folder(folder) => folder.total_size,
        }
    }

    /// The creation time, in Unix seconds.
    pub fn created(&self) -> (r: u64)
        ensures
            r == match self@ {
                ContentsModel::File(f) => f.create_time,
                ContentsModel::Folder(f) => f.create_time,
            },
    {
        match self {
            Contents::File(file) => file.create_time,
            Contents::Folder(folder) => folder.create_time,
        }
    }

    /// The modification time, in Unix seconds.
    pub fn modtime(&self) -> (r: u64)
        ensures
            r == match self@ {
                ContentsModel::File(f) => f.mod_time,
                ContentsModel::Folder(f) => f.mod_time,
            },
    {
        match self {
            Contents::File(file) => file.mod_time,
            Contents::Folder(folder) => folder.mod_time,
        }
    }
}

/// Reads the password verdict member, if one is carried.
pub fn field_pw_status(entries: &Vec<(String, Json)>) -> (r: Option<PasswordStatus>)
    ensures
        r == pw_status_val(obj_lookup(jobj_view(entries@), "passwordStatus"@)),
{
    match obj_get(entries, "passwordStatus") {
        Some(v) => match v {
            Json::Str(s) => {
                if str_eq(s.as_str(), "passwordRequired") {
                    Some(PasswordStatus::PasswordRequired)
                } else if str_eq(s.as_str(), "passwordWrong") {
                    Some(PasswordStatus::PasswordWrong)
                } else {
                    None
                }
            },
            _ => None,
        },
        None => None,
    }
}

// ---------------------------------------------------------------------------
// Flat payload decoders
// ---------------------------------------------------------------------------

/// How a file payload decodes from an object's members.
pub open spec fn parse_file_spec(em: Seq<(Seq<char>, JVal)>) -> Result<FileModel, DecodeFault> {
    let can_access = as_bool_val(obj_lookup(em, "canAccess"@));
    let id = as_str_val(obj_lookup(em, "id"@));
    let name = as_str_val(obj_lookup(em, "name"@));
    let create_time = as_u64_val(obj_lookup(em, "createTime"@));
    let mod_time = as_u64_val(obj_lookup(em, "modTime"@));
    let size = as_u64_val(obj_lookup(em, "size"@));
    let md5 = as_str_val(obj_lookup(em, "md5"@));
    let link = as_str_val(obj_lookup(em, "link"@));
    let servers = str_list_val(obj_lookup(em, "servers"@));
    let parent_folder = as_str_val(obj_lookup(em, "parentFolder"@));
    let password = bool_or_val(obj_lookup(em, "password"@), false);
    let is_frozen = bool_or_val(obj_lookup(em, "isFrozen"@), false);
    let bypassed = bool_or_val(obj_lookup(em, "bypassed"@), false);
    let mimetype = opt_str_val(obj_lookup(em, "mimetype"@));
    if can_access is Some && id is Some && is_uuid(id->0) && name is Some && create_time is Some
        && mod_time is Some && size is Some && md5 is Some && link is Some && servers is Some
        && parent_folder is Some && password is Some && is_frozen is Some && bypassed is Some
        && mimetype is Some {
        Ok(
            FileModel {
                can_access: can_access->0,
                id: id->0,
                name: name->0,
                create_time: create_time->0,
                mod_time: mod_time->0,
                size: size->0,
                md5: md5->0,
                link: link->0,
                servers: servers->0,
                parent_folder: parent_folder->0,
                password: password->0,
                is_frozen: is_frozen->0,
                mimetype: mimetype->0,
                bypassed: bypassed->0,
            },
        )
    } else {
        Err(DecodeFault::BadPayload)
    }
}

/// Decodes a file payload.
pub fn parse_file_entry(entries: &Vec<(String, Json)>) -> (r: Result<FileEntry, DecodeFault>)
    ensures
        match r {
            Ok(f) => parse_file_spec(jobj_view(entries@)) == Ok::<FileModel, DecodeFault>(f@),
            Err(e) => parse_file_spec(jobj_view(entries@)) == Err::<FileModel, DecodeFault>(e),
        },
{
    let can_access = field_bool(entries, "canAccess");
    let id = field_str(entries, "id");
    let name = field_str(entries, "name");
    let create_time = field_u64(entries, "createTime");
    let mod_time = field_u64(entries, "modTime");
    let size = field_u64(entries, "size");
    let md5 = field_str(entries, "md5");
    let link = field_str(entries, "link");
    let servers = field_str_list(entries, "servers");
    let parent_folder = field_str(entries, "parentFolder");
    let password = field_bool_or(entries, "password", false);
    let is_frozen = field_bool_or(entries, "isFrozen", false);
    let bypassed = field_bool_or(entries, "bypassed", false);
    let mimetype = field_opt_str(entries, "mimetype");
    match (can_access, id, name, create_time) {
        (Some(can_access), Some(id), Some(name), Some(create_time)) => {
            if !check_uuid(id.as_str()) {
                return Err(DecodeFault::BadPayload);
            }
            match (mod_time, size, md5, link) {
                (Some(mod_time), Some(size), Some(md5), Some(link)) => {
                    match (servers, parent_folder, password, is_frozen) {
                        (Some(servers), Some(parent_folder), Some(password), Some(is_frozen)) => {
                            match (bypassed, mimetype) {
                                (Some(bypassed), Some(mimetype)) => Ok(
                                    FileEntry {
                                        can_access,
                                        id,
                                        name,
                                        create_time,
                                        mod_time,
                                        size,
                                        md5,
                                        link,
                                        servers,
                                        parent_folder,
                                        password,
                                        is_frozen,
                                        mimetype,
                                        bypassed,
                                    },
                                ),
                                _ => Err(DecodeFault::BadPayload),
                            }
                        },
                        _ => Err(DecodeFault::BadPayload),
                    }
                },
                _ => Err(DecodeFault::BadPayload),
            }
        },
        _ => Err(DecodeFault::BadPayload),
    }
}

/// How a restricted folder payload decodes.
pub open spec fn parse_folder_restricted_spec(em: Seq<(Seq<char>, JVal)>) -> Result<
    FolderRestrictedModel,
    DecodeFault,
> {
    let pw = pw_status_val(obj_lookup(em, "passwordStatus"@));
    let can_access = as_bool_val(obj_lookup(em, "canAccess"@));
    let id = as_str_val(obj_lookup(em, "id"@));
    let name = as_str_val(obj_lookup(em, "name"@));
    let create_time = as_u64_val(obj_lookup(em, "createTime"@));
    let mod_time = as_u64_val(obj_lookup(em, "modTime"@));
    let public = bool_or_val(obj_lookup(em, "public"@), true);
    if pw is Some && can_access is Some && id is Some && is_uuid(id->0) && name is Some
        && create_time is Some && mod_time is Some && public is Some {
        Ok(
            FolderRestrictedModel {
                password_status: pw->0,
                can_access: can_access->0,
                id: id->0,
                name: name->0,
                create_time: create_time->0,
                mod_time: mod_time->0,
                public: public->0,
            },
        )
    } else {
        Err(DecodeFault::BadPayload)
    }
}

/// How a restricted file payload decodes.
pub open spec fn parse_file_restricted_spec(em: Seq<(Seq<char>, JVal)>) -> Result<
    FileRestrictedModel,
    DecodeFault,
> {
    let pw = pw_status_val(obj_lookup(em, "passwordStatus"@));
    let can_access = as_bool_val(obj_lookup(em, "canAccess"@));
    let public = bool_or_val(obj_lookup(em, "public"@), true);
    if pw is Some && can_access is Some && public is Some {
        Ok(
            FileRestrictedModel {
                password_status: pw->0,
                can_access: can_access->0,
                public: public->0,
            },
        )
    } else {
        Err(DecodeFault::BadPayload)
    }
}

/// How a restricted payload decodes: the `"folder"` tag selects the folder
/// form, anything else the file form.
pub open spec fn parse_restricted_spec(em: Seq<(Seq<char>, JVal)>) -> Result<
    RestrictedModel,
    DecodeFault,
> {
    if as_str_val(obj_lookup(em, "type"@)) == Some("folder"@) {
        match parse_folder_restricted_spec(em) {
            Ok(m) => Ok(RestrictedModel::Folder(m)),
            Err(e) => Err(e),
        }
    } else {
        match parse_file_restricted_spec(em) {
            Ok(m) => Ok(RestrictedModel::File(m)),
            Err(e) => Err(e),
        }
    }
}

/// Decodes a restricted payload.
pub fn parse_restricted(entries: &Vec<(String, Json)>) -> (r: Result<
    ContentsRestricted,
    DecodeFault,
>)
    ensures
        match r {
            Ok(c) => parse_restricted_spec(jobj_view(entries@)) == Ok::<
                RestrictedModel,
                DecodeFault,
            >(c@),
            Err(e) => parse_restricted_spec(jobj_view(entries@)) == Err::<
                RestrictedModel,
                DecodeFault,
            >(e),
        },
{
    let is_folder = match field_str(entries, "type") {
        Some(t) => str_eq(t.as_str(), "folder"),
        None => false,
    };
    let pw = field_pw_status(entries);
    let can_access = field_bool(entries, "canAccess");
    if is_folder {
        let id = field_str(entries, "id");
        let name = field_str(entries, "name");
        let create_time = field_u64(entries, "createTime");
        let mod_time = field_u64(entries, "modTime");
        let public = field_bool_or(entries, "public", true);
        match (pw, can_access, id, name) {
            (Some(pw), Some(can_access), Some(id), Some(name)) => {
                if !check_uuid(id.as_str()) {
                    return Err(DecodeFault::BadPayload);
                }
                match (create_time, mod_time, public) {
                    (Some(create_time), Some(mod_time), Some(public)) => Ok(
                        ContentsRestricted::Folder(
                            FolderEntryRestricted {
                                password_status: pw,
                                can_access,
                                id,
                                name,
                                create_time,
                                mod_time,
                                public,
                            },
                        ),
                    ),
                    _ => Err(DecodeFault::BadPayload),
                }
            },
            _ => Err(DecodeFault::BadPayload),
        }
    } else {
        let public = field_bool_or(entries, "public", true);
        match (pw, can_access, public) {
            (Some(pw), Some(can_access), Some(public)) => Ok(
                ContentsRestricted::File(
                    FileEntryRestricted { password_status: pw, can_access, public },
                ),
            ),
            _ => Err(DecodeFault::BadPayload),
        }
    }
}

/// How a folder payload's scalar members decode; children come separately.
pub open spec fn parse_folder_flat_spec(em: Seq<(Seq<char>, JVal)>) -> Result<
    FolderOkModel,
    DecodeFault,
> {
    let can_access = as_bool_val(obj_lookup(em, "canAccess"@));
    let id = as_str_val(obj_lookup(em, "id"@));
    let name = as_str_val(obj_lookup(em, "name"@));
    let create_time = as_u64_val(obj_lookup(em, "createTime"@));
    let mod_time = as_u64_val(obj_lookup(em, "modTime"@));
    let password = bool_or_val(obj_lookup(em, "password"@), false);
    let total_size = as_u64_val(obj_lookup(em, "totalSize"@));
    let code = as_str_val(obj_lookup(em, "code"@));
    let public = as_bool_val(obj_lookup(em, "public"@));
    let parent_folder = opt_str_val(obj_lookup(em, "parentFolder"@));
    let is_owner = bool_or_val(obj_lookup(em, "isOwner"@), false);
    if can_access is Some && id is Some && is_uuid(id->0) && name is Some && create_time is Some
        && mod_time is Some && password is Some && total_size is Some && code is Some && public
        is Some && parent_folder is Some && is_owner is Some {
        Ok(
            FolderOkModel {
                can_access: can_access->0,
                id: id->0,
                name: name->0,
                create_time: create_time->0,
                mod_time: mod_time->0,
                password: password->0,
                total_size: total_size->0,
                code: code->0,
                public: public->0,
                parent_folder: parent_folder->0,
                is_owner: is_owner->0,
                children: Seq::empty(),
            },
        )
    } else {
        Err(DecodeFault::BadPayload)
    }
}

/// Decodes a folder payload's scalar members, leaving the children empty.
pub fn parse_folder_flat(entries: &Vec<(String, Json)>) -> (r: Result<FolderEntryOk, DecodeFault>)
    ensures
        match r {
            Ok(f) => parse_folder_flat_spec(jobj_view(entries@)) == Ok::<
                FolderOkModel,
                DecodeFault,
            >(f@) && f.children@.len() == 0,
            Err(e) => parse_folder_flat_spec(jobj_view(entries@)) == Err::<
                FolderOkModel,
                DecodeFault,
            >(e),
        },
{
    let can_access = field_bool(entries, "canAccess");
    let id = field_str(entries, "id");
    let name = field_str(entries, "name");
    let create_time = field_u64(entries, "createTime");
    let mod_time = field_u64(entries, "modTime");
    let password = field_bool_or(entries, "password", false);
    let total_size = field_u64(entries, "totalSize");
    let code = field_str(entries, "code");
    let public = field_bool(entries, "public");
    let parent_folder = field_opt_str(entries, "parentFolder");
    let is_owner = field_bool_or(entries, "isOwner", false);
    match (can_access, id, name, create_time) {
        (Some(can_access), Some(id), Some(name), Some(create_time)) => {
            if !check_uuid(id.as_str()) {
                return Err(DecodeFault::BadPayload);
            }
            match (mod_time, password, total_size, code) {
                (Some(mod_time), Some(password), Some(total_size), Some(code)) => {
                    match (public, parent_folder, is_owner) {
                        (Some(public), Some(parent_folder), Some(is_owner)) => Ok(
                            FolderEntryOk {
                                can_access,
                                id,
                                name,
                                create_time,
                                mod_time,
                                password,
                                total_size,
                                code,
                                public,
                                parent_folder,
                                is_owner,
                                children: Vec::new(),
                            },
                        ),
                        _ => Err(DecodeFault::BadPayload),
                    }
                },
                _ => Err(DecodeFault::BadPayload),
            }
        },
        _ => Err(DecodeFault::BadPayload),
    }
}

// ---------------------------------------------------------------------------
// The tagged-union decoder
// ---------------------------------------------------------------------------

/// A folder model with its child list replaced.
pub open spec fn folder_with_children(m: FolderOkModel, cs: Seq<(Seq<char>, CwpModel)>)
    -> FolderOkModel {
    FolderOkModel {
        can_access: m.can_access,
        id: m.id,
        name: m.name,
        create_time: m.create_time,
        mod_time: m.mod_time,
        password: m.password,
        total_size: m.total_size,
        code: m.code,
        public: m.public,
        parent_folder: m.parent_folder,
        is_owner: m.is_owner,
        children: cs,
    }
}

/// How a possibly gated payload decodes: a carried password verdict makes
/// it restricted, else the `"type"` tag picks a file or a folder, whose
/// `children` object decodes child by child.
pub open spec fn parse_cwp_spec(v: JVal) -> Result<CwpModel, DecodeFault>
    decreases v, 1int,
{
    match v {
        JVal::Obj(em) => {
            if pw_status_val(obj_lookup(em, "passwordStatus"@)) is Some {
                match parse_restricted_spec(em) {
                    Ok(m) => Ok(CwpModel::Restricted(m)),
                    Err(e) => Err(e),
                }
            } else {
                match as_str_val(obj_lookup(em, "type"@)) {
                    Some(t) => if t == "file"@ {
                        match parse_file_spec(em) {
                            Ok(m) => Ok(CwpModel::Accessible(ContentsOkModel::File(m))),
                            Err(e) => Err(e),
                        }
                    } else if t == "folder"@ {
                        match parse_folder_flat_spec(em) {
                            Err(e) => Err(e),
                            Ok(flat) => match obj_lookup(em, "children"@) {
                                Option::None => Ok(
                                    CwpModel::Accessible(ContentsOkModel::Folder(flat)),
                                ),
                                Option::Some(JVal::Obj(citems)) => {
                                    proof {
                                        lemma_parse_cwp_termination(v, em, citems);
                                    }
                                    match parse_children_spec(citems) {
                                        Ok(cs) => Ok(
                                            CwpModel::Accessible(
                                                ContentsOkModel::Folder(
                                                    folder_with_children(flat, cs),
                                                ),
                                            ),
                                        ),
                                        Err(e) => Err(e),
                                    }
                                },
                                Option::Some(_) => Err(DecodeFault::BadPayload),
                            },
                        }
                    } else {
                        Err(DecodeFault::BadPayload)
                    },
                    None => Err(DecodeFault::BadPayload),
                }
            }
        },
        _ => Err(DecodeFault::BadPayload),
    }
}

/// How a `children` object decodes, entry by entry, first fault wins.
pub open spec fn parse_children_spec(cs: Seq<(Seq<char>, JVal)>) -> Result<
    Seq<(Seq<char>, CwpModel)>,
    DecodeFault,
>
    decreases cs, 2int,
{
    if cs.len() == 0 {
        Ok(Seq::empty())
    } else {
        match parse_cwp_spec(cs[0].1) {
            Err(e) => Err(e),
            Ok(h) => match parse_children_spec(cs.drop_first()) {
                Err(e) => Err(e),
                Ok(rest) => Ok(seq![(cs[0].0, h)] + rest),
            },
        }
    }
}

pub proof fn lemma_parse_cwp_termination(v: JVal, em: Seq<(Seq<char>, JVal)>, citems: Seq<
    (Seq<char>, JVal),
>)
    requires
        v == JVal::Obj(em),
        obj_lookup(em, "children"@) == Some(JVal::Obj(citems)),
    ensures
        decreases_to!(v => citems),
{
    lemma_obj_lookup_in(em, "children"@);
    let k = choose|k: int|
        0 <= k < em.len() && #[trigger] em[k].1 == obj_lookup(em, "children"@)->0;
    assert(v->Obj_0 == em);
    assert(decreases_to!(v => v->Obj_0));
    assert(decreases_to!(em => em[k]));
    assert(decreases_to!(em[k] => em[k].1));
    assert(em[k].1 == JVal::Obj(citems));
    assert(em[k].1->Obj_0 == citems);
    assert(decreases_to!(em[k].1 => em[k].1->Obj_0));
    assert(decreases_to!(v => citems));
}

/// Decodes a possibly gated payload.
pub fn parse_cwp(j: &Json) -> (r: Result<ContentsWithPassword, DecodeFault>)
    ensures
        match r {
            Ok(c) => parse_cwp_spec(j@) == Ok::<CwpModel, DecodeFault>(c@),
            Err(e) => parse_cwp_spec(j@) == Err::<CwpModel, DecodeFault>(e),
        },
    decreases *j, 1int,
{
    let entries = match j {
        Json::Obj(entries) => entries,
        _ => {
            return Err(DecodeFault::BadPayload);
        },
    };
    proof {
        assert(j@ == JVal::Obj(jobj_view(entries@)));
    }
    let pw = field_pw_status(entries);
    if pw.is_some() {
        match parse_restricted(entries) {
            Ok(m) => Ok(ContentsWithPassword::Restricted(m)),
            Err(e) => Err(e),
        }
    } else {
        let tag = match field_str(entries, "type") {
            Some(t) => t,
            None => {
                return Err(DecodeFault::BadPayload);
            },
        };
        if str_eq(tag.as_str(), "file") {
            match parse_file_entry(entries) {
                Ok(f) => Ok(ContentsWithPassword::Accessible(ContentsOk::File(f))),
                Err(e) => Err(e),
            }
        } else if str_eq(tag.as_str(), "folder") {
            let flat = match parse_folder_flat(entries) {
                Ok(f) => f,
                Err(e) => {
                    return Err(e);
                },
            };
            match obj_find_idx(entries, "children") {
                None => Ok(ContentsWithPassword::Accessible(ContentsOk::Folder(flat))),
                Some(ci) => match &entries[ci].1 {
                    Json::Obj(citems) => {
                        proof {
                            assert(entries@[ci as int].1 == Json::Obj(*citems));
                            assert(jval_of(entries@[ci as int].1) == JVal::Obj(
                                jobj_view(citems@),
                            ));
                            assert((*j)->Obj_0 == *entries);
                            assert(decreases_to!(*j => (*j)->Obj_0));
                            assert(decreases_to!(*entries => entries@));
                            assert(decreases_to!(entries@ => entries@[ci as int]));
                            assert(decreases_to!(entries@[ci as int] => entries@[ci as int].1));
                            assert(entries@[ci as int].1->Obj_0 == *citems);
                            assert(decreases_to!(entries@[ci as int].1 => entries@[ci as
                            int].1->Obj_0));
                            assert(decreases_to!(*j => *citems));
                        }
                        proof {
                            lemma_jobj_view(citems@);
                            assert(jobj_view(citems@).subrange(0, citems@.len() as int)
                                =~= jobj_view(citems@));
                        }
                        match parse_children(citems, 0) {
                            Ok(kids) => {
                                let mut folder = flat;
                                folder.children = kids;
                                proof {
                                    assert(folder@ == folder_with_children(
                                        flat@,
                                        cwp_children_model(folder.children@),
                                    ));
                                }
                                Ok(ContentsWithPassword::Accessible(ContentsOk::Folder(folder)))
                            },
                            Err(e) => Err(e),
                        }
                    },
                    _ => {
                        proof {
                            assert(!(jval_of(entries@[ci as int].1) is Obj));
                        }
                        Err(DecodeFault::BadPayload)
                    },
                },
            }
        } else {
            Err(DecodeFault::BadPayload)
        }
    }
}

/// Decodes the tail of a `children` object, beginning at `from`.
pub fn parse_children(citems: &Vec<(String, Json)>, from: usize) -> (r: Result<
    Vec<(String, ContentsWithPassword)>,
    DecodeFault,
>)
    requires
        from <= citems@.len(),
    ensures
        match r {
            Ok(v) => parse_children_spec(
                jobj_view(citems@).subrange(from as int, citems@.len() as int),
            ) == Ok::<Seq<(Seq<char>, CwpModel)>, DecodeFault>(cwp_children_model(v@)),
            Err(e) => parse_children_spec(
                jobj_view(citems@).subrange(from as int, citems@.len() as int),
            ) == Err::<Seq<(Seq<char>, CwpModel)>, DecodeFault>(e),
        },
    decreases *citems, 2int, citems@.len() - from,
{
    let n = citems.len();
    proof {
        lemma_jobj_view(citems@);
    }
    if from == n {
        proof {
            assert(jobj_view(citems@).subrange(from as int, n as int) =~= Seq::<
                (Seq<char>, JVal),
            >::empty());
        }
        return Ok(Vec::new());
    }
    let ghost ss = jobj_view(citems@).subrange(from as int, citems@.len() as int);
    proof {
        assert(ss[0] == jobj_view(citems@)[from as int]);
        assert(ss[0].1 == jval_of(citems@[from as int].1));
        assert(decreases_to!(*citems => citems@));
        assert(decreases_to!(citems@ => citems@[from as int]));
        assert(decreases_to!(citems@[from as int] => citems@[from as int].1));
        assert(decreases_to!(*citems => citems@[from as int].1));
    }
    let head = match parse_cwp(&citems[from].1) {
        Ok(h) => h,
        Err(e) => {
            return Err(e);
        },
    };
    let rest = match parse_children(citems, from + 1) {
        Ok(v) => v,
        Err(e) => {
            proof {
                assert(ss.drop_first() =~= jobj_view(citems@).subrange(
                    from + 1,
                    citems@.len() as int,
                ));
            }
            return Err(e);
        },
    };
    let ghost rest0 = rest@;
    let key = citems[from].0.clone();
    let mut out = rest;
    out.insert(0, (key, head));
    proof {
        assert(ss.drop_first() =~= jobj_view(citems@).subrange(from + 1, citems@.len() as int));
        assert(out@[0].0 == key && out@[0].1 == head);
        assert(out@.drop_first() =~= rest0);
        assert(cwp_children_model(out@) == seq![(key@, cwp_model(head))] + cwp_children_model(
            rest0,
        ));
        assert(parse_children_spec(ss) == Ok::<Seq<(Seq<char>, CwpModel)>, DecodeFault>(
            seq![(ss[0].0, cwp_model(head))] + cwp_children_model(rest0),
        ));
        assert(ss[0].0 == key@);
    }
    Ok(out)
}

} // verus!
