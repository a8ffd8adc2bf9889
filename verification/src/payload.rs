//! The request bodies the gateway sends: folder creation, attribute
//! updates and batch deletion, built as JSON documents with exactly the
//! members the remote expects.

use vstd::prelude::*;
use crate::json::{Json, JVal};

verus! {

/// The body of a folder-creation request.
pub struct CreateFolderPayload {
    pub folder_name: String,
    pub parent_folder_id: String,
}

impl CreateFolderPayload {
    /// The on-wire form: `{"folderName": ..., "parentFolderId": ...}`.
    pub fn to_json(&self) -> (r: Json)
        ensures
            r@ == JVal::Obj(
                seq![
                    ("folderName"@, JVal::Str(self.folder_name@)),
                    ("parentFolderId"@, JVal::Str(self.parent_folder_id@)),
                ],
            ),
    {
        let mut entries: Vec<(String, Json)> = Vec::new();
        entries.push(("folderName".to_owned(), Json::Str(self.folder_name.clone())));
        entries.push(("parentFolderId".to_owned(), Json::Str(self.parent_folder_id.clone())));
        let r = Json::Obj(entries);
        proof {
            crate::json::lemma_jobj_view(entries@);
            assert(r@ == JVal::Obj(crate::json::jobj_view(entries@)));
            assert(crate::json::jobj_view(entries@) =~= seq![
                ("folderName"@, JVal::Str(self.folder_name@)),
                ("parentFolderId"@, JVal::Str(self.parent_folder_id@)),
            ]);
        }
        r
    }
}

/// An attribute update; only the name can be set.
pub enum Attribute {
    Name(String),
}

impl Attribute {
    /// The on-wire form: `{"attribute": "name", "attributeValue": ...}`.
    pub fn to_json(&self) -> (r: Json)
        ensures
            match *self {
                Attribute::Name(v) => r@ == JVal::Obj(
                    seq![
                        ("attribute"@, JVal::Str("name"@)),
                        ("attributeValue"@, JVal::Str(v@)),
                    ],
                ),
            },
    {
        match self {
            Attribute::Name(v) => {
                let mut entries: Vec<(String, Json)> = Vec::new();
                entries.push(("attribute".to_owned(), Json::Str("name".to_owned())));
                entries.push(("attributeValue".to_owned(), Json::Str(v.clone())));
                let r = Json::Obj(entries);
                proof {
                    crate::json::lemma_jobj_view(entries@);
                    assert(r@ == JVal::Obj(crate::json::jobj_view(entries@)));
                    assert(crate::json::jobj_view(entries@) =~= seq![
                        ("attribute"@, JVal::Str("name"@)),
                        ("attributeValue"@, JVal::Str(v@)),
                    ]);
                }
                r
            },
        }
    }
}

/// The body of a batch-delete request: the ids, comma-separated.
pub struct DeleteContentsPayload {
    pub contents_id: String,
}

impl DeleteContentsPayload {
    /// The on-wire form: `{"contentsId": "id1,id2,..."}`.
    pub fn to_json(&self) -> (r: Json)
        ensures
            r@ == JVal::Obj(seq![("contentsId"@, JVal::Str(self.contents_id@))]),
    {
        let mut entries: Vec<(String, Json)> = Vec::new();
        entries.push(("contentsId".to_owned(), Json::Str(self.contents_id.clone())));
        let r = Json::Obj(entries);
        proof {
            crate::json::lemma_jobj_view(entries@);
            assert(r@ == JVal::Obj(crate::json::jobj_view(entries@)));
            assert(crate::json::jobj_view(entries@) =~= seq![
                ("contentsId"@, JVal::Str(self.contents_id@)),
            ]);
        }
        r
    }
}

} // verus!
