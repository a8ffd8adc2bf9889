//! Decoders for the remote's remaining reply payloads: accounts, upload
//! and folder-creation confirmations, and attribute updates.

use vstd::prelude::*;
use crate::envelope::{parse_envelope_spec, ApiResponse, DecodeFault, RespModel};
use crate::json::{jobj_view, JVal, Json, obj_lookup};
use crate::model::{
    as_bool_val, as_str_val, as_u64_val, field_str, field_str_list, field_u64, is_uuid,
    str_list_val, str_seq_model, check_uuid,
};

verus! {

/// A freshly minted guest account.
pub struct CreateGuestAccount {
    pub id: String,
    pub root_folder: String,
    pub tier: String,
    pub token: String,
}

/// Ghost model of a guest-account reply.
pub struct CreateGuestAccountModel {
    pub id: Seq<char>,
    pub root_folder: Seq<char>,
    pub tier: Seq<char>,
    pub token: Seq<char>,
}

impl View for CreateGuestAccount {
    type V = CreateGuestAccountModel;

    open spec fn view(&self) -> CreateGuestAccountModel {
        CreateGuestAccountModel {
            id: self.id@,
            root_folder: self.root_folder@,
            tier: self.tier@,
            token: self.token@,
        }
    }
}

/// How a guest-account payload decodes.
pub open spec fn parse_guest_account_spec(em: Seq<(Seq<char>, JVal)>) -> Result<
    CreateGuestAccountModel,
    DecodeFault,
> {
    let id = as_str_val(obj_lookup(em, "id"@));
    let root_folder = as_str_val(obj_lookup(em, "rootFolder"@));
    let tier = as_str_val(obj_lookup(em, "tier"@));
    let token = as_str_val(obj_lookup(em, "token"@));
    if id is Some && root_folder is Some && is_uuid(root_folder->0) && tier is Some && token
        is Some {
        Ok(
            CreateGuestAccountModel {
                id: id->0,
                root_folder: root_folder->0,
                tier: tier->0,
                token: token->0,
            },
        )
    } else {
        Err(DecodeFault::BadPayload)
    }
}

/// Decodes a guest-account payload.
pub fn parse_guest_account(data: &Json) -> (r: Result<CreateGuestAccount, DecodeFault>)
    ensures
        match data@ {
            JVal::Obj(em) => match r {
                Ok(a) => parse_guest_account_spec(em) == Ok::<
                    CreateGuestAccountModel,
                    DecodeFault,
                >(a@),
                Err(e) => parse_guest_account_spec(em) == Err::<
                    CreateGuestAccountModel,
                    DecodeFault,
                >(e),
            },
            _ => r == Err::<CreateGuestAccount, DecodeFault>(DecodeFault::BadPayload),
        },
{
    let entries = match data {
        Json::Obj(entries) => entries,
        _ => {
            return Err(DecodeFault::BadPayload);
        },
    };
    let id = field_str(entries, "id");
    let root_folder = field_str(entries, "rootFolder");
    let tier = field_str(entries, "tier");
    let token = field_str(entries, "token");
    match (id, root_folder, tier, token) {
        (Some(id), Some(root_folder), Some(tier), Some(token)) => {
            if !check_uuid(root_folder.as_str()) {
                return Err(DecodeFault::BadPayload);
            }
            Ok(CreateGuestAccount { id, root_folder, tier, token })
        },
        _ => Err(DecodeFault::BadPayload),
    }
}

/// The authenticated account, as `GET /accounts/website` reports it.
pub struct AccountInfo {
    pub id: String,
    pub root_folder: String,
    pub tier: String,
    pub token: String,
    pub email: String,
}

/// Ghost model of an account-info reply.
pub struct AccountInfoModel {
    pub id: Seq<char>,
    pub root_folder: Seq<char>,
    pub tier: Seq<char>,
    pub token: Seq<char>,
    pub email: Seq<char>,
}

impl View for AccountInfo {
    type V = AccountInfoModel;

    open spec fn view(&self) -> AccountInfoModel {
        AccountInfoModel {
            id: self.id@,
            root_folder: self.root_folder@,
            tier: self.tier@,
            token: self.token@,
            email: self.email@,
        }
    }
}

/// How an account-info payload decodes.
pub open spec fn parse_account_info_spec(em: Seq<(Seq<char>, JVal)>) -> Result<
    AccountInfoModel,
    DecodeFault,
> {
    let id = as_str_val(obj_lookup(em, "id"@));
    let root_folder = as_str_val(obj_lookup(em, "rootFolder"@));
    let tier = as_str_val(obj_lookup(em, "tier"@));
    let token = as_str_val(obj_lookup(em, "token"@));
    let email = as_str_val(obj_lookup(em, "email"@));
    if id is Some && root_folder is Some && is_uuid(root_folder->0) && tier is Some && token
        is Some && email is Some {
        Ok(
            AccountInfoModel {
                id: id->0,
                root_folder: root_folder->0,
                tier: tier->0,
                token: token->0,
                email: email->0,
            },
        )
    } else {
        Err(DecodeFault::BadPayload)
    }
}

/// Decodes an account-info payload.
pub fn parse_account_info(data: &Json) -> (r: Result<AccountInfo, DecodeFault>)
    ensures
        match data@ {
            JVal::Obj(em) => match r {
                Ok(a) => parse_account_info_spec(em) == Ok::<AccountInfoModel, DecodeFault>(a@),
                Err(e) => parse_account_info_spec(em) == Err::<AccountInfoModel, DecodeFault>(e),
            },
            _ => r == Err::<AccountInfo, DecodeFault>(DecodeFault::BadPayload),
        },
{
    let entries = match data {
        Json::Obj(entries) => entries,
        _ => {
            return Err(DecodeFault::BadPayload);
        },
    };
    let id = field_str(entries, "id");
    let root_folder = field_str(entries, "rootFolder");
    let tier = field_str(entries, "tier");
    let token = field_str(entries, "token");
    let email = field_str(entries, "email");
    match (id, root_folder, tier, token, email) {
        (Some(id), Some(root_folder), Some(tier), Some(token), Some(email)) => {
            if !check_uuid(root_folder.as_str()) {
                return Err(DecodeFault::BadPayload);
            }
            Ok(AccountInfo { id, root_folder, tier, token, email })
        },
        _ => Err(DecodeFault::BadPayload),
    }
}

/// A completed upload, as the upload origin confirms it.
pub struct FileUploaded {
    pub create_time: u64,
    pub download_page: String,
    pub id: String,
    pub md5: String,
    pub mimetype: String,
    pub mod_time: u64,
    pub name: String,
    pub parent_folder: String,
    pub parent_folder_code: String,
    pub servers: Vec<String>,
    pub size: u64,
    pub entry_type: String,
}

/// Ghost model of an upload confirmation.
pub struct FileUploadedModel {
    pub create_time: u64,
    pub download_page: Seq<char>,
    pub id: Seq<char>,
    pub md5: Seq<char>,
    pub mimetype: Seq<char>,
    pub mod_time: u64,
    pub name: Seq<char>,
    pub parent_folder: Seq<char>,
    pub parent_folder_code: Seq<char>,
    pub servers: Seq<Seq<char>>,
    pub size: u64,
    pub entry_type: Seq<char>,
}

impl View for FileUploaded {
    type V = FileUploadedModel;

    open spec fn view(&self) -> FileUploadedModel {
        FileUploadedModel {
            create_time: self.create_time,
            download_page: self.download_page@,
            id: self.id@,
            md5: self.md5@,
            mimetype: self.mimetype@,
            mod_time: self.mod_time,
            name: self.name@,
            parent_folder: self.parent_folder@,
            parent_folder_code: self.parent_folder_code@,
            servers: str_seq_model(self.servers@),
            size: self.size,
            entry_type: self.entry_type@,
        }
    }
}

/// How an upload confirmation decodes.
pub open spec fn parse_file_uploaded_spec(em: Seq<(Seq<char>, JVal)>) -> Result<
    FileUploadedModel,
    DecodeFault,
> {
    let create_time = as_u64_val(obj_lookup(em, "createTime"@));
    let download_page = as_str_val(obj_lookup(em, "downloadPage"@));
    let id = as_str_val(obj_lookup(em, "id"@));
    let md5 = as_str_val(obj_lookup(em, "md5"@));
    let mimetype = as_str_val(obj_lookup(em, "mimetype"@));
    let mod_time = as_u64_val(obj_lookup(em, "modTime"@));
    let name = as_str_val(obj_lookup(em, "name"@));
    let parent_folder = as_str_val(obj_lookup(em, "parentFolder"@));
    let parent_folder_code = as_str_val(obj_lookup(em, "parentFolderCode"@));
    let servers = str_list_val(obj_lookup(em, "servers"@));
    let size = as_u64_val(obj_lookup(em, "size"@));
    let entry_type = as_str_val(obj_lookup(em, "type"@));
    if create_time is Some && download_page is Some && id is Some && is_uuid(id->0) && md5
        is Some && mimetype is Some && mod_time is Some && name is Some && parent_folder is Some
        && parent_folder_code is Some && servers is Some && size is Some && entry_type is Some {
        Ok(
            FileUploadedModel {
                create_time: create_time->0,
                download_page: download_page->0,
                id: id->0,
                md5: md5->0,
                mimetype: mimetype->0,
                mod_time: mod_time->0,
                name: name->0,
                parent_folder: parent_folder->0,
                parent_folder_code: parent_folder_code->0,
                servers: servers->0,
                size: size->0,
                entry_type: entry_type->0,
            },
        )
    } else {
        Err(DecodeFault::BadPayload)
    }
}

/// Decodes an upload confirmation.
pub fn parse_file_uploaded(data: &Json) -> (r: Result<FileUploaded, DecodeFault>)
    ensures
        match data@ {
            JVal::Obj(em) => match r {
                Ok(a) => parse_file_uploaded_spec(em) == Ok::<FileUploadedModel, DecodeFault>(
                    a@,
                ),
                Err(e) => parse_file_uploaded_spec(em) == Err::<FileUploadedModel, DecodeFault>(
                    e,
                ),
            },
            _ => r == Err::<FileUploaded, DecodeFault>(DecodeFault::BadPayload),
        },
{
    let entries = match data {
        Json::Obj(entries) => entries,
        _ => {
            return Err(DecodeFault::BadPayload);
        },
    };
    let create_time = field_u64(entries, "createTime");
    let download_page = field_str(entries, "downloadPage");
    let id = field_str(entries, "id");
    let md5 = field_str(entries, "md5");
    let mimetype = field_str(entries, "mimetype");
    let mod_time = field_u64(entries, "modTime");
    let name = field_str(entries, "name");
    let parent_folder = field_str(entries, "parentFolder");
    let parent_folder_code = field_str(entries, "parentFolderCode");
    let servers = field_str_list(entries, "servers");
    let size = field_u64(entries, "size");
    let entry_type = field_str(entries, "type");
    match (create_time, download_page, id, md5) {
        (Some(create_time), Some(download_page), Some(id), Some(md5)) => {
            if !check_uuid(id.as_str()) {
                return Err(DecodeFault::BadPayload);
            }
            match (mimetype, mod_time, name, parent_folder) {
                (Some(mimetype), Some(mod_time), Some(name), Some(parent_folder)) => {
                    match (parent_folder_code, servers, size, entry_type) {
                        (
                            Some(parent_folder_code),
                            Some(servers),
                            Some(size),
                            Some(entry_type),
                        ) => Ok(
                            FileUploaded {
                                create_time,
                                download_page,
                                id,
                                md5,
                                mimetype,
                                mod_time,
                                name,
                                parent_folder,
                                parent_folder_code,
                                servers,
                                size,
                                entry_type,
                            },
                        ),
                        _ => Err(DecodeFault::BadPayload),
                    }
                },
                _ => Err(DecodeFault::BadPayload),
            }
        },
        _ => Err(DecodeFault::BadPayload),
    }
}

/// A created folder, as `POST /contents/createfolder` confirms it.
pub struct FolderCreated {
    pub code: String,
    pub create_time: u64,
    pub id: String,
    pub mod_time: u64,
    pub name: String,
    pub owner: String,
    pub parent_folder: String,
    pub entry_type: String,
}

/// Ghost model of a folder-creation confirmation.
pub struct FolderCreatedModel {
    pub code: Seq<char>,
    pub create_time: u64,
    pub id: Seq<char>,
    pub mod_time: u64,
    pub name: Seq<char>,
    pub owner: Seq<char>,
    pub parent_folder: Seq<char>,
    pub entry_type: Seq<char>,
}

impl View for FolderCreated {
    type V = FolderCreatedModel;

    open spec fn view(&self) -> FolderCreatedModel {
        FolderCreatedModel {
            code: self.code@,
            create_time: self.create_time,
            id: self.id@,
            mod_time: self.mod_time,
            name: self.name@,
            owner: self.owner@,
            parent_folder: self.parent_folder@,
            entry_type: self.entry_type@,
        }
    }
}

/// How a folder-creation confirmation decodes.
pub open spec fn parse_folder_created_spec(em: Seq<(Seq<char>, JVal)>) -> Result<
    FolderCreatedModel,
    DecodeFault,
> {
    let code = as_str_val(obj_lookup(em, "code"@));
    let create_time = as_u64_val(obj_lookup(em, "createTime"@));
    let id = as_str_val(obj_lookup(em, "id"@));
    let mod_time = as_u64_val(obj_lookup(em, "modTime"@));
    let name = as_str_val(obj_lookup(em, "name"@));
    let owner = as_str_val(obj_lookup(em, "owner"@));
    let parent_folder = as_str_val(obj_lookup(em, "parentFolder"@));
    let entry_type = as_str_val(obj_lookup(em, "type"@));
    if code is Some && create_time is Some && id is Some && is_uuid(id->0) && mod_time is Some
        && name is Some && owner is Some && is_uuid(owner->0) && parent_folder is Some && is_uuid(
        parent_folder->0,
    ) && entry_type is Some {
        Ok(
            FolderCreatedModel {
                code: code->0,
                create_time: create_time->0,
                id: id->0,
                mod_time: mod_time->0,
                name: name->0,
                owner: owner->0,
                parent_folder: parent_folder->0,
                entry_type: entry_type->0,
            },
        )
    } else {
        Err(DecodeFault::BadPayload)
    }
}

/// Decodes a folder-creation confirmation.
pub fn parse_folder_created(data: &Json) -> (r: Result<FolderCreated, DecodeFault>)
    ensures
        match data@ {
            JVal::Obj(em) => match r {
                Ok(a) => parse_folder_created_spec(em) == Ok::<FolderCreatedModel, DecodeFault>(
                    a@,
                ),
                Err(e) => parse_folder_created_spec(em) == Err::<
                    FolderCreatedModel,
                    DecodeFault,
                >(e),
            },
            _ => r == Err::<FolderCreated, DecodeFault>(DecodeFault::BadPayload),
        },
{
    let entries = match data {
        Json::Obj(entries) => entries,
        _ => {
            return Err(DecodeFault::BadPayload);
        },
    };
    let code = field_str(entries, "code");
    let create_time = field_u64(entries, "createTime");
    let id = field_str(entries, "id");
    let mod_time = field_u64(entries, "modTime");
    let name = field_str(entries, "name");
    let owner = field_str(entries, "owner");
    let parent_folder = field_str(entries, "parentFolder");
    let entry_type = field_str(entries, "type");
    match (code, create_time, id, mod_time) {
        (Some(code), Some(create_time), Some(id), Some(mod_time)) => {
            if !check_uuid(id.as_str()) {
                return Err(DecodeFault::BadPayload);
            }
            match (name, owner, parent_folder, entry_type) {
                (Some(name), Some(owner), Some(parent_folder), Some(entry_type)) => {
                    if !check_uuid(owner.as_str()) || !check_uuid(parent_folder.as_str()) {
                        return Err(DecodeFault::BadPayload);
                    }
                    Ok(
                        FolderCreated {
                            code,
                            create_time,
                            id,
                            mod_time,
                            name,
                            owner,
                            parent_folder,
                            entry_type,
                        },
                    )
                },
                _ => Err(DecodeFault::BadPayload),
            }
        },
        _ => Err(DecodeFault::BadPayload),
    }
}

/// An updated file, as an attribute update confirms it.
pub struct FileUpdated {
    pub create_time: u64,
    pub id: String,
    pub md5: String,
    pub mimetype: String,
    pub mod_time: u64,
    pub name: String,
    pub parent_folder: String,
}

/// An updated folder, as an attribute update confirms it.
pub struct FolderUpdated {
    pub create_time: u64,
    pub id: String,
    pub mod_time: u64,
    pub name: String,
    pub parent_folder: String,
}

/// An attribute-update confirmation, tagged by kind.
pub enum ContentsUpdated {
    File(FileUpdated),
    Folder(FolderUpdated),
}

/// Ghost model of an updated file.
pub struct FileUpdatedModel {
    pub create_time: u64,
    pub id: Seq<char>,
    pub md5: Seq<char>,
    pub mimetype: Seq<char>,
    pub mod_time: u64,
    pub name: Seq<char>,
    pub parent_folder: Seq<char>,
}

impl View for FileUpdated {
    type V = FileUpdatedModel;

    open spec fn view(&self) -> FileUpdatedModel {
        FileUpdatedModel {
            create_time: self.create_time,
            id: self.id@,
            md5: self.md5@,
            mimetype: self.mimetype@,
            mod_time: self.mod_time,
            name: self.name@,
            parent_folder: self.parent_folder@,
        }
    }
}

/// Ghost model of an updated folder.
pub struct FolderUpdatedModel {
    pub create_time: u64,
    pub id: Seq<char>,
    pub mod_time: u64,
    pub name: Seq<char>,
    pub parent_folder: Seq<char>,
}

impl View for FolderUpdated {
    type V = FolderUpdatedModel;

    open spec fn view(&self) -> FolderUpdatedModel {
        FolderUpdatedModel {
            create_time: self.create_time,
            id: self.id@,
            mod_time: self.mod_time,
            name: self.name@,
            parent_folder: self.parent_folder@,
        }
    }
}

/// Ghost model of an attribute-update confirmation.
pub enum ContentsUpdatedModel {
    File(FileUpdatedModel),
    Folder(FolderUpdatedModel),
}

impl View for ContentsUpdated {
    type V = ContentsUpdatedModel;

    open spec fn view(&self) -> ContentsUpdatedModel {
        match *self {
            ContentsUpdated::File(f) => ContentsUpdatedModel::File(f@),
            ContentsUpdated::Folder(f) => ContentsUpdatedModel::Folder(f@),
        }
    }
}

/// How an updated-file confirmation decodes.
pub open spec fn parse_file_updated_spec(em: Seq<(Seq<char>, JVal)>) -> Result<
    FileUpdatedModel,
    DecodeFault,
> {
    let create_time = as_u64_val(obj_lookup(em, "createTime"@));
    let id = as_str_val(obj_lookup(em, "id"@));
    let md5 = as_str_val(obj_lookup(em, "md5"@));
    let mimetype = as_str_val(obj_lookup(em, "mimetype"@));
    let mod_time = as_u64_val(obj_lookup(em, "modTime"@));
    let name = as_str_val(obj_lookup(em, "name"@));
    let parent_folder = as_str_val(obj_lookup(em, "parentFolder"@));
    if create_time is Some && id is Some && is_uuid(id->0) && md5 is Some && mimetype is Some
        && mod_time is Some && name is Some && parent_folder is Some && is_uuid(
        parent_folder->0,
    ) {
        Ok(
            FileUpdatedModel {
                create_time: create_time->0,
                id: id->0,
                md5: md5->0,
                mimetype: mimetype->0,
                mod_time: mod_time->0,
                name: name->0,
                parent_folder: parent_folder->0,
            },
        )
    } else {
        Err(DecodeFault::BadPayload)
    }
}

/// How an updated-folder confirmation decodes.
pub open spec fn parse_folder_updated_spec(em: Seq<(Seq<char>, JVal)>) -> Result<
    FolderUpdatedModel,
    DecodeFault,
> {
    let create_time = as_u64_val(obj_lookup(em, "createTime"@));
    let id = as_str_val(obj_lookup(em, "id"@));
    let mod_time = as_u64_val(obj_lookup(em, "modTime"@));
    let name = as_str_val(obj_lookup(em, "name"@));
    let parent_folder = as_str_val(obj_lookup(em, "parentFolder"@));
    if create_time is Some && id is Some && is_uuid(id->0) && mod_time is Some && name is Some
        && parent_folder is Some && is_uuid(parent_folder->0) {
        Ok(
            FolderUpdatedModel {
                create_time: create_time->0,
                id: id->0,
                mod_time: mod_time->0,
                name: name->0,
                parent_folder: parent_folder->0,
            },
        )
    } else {
        Err(DecodeFault::BadPayload)
    }
}

/// How an attribute-update confirmation decodes: the `"type"` tag picks
/// the file or the folder form.
pub open spec fn parse_contents_updated_spec(em: Seq<(Seq<char>, JVal)>) -> Result<
    ContentsUpdatedModel,
    DecodeFault,
> {
    match as_str_val(obj_lookup(em, "type"@)) {
        Some(t) => if t == "file"@ {
            match parse_file_updated_spec(em) {
                Ok(m) => Ok(ContentsUpdatedModel::File(m)),
                Err(e) => Err(e),
            }
        } else if t == "folder"@ {
            match parse_folder_updated_spec(em) {
                Ok(m) => Ok(ContentsUpdatedModel::Folder(m)),
                Err(e) => Err(e),
            }
        } else {
            Err(DecodeFault::BadPayload)
        },
        None => Err(DecodeFault::BadPayload),
    }
}

/// Decodes an attribute-update confirmation: the `"type"` tag selects
/// the file or folder form; each requires its members, with both ids in
/// canonical form.
pub fn parse_contents_updated(data: &Json) -> (r: Result<ContentsUpdated, DecodeFault>)
    ensures
        match data@ {
            JVal::Obj(em) => match r {
                Ok(u) => parse_contents_updated_spec(em) == Ok::<
                    ContentsUpdatedModel,
                    DecodeFault,
                >(u@),
                Err(e) => parse_contents_updated_spec(em) == Err::<
                    ContentsUpdatedModel,
                    DecodeFault,
                >(e),
            },
            _ => r == Err::<ContentsUpdated, DecodeFault>(DecodeFault::BadPayload),
        },
{
    let entries = match data {
        Json::Obj(entries) => entries,
        _ => {
            return Err(DecodeFault::BadPayload);
        },
    };
    let tag = match field_str(entries, "type") {
        Some(t) => t,
        None => {
            return Err(DecodeFault::BadPayload);
        },
    };
    let create_time = field_u64(entries, "createTime");
    let id = field_str(entries, "id");
    let mod_time = field_u64(entries, "modTime");
    let name = field_str(entries, "name");
    let parent_folder = field_str(entries, "parentFolder");
    if crate::strutil::str_eq(tag.as_str(), "file") {
        let md5 = field_str(entries, "md5");
        let mimetype = field_str(entries, "mimetype");
        match (create_time, id, mod_time, name) {
            (Some(create_time), Some(id), Some(mod_time), Some(name)) => {
                if !check_uuid(id.as_str()) {
                    return Err(DecodeFault::BadPayload);
                }
                match (parent_folder, md5, mimetype) {
                    (Some(parent_folder), Some(md5), Some(mimetype)) => {
                        if !check_uuid(parent_folder.as_str()) {
                            return Err(DecodeFault::BadPayload);
                        }
                        Ok(
                            ContentsUpdated::File(
                                FileUpdated {
                                    create_time,
                                    id,
                                    md5,
                                    mimetype,
                                    mod_time,
                                    name,
                                    parent_folder,
                                },
                            ),
                        )
                    },
                    _ => Err(DecodeFault::BadPayload),
                }
            },
            _ => Err(DecodeFault::BadPayload),
        }
    } else if crate::strutil::str_eq(tag.as_str(), "folder") {
        match (create_time, id, mod_time, name, parent_folder) {
            (Some(create_time), Some(id), Some(mod_time), Some(name), Some(parent_folder)) => {
                if !check_uuid(id.as_str()) || !check_uuid(parent_folder.as_str()) {
                    return Err(DecodeFault::BadPayload);
                }
                Ok(
                    ContentsUpdated::Folder(
                        FolderUpdated { create_time, id, mod_time, name, parent_folder },
                    ),
                )
            },
            _ => Err(DecodeFault::BadPayload),
        }
    } else {
        Err(DecodeFault::BadPayload)
    }
}

/// Ghost model of a batch-delete reply: each deleted id with the
/// envelope the remote answered for it.
pub open spec fn delete_results_model(v: Seq<(String, ApiResponse)>) -> Seq<
    (Seq<char>, RespModel),
> {
    v.map_values(|p: (String, ApiResponse)| (p.0@, p.1@))
}

/// How a batch-delete reply's `data` object decodes: every member value
/// is itself a reply envelope, one per deleted id; the first member that
/// is no envelope fails the decode.
pub open spec fn parse_delete_results_spec(em: Seq<(Seq<char>, JVal)>) -> Result<
    Seq<(Seq<char>, RespModel)>,
    DecodeFault,
>
    decreases em.len(),
{
    if em.len() == 0 {
        Ok(Seq::empty())
    } else {
        match parse_envelope_spec(em[0].1) {
            Err(e) => Err(e),
            Ok(m) => match parse_delete_results_spec(em.drop_first()) {
                Err(e) => Err(e),
                Ok(rest) => Ok(seq![(em[0].0, m)] + rest),
            },
        }
    }
}

/// Decodes a batch-delete reply's `data` payload: the map from each
/// deleted id to its per-id result envelope.
pub fn parse_delete_results(data: Json) -> (r: Result<Vec<(String, ApiResponse)>, DecodeFault>)
    ensures
        match data@ {
            JVal::Obj(em) => match r {
                Ok(v) => parse_delete_results_spec(em) == Ok::<
                    Seq<(Seq<char>, RespModel)>,
                    DecodeFault,
                >(delete_results_model(v@)),
                Err(e) => parse_delete_results_spec(em) == Err::<
                    Seq<(Seq<char>, RespModel)>,
                    DecodeFault,
                >(e),
            },
            _ => r == Err::<Vec<(String, ApiResponse)>, DecodeFault>(DecodeFault::BadPayload),
        },
{
    match data {
        Json::Obj(entries) => parse_delete_entries(entries),
        _ => Err(DecodeFault::BadPayload),
    }
}

fn parse_delete_entries(entries: Vec<(String, Json)>) -> (r: Result<
    Vec<(String, ApiResponse)>,
    DecodeFault,
>)
    ensures
        match r {
            Ok(v) => parse_delete_results_spec(jobj_view(entries@)) == Ok::<
                Seq<(Seq<char>, RespModel)>,
                DecodeFault,
            >(delete_results_model(v@)),
            Err(e) => parse_delete_results_spec(jobj_view(entries@)) == Err::<
                Seq<(Seq<char>, RespModel)>,
                DecodeFault,
            >(e),
        },
    decreases entries@.len(),
{
    let ghost orig = entries@;
    let mut entries = entries;
    if entries.len() == 0 {
        let r: Vec<(String, ApiResponse)> = Vec::new();
        proof {
            assert(jobj_view(orig) =~= Seq::<(Seq<char>, JVal)>::empty());
            assert(delete_results_model(r@) =~= Seq::<(Seq<char>, RespModel)>::empty());
        }
        return Ok(r);
    }
    let pair = entries.remove(0);
    proof {
        assert(entries@ =~= orig.drop_first());
        crate::json::lemma_jobj_view(orig);
        assert(jobj_view(orig)[0] == (pair.0@, crate::json::jval_of(pair.1)));
        assert(jobj_view(orig).drop_first() =~= jobj_view(orig.drop_first()));
    }
    let (key, value) = pair;
    let resp = match crate::envelope::parse_api_response(value) {
        Ok(resp) => resp,
        Err(e) => {
            return Err(e);
        },
    };
    let rest = match parse_delete_entries(entries) {
        Ok(v) => v,
        Err(e) => {
            return Err(e);
        },
    };
    let ghost rest0 = rest@;
    let mut out = rest;
    out.insert(0, (key, resp));
    proof {
        assert(out@.drop_first() =~= rest0);
        assert(delete_results_model(out@) =~= seq![(key@, resp@)] + delete_results_model(
            rest0,
        ));
    }
    Ok(out)
}

} // verus!
