use gofile_dav::config::validate_root;
use gofile_dav::dircache::DirCache;
use gofile_dav::error::{fs_error_kind, FsErrorKind, GofileError};
use gofile_dav::fetch::{
    apply_bypass, assemble_begin, assemble_child, assemble_finish, bypass_gamble_new,
    bypass_gamble_step, bypass_plan, join_ids, pick_bypassed_sibling, wt_extract, AssembleBegin,
    BypassFile, BypassPlan,
};
use gofile_dav::fsops::{
    create_dir_plan, expect_folder, mutation_allowed, open_plan, remove_plan, rename_plan,
    CreateDirPlan, OpenPlan, RenamePlan,
};
use gofile_dav::model::{
    ContentsOk, ContentsRestricted, ContentsWithPassword, Contents, FileEntry,
    FileEntryRestricted, FolderEntry, PasswordStatus,
};
use gofile_dav::resolver::{normalize_path, search_begin, search_step, SearchStep};
use gofile_dav::jsontext::{json_to_text, parse_json};
use gofile_dav::payload::{Attribute, CreateFolderPayload, DeleteContentsPayload};
use gofile_dav::envelope::ApiResponse;
use gofile_dav::replies::{
    parse_account_info, parse_contents_updated, parse_delete_results, parse_file_uploaded,
    parse_guest_account, ContentsUpdated,
};
use gofile_dav::stream::{
    flush_plan, ids_to_delete, path_file_name, path_parent, seek_position, write_begin_plan,
    ByteTaker, FlushPlan, SeekFrom,
};

fn mk_file(id: &str, name: &str, size: u64) -> FileEntry {
    FileEntry {
        can_access: true,
        id: id.to_string(),
        name: name.to_string(),
        create_time: 1,
        mod_time: 2,
        size,
        md5: "d41d8cd98f00b204e9800998ecf8427e".to_string(),
        link: format!("https://example.org/download/{}", name),
        servers: vec!["store1".to_string()],
        parent_folder: "66666666-7777-8888-9999-000000000000".to_string(),
        password: false,
        is_frozen: false,
        mimetype: None,
        bypassed: false,
    }
}

fn mk_folder(id: &str, name: &str, code: &str, children: Vec<(String, Contents)>) -> FolderEntry {
    FolderEntry {
        can_access: true,
        id: id.to_string(),
        name: name.to_string(),
        create_time: 1,
        mod_time: 2,
        password: false,
        total_size: 0,
        code: code.to_string(),
        public: true,
        parent_folder: None,
        is_owner: true,
        children,
    }
}

const ROOT_ID: &str = "6c9e22a7-7d6c-4986-8e93-b118558be0bb";
const FILE_ID: &str = "99999999-2222-3333-4444-555555555555";
const FILE_ID2: &str = "88888888-2222-3333-4444-555555555555";
const SUB_ID: &str = "77777777-2222-3333-4444-555555555555";

#[test]
fn cache_insert_and_find() {
    let mut cache: DirCache<String> = DirCache::new("rootcode".to_string());
    assert_eq!(cache.find_dir(""), Some(&"rootcode".to_string()));
    assert_eq!(cache.find_dir("/a"), None);
    cache.insert_dir("/a".to_string(), "codeA".to_string());
    assert_eq!(cache.find_dir("/a"), Some(&"codeA".to_string()));
    cache.insert_dir("/a".to_string(), "codeB".to_string());
    assert_eq!(cache.find_dir("/a"), Some(&"codeB".to_string()));
    assert_eq!(cache.find_dir(""), Some(&"rootcode".to_string()));
}

#[test]
fn cache_monotonic_after_search() {
    // A search for /a walks from the root, caches /a, and a second
    // search starts at /a itself: no parent lookup.
    let mut cache: DirCache<String> = DirCache::new("rootcode".to_string());
    let st = search_begin(&cache, "/a").unwrap();
    assert_eq!(st.orig_path, "/a");
    assert_eq!(st.current_path, "");
    assert_eq!(st.current_id, "rootcode");

    let sub = mk_folder(SUB_ID, "a", "codeA", vec![]);
    let root = mk_folder(ROOT_ID, "root", "rootcode", vec![(
        SUB_ID.to_string(),
        Contents::Folder(sub),
    )]);
    let step = search_step(st, Ok(Contents::Folder(root)), &mut cache);
    match step {
        SearchStep::Found(Contents::Folder(f)) => assert_eq!(f.name, "a"),
        _ => panic!("expected the walk to find the folder"),
    }

    let st2 = search_begin(&cache, "/a").unwrap();
    assert_eq!(st2.current_path, "/a");
    assert_eq!(st2.current_id, "codeA");
}

#[test]
fn filter_stability_in_listing() {
    // P4: no returned folder holds an inaccessible or frozen file.
    let mut frozen = mk_file(FILE_ID2, "frozen.txt", 1);
    frozen.is_frozen = true;
    let mut locked = mk_file(SUB_ID, "locked.txt", 1);
    locked.can_access = false;
    let good = mk_file(FILE_ID, "x.txt", 5);
    let folder = mk_folder(ROOT_ID, "root", "rootcode", vec![
        ("k1".to_string(), Contents::File(frozen)),
        ("k2".to_string(), Contents::File(locked)),
        ("k3".to_string(), Contents::File(good)),
    ]);
    let mut cache: DirCache<String> = DirCache::new("rootcode".to_string());
    let st = search_begin(&cache, "/").unwrap();
    assert_eq!(st.orig_path, "");
    let step = search_step(st, Ok(Contents::Folder(folder)), &mut cache);
    match step {
        SearchStep::Found(Contents::Folder(f)) => {
            assert_eq!(f.children.len(), 1);
            let (key, child) = &f.children[0];
            assert_eq!(key, FILE_ID);
            match child {
                Contents::File(fe) => assert_eq!(fe.name, "x.txt"),
                _ => panic!("expected the good file"),
            }
        },
        _ => panic!("expected the listing"),
    }
}

#[test]
fn search_missing_and_errors() {
    let mut cache: DirCache<String> = DirCache::new("rootcode".to_string());
    let st = search_begin(&cache, "/nope").unwrap();
    let root = mk_folder(ROOT_ID, "root", "rootcode", vec![]);
    match search_step(st, Ok(Contents::Folder(root)), &mut cache) {
        SearchStep::Missing => {},
        _ => panic!("expected a missing path"),
    }

    let st = search_begin(&cache, "/nope").unwrap();
    match search_step(st, Err(GofileError::NotFound), &mut cache) {
        SearchStep::Missing => {},
        _ => panic!("a remote NotFound mid-walk means the path does not exist"),
    }

    let st = search_begin(&cache, "/nope").unwrap();
    match search_step(st, Err(GofileError::Forbidden), &mut cache) {
        SearchStep::Fail(GofileError::Forbidden) => {},
        _ => panic!("other remote errors surface"),
    }
}

#[test]
fn search_descends_segment_by_segment() {
    let mut cache: DirCache<String> = DirCache::new("rootcode".to_string());
    let st = search_begin(&cache, "/a/x.txt").unwrap();
    assert_eq!(st.current_path, "");
    let sub = mk_folder(SUB_ID, "a", "codeA", vec![]);
    let root = mk_folder(ROOT_ID, "root", "rootcode", vec![(
        SUB_ID.to_string(),
        Contents::Folder(sub),
    )]);
    let st = match search_step(st, Ok(Contents::Folder(root)), &mut cache) {
        SearchStep::Descend(st) => st,
        _ => panic!("expected a descent into /a"),
    };
    assert_eq!(st.current_path, "/a");
    assert_eq!(st.current_id, "codeA");
    let a = mk_folder(SUB_ID, "a", "codeA", vec![(
        FILE_ID.to_string(),
        Contents::File(mk_file(FILE_ID, "x.txt", 5)),
    )]);
    match search_step(st, Ok(Contents::Folder(a)), &mut cache) {
        SearchStep::Found(Contents::File(f)) => assert_eq!(f.id, FILE_ID),
        _ => panic!("expected the file"),
    }
}

#[test]
fn mount_root_lists_empty() {
    // An empty mounted root folder answers the root listing with zero
    // children.
    let mut cache: DirCache<String> = DirCache::new(ROOT_ID.to_string());
    let st = search_begin(&cache, "/").unwrap();
    assert_eq!(st.current_id, ROOT_ID);
    let root = mk_folder(ROOT_ID, "root", "Veil7n", vec![]);
    match search_step(st, Ok(Contents::Folder(root)), &mut cache) {
        SearchStep::Found(Contents::Folder(f)) => assert_eq!(f.children.len(), 0),
        _ => panic!("expected the empty root listing"),
    }
}

#[test]
fn range_read_equals_slice() {
    // Seek to 1, read 3 of a 5-byte file served from byte 1 on.
    let content = b"hello";
    let pos = seek_position(SeekFrom::Start(1), 0, 5).unwrap();
    assert_eq!(pos, 1);
    let suffix: Vec<u8> = content[pos as usize..].to_vec();
    let mut taker = ByteTaker::begin(Vec::new(), 3);
    let mut chunks = vec![suffix[..2].to_vec(), suffix[2..].to_vec()];
    chunks.reverse();
    loop {
        if taker.drain() {
            break;
        }
        match chunks.pop() {
            Some(c) => taker.feed(c),
            None => break,
        }
    }
    let (got, _leftover) = taker.finish();
    assert_eq!(got, b"ell".to_vec());
}

#[test]
fn read_zero_and_past_end() {
    let mut taker = ByteTaker::begin(b"abc".to_vec(), 0);
    assert!(taker.drain());
    let (got, leftover) = taker.finish();
    assert_eq!(got, Vec::<u8>::new());
    assert_eq!(leftover, b"abc".to_vec());

    let mut taker = ByteTaker::begin(b"ab".to_vec(), 10);
    assert!(!taker.drain());
    let (got, _) = taker.finish();
    assert_eq!(got, b"ab".to_vec());
}

#[test]
fn seek_bounds() {
    assert_eq!(seek_position(SeekFrom::End(-1), 0, 5), Some(4));
    assert_eq!(seek_position(SeekFrom::End(0), 0, 5), Some(5));
    assert_eq!(seek_position(SeekFrom::Current(-10), 2, 5), None);
    assert_eq!(seek_position(SeekFrom::Current(2), 2, 5), Some(4));
    assert_eq!(seek_position(SeekFrom::Start(6), 0, 5), None);
    assert_eq!(seek_position(SeekFrom::Start(5), 0, 5), Some(5));
}

#[test]
fn replace_by_name_deletes_only_older_namesakes() {
    // P6: uploading a new /d/x leaves exactly the uploaded id named x.
    let children = vec![
        (FILE_ID.to_string(), Contents::File(mk_file(FILE_ID, "x", 1))),
        (FILE_ID2.to_string(), Contents::File(mk_file(FILE_ID2, "x", 2))),
        (SUB_ID.to_string(), Contents::File(mk_file(SUB_ID, "y", 3))),
    ];
    let doomed = ids_to_delete(&children, "x", FILE_ID2);
    assert_eq!(doomed, vec![FILE_ID.to_string()]);

    // A folder child of the same name is never deleted.
    let children = vec![
        (SUB_ID.to_string(), Contents::Folder(mk_folder(SUB_ID, "x", "c", vec![]))),
        (FILE_ID.to_string(), Contents::File(mk_file(FILE_ID, "x", 1))),
    ];
    let doomed = ids_to_delete(&children, "x", FILE_ID);
    assert_eq!(doomed, Vec::<String>::new());
}

#[test]
fn write_then_read_then_list() {
    // After `create file /d/x` with bytes B: reading gives exactly B,
    // and the listing holds exactly one entry named x.
    let plan = write_begin_plan("/d/x").unwrap();
    assert_eq!(plan.parent_path, "/d");
    assert_eq!(plan.filename, "x");

    let body = b"BBBB";
    let mut taker = ByteTaker::begin(body.to_vec(), body.len());
    assert!(taker.drain());
    let (got, _) = taker.finish();
    assert_eq!(got, body.to_vec());

    let uploaded = mk_file(FILE_ID, "x", body.len() as u64);
    let children = vec![(FILE_ID.to_string(), Contents::File(uploaded))];
    assert_eq!(ids_to_delete(&children, "x", FILE_ID), Vec::<String>::new());
    let named: Vec<&str> = children
        .iter()
        .filter_map(|(_, c)| match c {
            Contents::File(f) if f.name == "x" => Some(f.name.as_str()),
            _ => None,
        })
        .collect();
    assert_eq!(named.len(), 1);
}

#[test]
fn empty_file_upload_plan() {
    // P7: flushing a never-written stream synthesizes a zero-byte upload.
    assert!(matches!(flush_plan(false), FlushPlan::UploadEmpty));
    assert!(matches!(flush_plan(true), FlushPlan::AwaitUpload));
}

#[test]
fn path_components() {
    assert_eq!(path_file_name("/a/x.txt").as_deref(), Some("x.txt"));
    assert_eq!(path_file_name(""), None);
    assert_eq!(path_file_name("/a/"), None);
    assert_eq!(path_parent("/a/x.txt"), "/a");
    assert_eq!(path_parent("/x"), "");
    assert_eq!(path_parent("plain"), "");
}

#[test]
fn normalize_paths() {
    assert_eq!(normalize_path("/").as_deref(), Some(""));
    assert_eq!(normalize_path("/a/").as_deref(), Some("/a"));
    assert_eq!(normalize_path("a").as_deref(), Some("/a"));
    assert_eq!(normalize_path("/a%20b").as_deref(), Some("/a b"));
    assert_eq!(normalize_path("/bad%FF"), None);
}

#[test]
fn bypass_rewrite_marks_only_matches() {
    // P9: the child whose key occurs in the bypass link takes the proxy
    // link and the bypassed mark; no other child changes.
    let folder = mk_folder(ROOT_ID, "public", "pubcode", vec![
        (FILE_ID.to_string(), Contents::File(mk_file(FILE_ID, "file.bin", 9))),
        (FILE_ID2.to_string(), Contents::File(mk_file(FILE_ID2, "other.bin", 1))),
    ]);
    let bypass_files = vec![BypassFile {
        name: "file.bin".to_string(),
        size: 9,
        link: format!("https://store.example.org/{}/file.bin", FILE_ID),
        proxy_link: "https://proxy.example.org/p/file.bin".to_string(),
    }];
    let rewritten = apply_bypass(folder, &bypass_files);
    let f0 = match &rewritten.children[0].1 {
        Contents::File(f) => f,
        _ => panic!(),
    };
    assert!(f0.bypassed);
    assert_eq!(f0.link, "https://proxy.example.org/p/file.bin");
    let f1 = match &rewritten.children[1].1 {
        Contents::File(f) => f,
        _ => panic!(),
    };
    assert!(!f1.bypassed);
    assert_eq!(f1.link, format!("https://example.org/download/{}", "other.bin"));
}

#[test]
fn bypass_plan_rules() {
    let folder = mk_folder(ROOT_ID, "public", "pubcode", vec![(
        FILE_ID.to_string(),
        Contents::File(mk_file(FILE_ID, "file.bin", 9)),
    )]);
    match bypass_plan(&Contents::Folder(folder), true) {
        BypassPlan::FetchFolderBypass { code } => assert_eq!(code, "pubcode"),
        _ => panic!("expected a bypass fetch"),
    }

    let mut private_folder = mk_folder(ROOT_ID, "private", "c", vec![(
        FILE_ID.to_string(),
        Contents::File(mk_file(FILE_ID, "f", 1)),
    )]);
    private_folder.public = false;
    assert!(matches!(
        bypass_plan(&Contents::Folder(private_folder), true),
        BypassPlan::Keep
    ));

    let empty = mk_folder(ROOT_ID, "empty", "c", vec![]);
    assert!(matches!(bypass_plan(&Contents::Folder(empty), true), BypassPlan::Keep));

    let file = mk_file(FILE_ID, "f", 1);
    match bypass_plan(&Contents::File(file), true) {
        BypassPlan::ResolveParent { parent_id, file_id } => {
            assert_eq!(parent_id, "66666666-7777-8888-9999-000000000000");
            assert_eq!(file_id, FILE_ID);
        },
        _ => panic!("expected a parent resolution"),
    }

    let folder = mk_folder(ROOT_ID, "public", "pubcode", vec![(
        FILE_ID.to_string(),
        Contents::File(mk_file(FILE_ID, "f", 1)),
    )]);
    assert!(matches!(bypass_plan(&Contents::Folder(folder), false), BypassPlan::Keep));
}

#[test]
fn bypass_sibling_pick() {
    let parent = mk_folder(ROOT_ID, "p", "c", vec![
        (FILE_ID.to_string(), Contents::File(mk_file(FILE_ID, "a", 1))),
        (FILE_ID2.to_string(), Contents::File(mk_file(FILE_ID2, "b", 2))),
    ]);
    match pick_bypassed_sibling(parent, &FILE_ID2.to_string()) {
        Ok(Contents::File(f)) => assert_eq!(f.name, "b"),
        _ => panic!("expected the sibling"),
    }
    let parent = mk_folder(ROOT_ID, "p", "c", vec![]);
    assert!(pick_bypassed_sibling(parent, &FILE_ID.to_string()).is_err());
}

#[test]
fn bypass_retry_exhaustion_after_ten_attempts() {
    // P10: an endpoint that always answers with a broken proxy host
    // fails with the max-retries error after exactly ten attempts.
    let broken_body = r#"{"status":"ok","data":[
        {"name":"f","size":1,"link":"https://x/abc","proxyLink":"https://gf.cybar.xyz/f"}
    ]}"#;
    let mut gamble = bypass_gamble_new();
    let mut attempts = 0;
    let outcome = loop {
        attempts += 1;
        match bypass_gamble_step(&mut gamble, 200, broken_body, "pubcode") {
            None => continue,
            Some(outcome) => break outcome,
        }
    };
    assert_eq!(attempts, 10);
    match outcome {
        Err(GofileError::Unexpected { message }) => assert_eq!(
            message,
            "Max retries reached while fetching bypass files for folder pubcode"
        ),
        _ => panic!("expected the max-retries error"),
    }
}

#[test]
fn bypass_gamble_accepts_and_maps_502() {
    let good_body = r#"{"status":"ok","data":[
        {"name":"f","size":1,"link":"https://x/abc","proxyLink":"https://mirror.example.org/f"}
    ]}"#;
    let mut gamble = bypass_gamble_new();
    match bypass_gamble_step(&mut gamble, 200, good_body, "pubcode") {
        Some(Ok(files)) => {
            assert_eq!(files.len(), 1);
            assert_eq!(files[0].proxy_link, "https://mirror.example.org/f");
        },
        _ => panic!("expected the list"),
    }

    let mut gamble = bypass_gamble_new();
    match bypass_gamble_step(&mut gamble, 502, "", "pubcode") {
        Some(Err(GofileError::NotFound)) => {},
        _ => panic!("a 502 from the bypass maps to NotFound"),
    }
}

#[test]
fn assembly_raises_password_errors() {
    // P2, error side: a restricted top-level reply raises the matching
    // error from the fetch.
    let restricted = ContentsWithPassword::Restricted(ContentsRestricted::File(
        FileEntryRestricted {
            password_status: PasswordStatus::PasswordRequired,
            can_access: false,
            public: true,
        },
    ));
    match assemble_begin(restricted) {
        AssembleBegin::Fail(GofileError::PasswordRequired) => {},
        _ => panic!("expected PasswordRequired"),
    }
}

#[test]
fn assembly_collects_children() {
    let text = r#"{"status":"ok","data":{
        "canAccess": true,
        "id": "11111111-2222-3333-4444-555555555555",
        "type": "folder",
        "name": "a",
        "createTime": 1,
        "modTime": 2,
        "code": "abc123",
        "public": true,
        "totalSize": 5,
        "children": {
            "77777777-2222-3333-4444-555555555555": {
                "canAccess": true,
                "passwordStatus": "passwordRequired",
                "id": "77777777-2222-3333-4444-555555555555",
                "type": "folder",
                "name": "gated",
                "createTime": 1,
                "modTime": 2
            }
        }
    }}"#;
    let data = gofile_dav::envelope::parse_document(text).unwrap().into_result().unwrap();
    let cwp = gofile_dav::model::parse_cwp(&data).unwrap();
    let mut acc = match assemble_begin(cwp) {
        AssembleBegin::NeedChildren(acc) => acc,
        _ => panic!("expected a folder assembly"),
    };
    assert_eq!(acc.pending, vec![SUB_ID.to_string()]);
    let refetched = ContentsWithPassword::Accessible(ContentsOk::Folder(
        gofile_dav::model::FolderEntryOk {
            can_access: true,
            id: SUB_ID.to_string(),
            name: "gated".to_string(),
            create_time: 1,
            mod_time: 2,
            password: true,
            total_size: 0,
            code: "gatedcode".to_string(),
            public: false,
            parent_folder: None,
            is_owner: true,
            children: vec![],
        },
    ));
    assemble_child(&mut acc, SUB_ID.to_string(), Ok(refetched)).unwrap();
    let contents = assemble_finish(acc);
    match contents {
        Contents::Folder(f) => {
            assert_eq!(f.children.len(), 1);
            assert_eq!(f.children[0].0, SUB_ID);
        },
        _ => panic!("expected the folder"),
    }
}

#[test]
fn mkcol_is_idempotent() {
    // Creating an existing folder succeeds as a no-op.
    let parent = mk_folder(ROOT_ID, "a", "c", vec![]);
    match create_dir_plan(&parent, "sub") {
        CreateDirPlan::Create { parent_id } => assert_eq!(parent_id, ROOT_ID),
        _ => panic!("expected a creation"),
    }
    let parent = mk_folder(ROOT_ID, "a", "c", vec![(
        SUB_ID.to_string(),
        Contents::Folder(mk_folder(SUB_ID, "sub", "sc", vec![])),
    )]);
    assert!(matches!(create_dir_plan(&parent, "sub"), CreateDirPlan::AlreadyThere));
}

#[test]
fn rename_plans() {
    let from = Contents::File(mk_file(FILE_ID, "x.txt", 5));
    let to = Contents::File(mk_file(FILE_ID2, "y.txt", 7));
    match rename_plan(true, &from, Some(&to)) {
        RenamePlan::SimpleRename { delete_after } => {
            assert_eq!(delete_after, vec![FILE_ID2.to_string()])
        },
        _ => panic!("expected a replacing rename"),
    }
    match rename_plan(true, &from, None) {
        RenamePlan::SimpleRename { delete_after } => assert!(delete_after.is_empty()),
        _ => panic!("expected a plain rename"),
    }
    match rename_plan(false, &from, None) {
        RenamePlan::CopyDelete { delete_after } => {
            assert_eq!(delete_after, vec![FILE_ID.to_string()])
        },
        _ => panic!("expected a copy-then-delete"),
    }
    let dir_from = Contents::Folder(mk_folder(SUB_ID, "d", "c", vec![]));
    assert!(matches!(rename_plan(false, &dir_from, None), RenamePlan::NotImplemented));
    let dir_to = Contents::Folder(mk_folder(ROOT_ID, "e", "c2", vec![]));
    assert!(matches!(rename_plan(true, &dir_from, Some(&dir_to)), RenamePlan::Exists));
    assert!(matches!(rename_plan(true, &from, Some(&dir_to)), RenamePlan::GeneralFailure));
}

#[test]
fn remove_plans() {
    let file = Contents::File(mk_file(FILE_ID, "x", 1));
    assert_eq!(remove_plan(&file, false).unwrap(), FILE_ID);
    let empty_dir = Contents::Folder(mk_folder(SUB_ID, "d", "c", vec![]));
    assert_eq!(remove_plan(&empty_dir, true).unwrap(), SUB_ID);
    let full_dir = Contents::Folder(mk_folder(SUB_ID, "d", "c", vec![(
        FILE_ID.to_string(),
        Contents::File(mk_file(FILE_ID, "x", 1)),
    )]));
    assert!(matches!(remove_plan(&full_dir, true), Err(GofileError::Forbidden)));
    assert!(remove_plan(&file, true).is_err());
    assert!(remove_plan(&empty_dir, false).is_err());
}

#[test]
fn open_plans_and_read_only_mode() {
    assert!(matches!(open_plan(true, false, false, false), OpenPlan::OpenRead));
    assert!(matches!(open_plan(false, true, false, true), OpenPlan::OpenWrite));
    assert!(matches!(open_plan(false, true, true, true), OpenPlan::NotImplemented));
    assert!(matches!(open_plan(false, true, false, false), OpenPlan::Forbidden));
    assert!(matches!(open_plan(false, false, false, true), OpenPlan::Forbidden));
    assert!(matches!(mutation_allowed(false), Err(GofileError::Forbidden)));
    assert!(matches!(mutation_allowed(true), Ok(())));
}

#[test]
fn error_kinds_for_webdav() {
    assert!(matches!(fs_error_kind(&GofileError::NotFound), FsErrorKind::NotFound));
    assert!(matches!(fs_error_kind(&GofileError::Forbidden), FsErrorKind::Forbidden));
    assert!(matches!(fs_error_kind(&GofileError::PasswordRequired), FsErrorKind::Forbidden));
    assert!(matches!(fs_error_kind(&GofileError::PasswordWrong), FsErrorKind::Forbidden));
    assert!(matches!(
        fs_error_kind(&GofileError::Api { status: "error-x".to_string() }),
        FsErrorKind::GeneralFailure
    ));
    assert!(matches!(
        fs_error_kind(&GofileError::Io { message: "broken pipe".to_string() }),
        FsErrorKind::Io
    ));
}

#[test]
fn expect_folder_rejects_files() {
    let folder = mk_folder(ROOT_ID, "a", "c", vec![]);
    assert!(expect_folder(Contents::Folder(folder), "/a").is_ok());
    let file = Contents::File(mk_file(FILE_ID, "x", 1));
    assert!(expect_folder(file, "/a/x").is_err());
}

#[test]
fn validate_root_rules() {
    let folder = Contents::Folder(mk_folder(ROOT_ID, "root", "rootcode", vec![]));
    let accepted = validate_root(&folder, true, false).unwrap();
    assert_eq!(accepted.code, "rootcode");
    assert!(!accepted.warn_owned_password);

    let accepted = validate_root(&folder, false, true).unwrap();
    assert!(accepted.warn_owned_password);

    let mut foreign = mk_folder(ROOT_ID, "root", "rootcode", vec![]);
    foreign.is_owner = false;
    assert!(validate_root(&Contents::Folder(foreign), true, false).is_err());

    let file = Contents::File(mk_file(FILE_ID, "x", 1));
    assert!(validate_root(&file, false, false).is_err());
}

#[test]
fn wt_token_scrape() {
    let body = "var x = 1; appdata.wt = \"4fd6sg89d7s6\"; appdata.other = 2;";
    assert_eq!(wt_extract(body).as_deref(), Some("4fd6sg89d7s6"));
    assert_eq!(wt_extract("no marker here"), None);
    let unterminated = "appdata.wt = \"abc";
    assert_eq!(wt_extract(unterminated).as_deref(), Some("abc"));
}

#[test]
fn join_ids_for_batch_delete() {
    assert_eq!(join_ids(&vec![]), "");
    assert_eq!(join_ids(&vec!["a".to_string()]), "a");
    assert_eq!(
        join_ids(&vec!["a".to_string(), "b".to_string(), "c".to_string()]),
        "a,b,c"
    );
}

#[test]
fn payload_bodies() {
    let body = json_to_text(&CreateFolderPayload {
        folder_name: "sub".to_string(),
        parent_folder_id: ROOT_ID.to_string(),
    }
        .to_json());
    assert_eq!(
        body,
        format!(r#"{{"folderName":"sub","parentFolderId":"{}"}}"#, ROOT_ID)
    );
    let body = json_to_text(&Attribute::Name("y.txt".to_string()).to_json());
    assert_eq!(body, r#"{"attribute":"name","attributeValue":"y.txt"}"#);
    let body = json_to_text(&DeleteContentsPayload { contents_id: "a,b".to_string() }.to_json());
    assert_eq!(body, r#"{"contentsId":"a,b"}"#);
}

#[test]
fn reply_decoders() {
    let guest = r#"{"id":"acc1","rootFolder":"6c9e22a7-7d6c-4986-8e93-b118558be0bb","tier":"guest","token":"tokvalue123"}"#;
    let data = parse_json(guest).unwrap();
    let account = parse_guest_account(&data).unwrap();
    assert_eq!(account.root_folder, ROOT_ID);
    assert_eq!(account.token, "tokvalue123");

    let info = r#"{"id":"acc1","rootFolder":"6c9e22a7-7d6c-4986-8e93-b118558be0bb","tier":"guest","token":"tokvalue123","email":"guest@example.org"}"#;
    let data = parse_json(info).unwrap();
    let account = parse_account_info(&data).unwrap();
    assert_eq!(account.email, "guest@example.org");

    let uploaded = r#"{"createTime":1,"downloadPage":"https://example.org/d/abc","id":"99999999-2222-3333-4444-555555555555","md5":"m","mimetype":"application/octet-stream","modTime":1,"name":"new.bin","parentFolder":"6c9e22a7-7d6c-4986-8e93-b118558be0bb","parentFolderCode":"Veil7n","servers":["store1"],"size":4,"type":"file"}"#;
    let data = parse_json(uploaded).unwrap();
    let confirmation = parse_file_uploaded(&data).unwrap();
    assert_eq!(confirmation.id, FILE_ID);
    assert_eq!(confirmation.size, 4);
}

#[test]
fn seek_at_largest_size() {
    assert_eq!(seek_position(SeekFrom::Start(u64::MAX), 0, u64::MAX), Some(u64::MAX));
    assert_eq!(seek_position(SeekFrom::End(0), 0, u64::MAX), Some(u64::MAX));
    assert_eq!(seek_position(SeekFrom::Current(1), u64::MAX, u64::MAX), None);
}

#[test]
fn assembly_raises_password_wrong() {
    let restricted = ContentsWithPassword::Restricted(ContentsRestricted::File(
        FileEntryRestricted {
            password_status: PasswordStatus::PasswordWrong,
            can_access: false,
            public: true,
        },
    ));
    match assemble_begin(restricted) {
        AssembleBegin::Fail(GofileError::PasswordWrong) => {},
        _ => panic!("expected PasswordWrong"),
    }
}

#[test]
fn bypass_attempt_undecodable_body() {
    let mut gamble = bypass_gamble_new();
    match bypass_gamble_step(&mut gamble, 200, "not json at all", "c") {
        Some(Err(GofileError::Http { message })) => {
            assert_eq!(message, "failed to decode the reply body")
        },
        _ => panic!("expected a transport-kind failure"),
    }
}

#[test]
fn update_confirmation_decodes_both_forms() {
    let file_text = format!(
        r#"{{"type":"file","createTime":1,"id":"{}","md5":"m","mimetype":"text/plain","modTime":2,"name":"y.txt","parentFolder":"{}"}}"#,
        FILE_ID, ROOT_ID
    );
    let data = parse_json(&file_text).unwrap();
    match parse_contents_updated(&data).unwrap() {
        ContentsUpdated::File(f) => {
            assert_eq!(f.id, FILE_ID);
            assert_eq!(f.name, "y.txt");
            assert_eq!(f.parent_folder, ROOT_ID);
        },
        _ => panic!("expected the file form"),
    }

    let folder_text = format!(
        r#"{{"type":"folder","createTime":1,"id":"{}","modTime":2,"name":"sub","parentFolder":"{}"}}"#,
        SUB_ID, ROOT_ID
    );
    let data = parse_json(&folder_text).unwrap();
    match parse_contents_updated(&data).unwrap() {
        ContentsUpdated::Folder(f) => {
            assert_eq!(f.id, SUB_ID);
            assert_eq!(f.name, "sub");
        },
        _ => panic!("expected the folder form"),
    }

    let bad_id = r#"{"type":"file","createTime":1,"id":"nope","md5":"m","mimetype":"m","modTime":2,"name":"n","parentFolder":"also-nope"}"#;
    assert!(parse_contents_updated(&parse_json(bad_id).unwrap()).is_err());
    let bad_tag = r#"{"type":"thing","createTime":1,"id":"x","modTime":2,"name":"n","parentFolder":"p"}"#;
    assert!(parse_contents_updated(&parse_json(bad_tag).unwrap()).is_err());
    let missing = format!(r#"{{"type":"folder","id":"{}"}}"#, SUB_ID);
    assert!(parse_contents_updated(&parse_json(&missing).unwrap()).is_err());
}

#[test]
fn delete_reply_decodes_per_id_results() {
    let text = format!(
        r#"{{"{}":{{"status":"ok","data":null}},"{}":{{"status":"error-notFound"}}}}"#,
        FILE_ID, FILE_ID2
    );
    let data = parse_json(&text).unwrap();
    let results = parse_delete_results(data).unwrap();
    assert_eq!(results.len(), 2);
    // serde_json objects iterate sorted by key, so FILE_ID2 comes first.
    assert_eq!(results[0].0, FILE_ID2);
    assert!(matches!(results[0].1, ApiResponse::NotFound));
    assert_eq!(results[1].0, FILE_ID);
    assert!(matches!(results[1].1, ApiResponse::Success { .. }));

    // A member that is no reply envelope fails the whole decode.
    let bad = format!(r#"{{"{}":{{"verde":true}}}}"#, FILE_ID);
    assert!(parse_delete_results(parse_json(&bad).unwrap()).is_err());
    // The payload must be an object.
    assert!(parse_delete_results(parse_json("[1]").unwrap()).is_err());
}

#[test]
fn digest_password_is_hex() {
    let digest = gofile_dav::config::digest_password("secret");
    assert_eq!(digest.len(), 64);
    assert!(digest.chars().all(|c| c.is_ascii_hexdigit()));
    assert_eq!(digest, gofile_dav::config::digest_password("secret"));
    assert_ne!(digest, gofile_dav::config::digest_password("other"));
}
