use gofile_dav::envelope::{parse_document, ApiResponse};
use gofile_dav::error::GofileError;
use gofile_dav::model::{
    check_uuid, parse_cwp, ContentsOk, ContentsRestricted, ContentsWithPassword, IdOrCode,
    PasswordStatus,
};

fn decode_contents(text: &str) -> Result<ContentsWithPassword, GofileError> {
    let data = parse_document(text)
        .map_err(|_| GofileError::Http { message: "undecodable body".to_string() })?
        .into_result()?;
    parse_cwp(&data).map_err(|_| GofileError::Http { message: "undecodable body".to_string() })
}

#[test]
fn test_ok_api_response() {
    let text = r#"{
        "status": "ok",
        "data": {
            "canAccess": true,
            "id": "6c9e22a7-7d6c-4986-8e93-b118558be0bb",
            "type": "folder",
            "name": "root",
            "createTime": 1719990416,
            "modTime": 1719990416,
            "code": "Veil7n",
            "public": false,
            "totalDownloadCount": 0,
            "totalSize": 0,
            "childrenCount": 0,
            "children": {}
        }
    }"#;

    let parsed = decode_contents(text).unwrap();

    let folder_ok = if let ContentsWithPassword::Accessible(contents) = parsed {
        if let ContentsOk::Folder(folder) = contents {
            folder
        } else {
            panic!("expected ContentsWithPassword::ContentsOk::Folder");
        }
    } else {
        panic!("expected ContentsWithPassword::ContentsOk::Folder");
    };

    assert!(folder_ok.can_access);
    assert_eq!(folder_ok.id, "6c9e22a7-7d6c-4986-8e93-b118558be0bb");
    assert_eq!(folder_ok.name, "root");
    assert_eq!(folder_ok.create_time, 1719990416);
    assert_eq!(folder_ok.mod_time, 1719990416);
    assert_eq!(folder_ok.code, "Veil7n");
    assert_eq!(folder_ok.public, false);
    assert_eq!(folder_ok.total_size, 0);
    assert!(folder_ok.children.is_empty());
}

#[test]
fn test_other_api_response() {
    let text = r#"{"status":"error-notPremium","data":{}}"#;
    let parsed = parse_document(text).unwrap();

    assert!(
        matches!(parsed, ApiResponse::NotPremium),
        "expected ApiResponse::NotPremium",
    )
}

#[test]
fn test_unexpected_api_response() {
    for input in [r#"{"verde": true}"#, r#""#] {
        let result = parse_document(input);
        assert!(result.is_err());
    }
}

#[test]
fn test_folder_with_password_required() {
    for (input, expected) in [
        ("passwordRequired", PasswordStatus::PasswordRequired),
        ("passwordWrong", PasswordStatus::PasswordWrong),
    ] {
        let text = format!(
            r#"{{
            "status": "ok",
            "data": {{
                "canAccess": false,
                "password": true,
                "passwordStatus": "{}",
                "id": "a02b79ff-ae05-4c73-9861-81be0224e65b",
                "type": "folder",
                "name": "TestFolder",
                "createTime": 1762184779,
                "modTime": 1762186199
            }},
            "metadata": {{}}
        }}"#,
            input
        );
        let parsed = decode_contents(&text).unwrap();
        let restricted_folder = if let ContentsWithPassword::Restricted(
            ContentsRestricted::Folder(folder),
        ) = parsed
        {
            folder
        } else {
            panic!("expected ContentsWithPassword::ContentsRestricted::Folder");
        };

        assert_eq!(restricted_folder.password_status, expected);
        assert_eq!(restricted_folder.id, "a02b79ff-ae05-4c73-9861-81be0224e65b");
        assert_eq!(restricted_folder.can_access, false);
        assert_eq!(restricted_folder.name, "TestFolder");
        assert_eq!(restricted_folder.create_time, 1762184779);
        assert_eq!(restricted_folder.mod_time, 1762186199);
    }
}

#[test]
fn test_file_with_password_required() {
    for (input, expected) in [
        ("passwordRequired", PasswordStatus::PasswordRequired),
        ("passwordWrong", PasswordStatus::PasswordWrong),
    ] {
        let text = format!(
            r#"{{
            "status": "ok",
            "data": {{
                "canAccess": false,
                "password": true,
                "passwordStatus": "{}"
            }},
            "metadata": {{}}
        }}"#,
            input
        );
        let parsed = decode_contents(&text).unwrap();
        let restricted_file =
            if let ContentsWithPassword::Restricted(ContentsRestricted::File(file)) = parsed {
                file
            } else {
                panic!("expected ContentsWithPassword::ContentsRestricted::File");
            };

        assert_eq!(restricted_file.password_status, expected);
        assert_eq!(restricted_file.can_access, false);
    }
}

#[test]
fn test_envelope_statuses_round_trip() {
    let ok = parse_document(r#"{"status":"ok","data":1}"#).unwrap();
    assert!(matches!(ok, ApiResponse::Success { .. }));
    let success = parse_document(r#"{"status":"success","data":[]}"#).unwrap();
    assert!(matches!(success, ApiResponse::Success { .. }));
    let nf = parse_document(r#"{"status":"error-notFound"}"#).unwrap();
    assert!(matches!(nf, ApiResponse::NotFound));
    let rl = parse_document(r#"{"status":"error-rateLimit"}"#).unwrap();
    assert!(matches!(rl, ApiResponse::RateLimit));
    let tok = parse_document(r#"{"status":"error-token"}"#).unwrap();
    assert!(matches!(tok, ApiResponse::InvalidToken));
    let np = parse_document(r#"{"status":"error-notPremium"}"#).unwrap();
    assert!(matches!(np, ApiResponse::NotPremium));
    let other = parse_document(r#"{"status":"error-somethingNew"}"#).unwrap();
    match other {
        ApiResponse::Other { status } => assert_eq!(status, "error-somethingNew"),
        _ => panic!("expected the unknown status to be preserved"),
    }
}

#[test]
fn test_envelope_missing_status_fails() {
    assert!(parse_document(r#"{"data":{}}"#).is_err());
    assert!(parse_document(r#"{}"#).is_err());
    assert!(parse_document(r#"{"status":5,"data":{}}"#).is_err());
    assert!(parse_document(r#"{"status":"ok"}"#).is_err());
    assert!(parse_document(r#"[1,2,3]"#).is_err());
}

#[test]
fn test_into_result_errors() {
    let rl = parse_document(r#"{"status":"error-rateLimit"}"#).unwrap();
    match rl.into_result() {
        Err(GofileError::Api { status }) => assert_eq!(status, "error-rateLimit"),
        _ => panic!("expected an Api error carrying the status"),
    }
    let nf = parse_document(r#"{"status":"error-notFound"}"#).unwrap();
    assert!(matches!(nf.into_result(), Err(GofileError::NotFound)));
    let other = parse_document(r#"{"status":"error-x"}"#).unwrap();
    match other.into_result() {
        Err(GofileError::Api { status }) => assert_eq!(status, "error-x"),
        _ => panic!("expected an Api error carrying the status"),
    }
}

#[test]
fn test_tagged_content_parse() {
    let file_text = r#"{"status":"ok","data":{
        "canAccess": true,
        "id": "11111111-2222-3333-4444-555555555555",
        "type": "file",
        "name": "x.txt",
        "createTime": 1,
        "modTime": 2,
        "size": 5,
        "md5": "d41d8cd98f00b204e9800998ecf8427e",
        "link": "https://example.org/download/x.txt",
        "servers": ["store1"],
        "parentFolder": "66666666-7777-8888-9999-000000000000",
        "mimetype": "text/plain"
    }}"#;
    let parsed = decode_contents(file_text).unwrap();
    let file = match parsed {
        ContentsWithPassword::Accessible(ContentsOk::File(f)) => f,
        _ => panic!("expected a file"),
    };
    assert_eq!(file.name, "x.txt");
    assert_eq!(file.size, 5);
    assert!(!file.password);
    assert!(!file.is_frozen);
    assert!(!file.bypassed);
    assert_eq!(file.mimetype.as_deref(), Some("text/plain"));
    assert_eq!(file.servers, vec!["store1".to_string()]);

    let folder_with_children = r#"{"status":"ok","data":{
        "canAccess": true,
        "id": "11111111-2222-3333-4444-555555555555",
        "type": "folder",
        "name": "a",
        "createTime": 1,
        "modTime": 2,
        "code": "abc123",
        "public": true,
        "totalSize": 5,
        "children": {
            "99999999-2222-3333-4444-555555555555": {
                "canAccess": true,
                "id": "99999999-2222-3333-4444-555555555555",
                "type": "file",
                "name": "x.txt",
                "createTime": 1,
                "modTime": 2,
                "size": 5,
                "md5": "d41d8cd98f00b204e9800998ecf8427e",
                "link": "https://example.org/download/x.txt",
                "servers": [],
                "parentFolder": "11111111-2222-3333-4444-555555555555"
            }
        }
    }}"#;
    let parsed = decode_contents(folder_with_children).unwrap();
    let folder = match parsed {
        ContentsWithPassword::Accessible(ContentsOk::Folder(f)) => f,
        _ => panic!("expected a folder"),
    };
    assert_eq!(folder.children.len(), 1);
    let (key, child) = &folder.children[0];
    assert_eq!(key, "99999999-2222-3333-4444-555555555555");
    match child {
        ContentsWithPassword::Accessible(ContentsOk::File(f)) => {
            assert_eq!(f.name, "x.txt")
        },
        _ => panic!("expected a file child"),
    }

    let bad_tag = r#"{"status":"ok","data":{"type":"thing"}}"#;
    assert!(decode_contents(bad_tag).is_err());
}

#[test]
fn test_file_entry_rejects_bad_id() {
    let text = r#"{"status":"ok","data":{
        "canAccess": true,
        "id": "not-a-uuid",
        "type": "file",
        "name": "x",
        "createTime": 1,
        "modTime": 2,
        "size": 5,
        "md5": "m",
        "link": "https://example.org/x",
        "servers": [],
        "parentFolder": "p"
    }}"#;
    assert!(decode_contents(text).is_err());
}

#[test]
fn test_check_uuid_forms() {
    assert!(check_uuid("6c9e22a7-7d6c-4986-8e93-b118558be0bb"));
    assert!(check_uuid("6C9E22A7-7D6C-4986-8E93-B118558BE0BB"));
    assert!(!check_uuid("6c9e22a7-7d6c-4986-8e93-b118558be0b"));
    assert!(!check_uuid("6c9e22a7x7d6c-4986-8e93-b118558be0bb"));
    assert!(!check_uuid("Veil7n"));
    assert!(!check_uuid(""));
}

#[test]
fn test_id_or_code_classification() {
    let id = IdOrCode::from_text("6c9e22a7-7d6c-4986-8e93-b118558be0bb");
    assert!(matches!(id, IdOrCode::Uuid4 { .. }));
    assert_eq!(id.display(), "6c9e22a7-7d6c-4986-8e93-b118558be0bb");
    let code = IdOrCode::from_text("Veil7n");
    assert!(matches!(code, IdOrCode::Code { .. }));
    assert_eq!(code.display(), "Veil7n");
}
