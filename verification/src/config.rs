//! The gateway's configuration and the startup checks on the resolved
//! root folder.

use vstd::prelude::*;
use crate::error::{ErrModel, GofileError};
use crate::model::Contents;
use crate::strutil::concat2;
use crate::webtext::{sha256_hex, sha256_hex_of};

verus! {

/// What the gateway runs with. The password, when set, is already the
/// hex digest the remote expects (see [`digest_password`]).
pub struct Config {
    pub root_id: Option<String>,
    pub api_token: Option<String>,
    pub password: Option<String>,
    pub host: String,
    pub port: u16,
    pub bypass: bool,
    pub write_enabled: bool,
}

/// Digests a plaintext folder password into the hex form the remote
/// expects.
pub fn digest_password(password: &str) -> (r: String)
    ensures
        r@ == sha256_hex_of(password@),
{
    sha256_hex(password)
}

/// The accepted root folder, and whether to warn that a password was
/// configured although the folder is owned (the remote ignores it for
/// owners).
pub struct RootAccepted {
    pub code: String,
    pub warn_owned_password: bool,
}

/// The startup checks on the entry the configured root id resolves to:
/// a file cannot be a mount root, and write mode demands an owned
/// folder. The accepted root's code seeds the directory cache.
pub fn validate_root(contents: &Contents, write_enabled: bool, password_set: bool) -> (r: Result<
    RootAccepted,
    GofileError,
>)
    ensures
        match contents {
            Contents::File(f) => (r matches Err(e) && e@ == ErrModel::Unexpected(
                "Expected folder but got file "@ + f.id@,
            )),
            Contents::Folder(f) => if write_enabled && !f.is_owner {
                (r matches Err(e) && e@ == ErrModel::Unexpected(
                    "Write can be used only on an owned folder"@,
                ))
            } else {
                (r matches Ok(a) && a.code@ == f.code@ && a.warn_owned_password == (
                password_set && f.is_owner))
            },
        },
{
    match contents {
        Contents::File(f) => {
            let message = concat2("Expected folder but got file ", f.id.as_str());
            Err(GofileError::Unexpected { message })
        },
        Contents::Folder(f) => {
            if write_enabled && !f.is_owner {
                Err(
                    GofileError::Unexpected {
                        message: "Write can be used only on an owned folder".to_owned(),
                    },
                )
            } else {
                Ok(
                    RootAccepted {
                        code: f.code.clone(),
                        warn_owned_password: password_set && f.is_owner,
                    },
                )
            }
        },
    }
}

} // verus!
