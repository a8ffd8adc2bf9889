//! The remote's reply envelope: `{ "status": S, "data": D }`. The decoder
//! recognizes the success statuses and the documented error statuses, and
//! preserves any other status string verbatim.

use vstd::prelude::*;
use crate::error::{ErrModel, GofileError};
use crate::json::{Json, JVal, obj_lookup, jobj_view, obj_get, obj_find_idx};
use crate::jsontext::{json_doc_of, parse_json};
use crate::strutil::str_eq;

verus! {

/// A decoded reply envelope. `Success` carries the raw `data` payload;
/// the remaining variants mirror the recognized error statuses.
pub enum ApiResponse {
    Success { data: Json },
    NotFound,
    RateLimit,
    InvalidToken,
    NotPremium,
    Other { status: String },
}

/// Ghost model of a decoded envelope.
pub enum RespModel {
    Success { data: JVal },
    NotFound,
    RateLimit,
    InvalidToken,
    NotPremium,
    Other { status: Seq<char> },
}

impl View for ApiResponse {
    type V = RespModel;

    open spec fn view(&self) -> RespModel {
        match *self {
            ApiResponse::Success { data } => RespModel::Success { data: data@ },
            ApiResponse::NotFound => RespModel::NotFound,
            ApiResponse::RateLimit => RespModel::RateLimit,
            ApiResponse::InvalidToken => RespModel::InvalidToken,
            ApiResponse::NotPremium => RespModel::NotPremium,
            ApiResponse::Other { status } => RespModel::Other { status: status@ },
        }
    }
}

/// Why a document failed to decode.
#[derive(Debug)]
pub enum DecodeFault {
    /// The text is not well-formed JSON.
    NotJson,
    /// The document is not a JSON object.
    NotObject,
    /// The document has no `status` member.
    MissingStatus,
    /// The `status` member is not a string.
    StatusNotString,
    /// A success status without a `data` member.
    MissingData,
    /// A payload whose shape does not fit the expected content.
    BadPayload,
}

/// How a status string and the optional `data` member decode.
pub open spec fn status_to_resp(st: Seq<char>, data: Option<JVal>) -> Result<
    RespModel,
    DecodeFault,
> {
    if st == "ok"@ || st == "success"@ {
        match data {
            Some(d) => Ok(RespModel::Success { data: d }),
            None => Err(DecodeFault::MissingData),
        }
    } else if st == "error-notFound"@ {
        Ok(RespModel::NotFound)
    } else if st == "error-rateLimit"@ {
        Ok(RespModel::RateLimit)
    } else if st == "error-token"@ {
        Ok(RespModel::InvalidToken)
    } else if st == "error-notPremium"@ {
        Ok(RespModel::NotPremium)
    } else {
        Ok(RespModel::Other { status: st })
    }
}

/// How a whole document decodes as an envelope.
pub open spec fn parse_envelope_spec(doc: JVal) -> Result<RespModel, DecodeFault> {
    match doc {
        JVal::Obj(entries) => match obj_lookup(entries, "status"@) {
            None => Err(DecodeFault::MissingStatus),
            Some(sv) => match sv {
                JVal::Str(st) => status_to_resp(st, obj_lookup(entries, "data"@)),
                _ => Err(DecodeFault::StatusNotString),
            },
        },
        _ => Err(DecodeFault::NotObject),
    }
}

/// Decodes the reply envelope of a parsed document: the recognized status
/// strings yield their variants, an unknown status is preserved in
/// `Other`, and a document that is no object or has no string `status`
/// fails.
pub fn parse_api_response(doc: Json) -> (r: Result<ApiResponse, DecodeFault>)
    ensures
        match r {
            Ok(resp) => parse_envelope_spec(doc@) == Ok::<RespModel, DecodeFault>(resp@),
            Err(f) => parse_envelope_spec(doc@) == Err::<RespModel, DecodeFault>(f),
        },
{
    match doc {
        Json::Obj(mut entries) => {
            let status: String = match obj_get(&entries, "status") {
                None => {
                    return Err(DecodeFault::MissingStatus);
                },
                Some(sv) => match sv {
                    Json::Str(st) => st.clone(),
                    _ => {
                        return Err(DecodeFault::StatusNotString);
                    },
                },
            };
            let st = status.as_str();
            if str_eq(st, "ok") || str_eq(st, "success") {
                match obj_find_idx(&entries, "data") {
                    None => Err(DecodeFault::MissingData),
                    Some(i) => {
                        let pair = entries.remove(i);
                        Ok(ApiResponse::Success { data: pair.1 })
                    },
                }
            } else if str_eq(st, "error-notFound") {
                Ok(ApiResponse::NotFound)
            } else if str_eq(st, "error-rateLimit") {
                Ok(ApiResponse::RateLimit)
            } else if str_eq(st, "error-token") {
                Ok(ApiResponse::InvalidToken)
            } else if str_eq(st, "error-notPremium") {
                Ok(ApiResponse::NotPremium)
            } else {
                Ok(ApiResponse::Other { status })
            }
        },
        _ => Err(DecodeFault::NotObject),
    }
}

/// Parses a reply body and decodes its envelope. Malformed JSON is
/// `NotJson`; everything else is as [`parse_api_response`].
pub fn parse_document(text: &str) -> (r: Result<ApiResponse, DecodeFault>)
    ensures
        match json_doc_of(text@) {
            None => r == Err::<ApiResponse, DecodeFault>(DecodeFault::NotJson),
            Some(doc) => match r {
                Ok(resp) => parse_envelope_spec(doc) == Ok::<RespModel, DecodeFault>(resp@),
                Err(f) => f != DecodeFault::NotJson && parse_envelope_spec(doc) == Err::<
                    RespModel,
                    DecodeFault,
                >(f),
            },
        },
{
    match parse_json(text) {
        None => Err(DecodeFault::NotJson),
        Some(doc) => parse_api_response(doc),
    }
}

/// The payload or error a decoded envelope denotes.
pub open spec fn resp_to_result_spec(m: RespModel) -> Result<JVal, ErrModel> {
    match m {
        RespModel::Success { data } => Ok(data),
        RespModel::NotFound => Err(ErrModel::NotFound),
        RespModel::RateLimit => Err(ErrModel::Api("error-rateLimit"@)),
        RespModel::InvalidToken => Err(ErrModel::Api("error-token"@)),
        RespModel::NotPremium => Err(ErrModel::Api("error-notPremium"@)),
        RespModel::Other { status } => Err(ErrModel::Api(status)),
    }
}

impl ApiResponse {
    /// Turns a decoded envelope into the payload or the error it denotes:
    /// `NotFound` keeps its kind, every other error status becomes an
    /// `Api` error carrying that status string.
    pub fn into_result(self) -> (r: Result<Json, GofileError>)
        ensures
            match r {
                Ok(d) => resp_to_result_spec(self@) == Ok::<JVal, ErrModel>(d@),
                Err(e) => resp_to_result_spec(self@) == Err::<JVal, ErrModel>(e@),
            },
    {
        match self {
            ApiResponse::Success { data } => Ok(data),
            ApiResponse::NotFound => Err(GofileError::NotFound),
            ApiResponse::RateLimit => Err(
                GofileError::Api { status: "error-rateLimit".to_owned() },
            ),
            ApiResponse::InvalidToken => Err(
                GofileError::Api { status: "error-token".to_owned() },
            ),
            ApiResponse::NotPremium => Err(
                GofileError::Api { status: "error-notPremium".to_owned() },
            ),
            ApiResponse::Other { status } => Err(GofileError::Api { status }),
        }
    }
}

} // verus!
