//! Types of the login collaborator's QR-code flow: the issued QR code and
//! the polled status, merged from the envelope and its payload.
use vstd::prelude::*;

use crate::responses::{CookieInfoRespData, TokenInfoRespData};

verus! {

/// An issued login QR code: the rendered image as base64 and the code to
/// poll with.
#[derive(Clone, Debug, PartialEq)]
pub struct QrcodeData {
    pub base64: String,
    pub auth_code: String,
}

/// The payload of one poll of the app QR-code endpoint.
#[derive(Clone, Debug, PartialEq)]
pub struct AppQrcodeStatusRespData {
    pub is_new: bool,
    pub mid: i64,
    pub access_token: String,
    pub refresh_token: String,
    pub expires_in: i64,
    pub token_info: TokenInfoRespData,
    pub cookie_info: CookieInfoRespData,
    pub sso: Vec<String>,
}

/// The merged QR-poll status the UI sees: the envelope's code and message
/// beside the payload fields.
#[derive(Clone, Debug, PartialEq)]
pub struct QrcodeStatus {
    pub code: i64,
    pub message: String,
    pub is_new: bool,
    pub mid: i64,
    pub access_token: String,
    pub refresh_token: String,
    pub expires_in: i64,
    pub token_info: TokenInfoRespData,
    pub cookie_info: CookieInfoRespData,
    pub sso: Vec<String>,
}

impl QrcodeStatus {
    /// Merge the envelope's code and message with the poll payload.
    pub fn from(code: i64, message: String, data: AppQrcodeStatusRespData) -> (r: QrcodeStatus)
        ensures
            r.code == code,
            r.message == message,
            r.is_new == data.is_new,
            r.mid == data.mid,
            r.access_token == data.access_token,
            r.refresh_token == data.refresh_token,
            r.expires_in == data.expires_in,
            r.token_info == data.token_info,
            r.cookie_info == data.cookie_info,
            r.sso == data.sso,
    {
        QrcodeStatus {
            code,
            message,
            is_new: data.is_new,
            mid: data.mid,
            access_token: data.access_token,
            refresh_token: data.refresh_token,
            expires_in: data.expires_in,
            token_info: data.token_info,
            cookie_info: data.cookie_info,
            sso: data.sso,
        }
    }
}

} // verus!
