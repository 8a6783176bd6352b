//! Multi-factor authentication.

use vstd::prelude::*;

verus! {

#[derive(Debug)]
pub struct SetupMfaResponse {
    pub secret: String,
    pub otpauth_url: String,
    pub qr_svg: String,
}

#[derive(Debug)]
pub struct EnableMfaRequest {
    pub code: String,
}

#[derive(Debug)]
pub struct EnableMfaResponse {
    pub enabled: bool,
    pub backup_codes: Vec<String>,
}

#[derive(Debug)]
pub struct VerifyMfaRequest {
    pub username: String,
    pub code: String,
    /// If true, verify using a backup code instead of TOTP
    pub backup: bool,
}

#[derive(Debug)]
pub struct VerifyMfaResponse {
    pub token: String,
    pub user_id: i64,
    pub username: String,
}

#[derive(Debug)]
pub struct DisableMfaRequest {
    pub password: String,
}

} // verus!
