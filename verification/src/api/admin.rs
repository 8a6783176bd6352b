//! Requests of the site administration API.

use vstd::prelude::*;

verus! {

#[derive(Debug)]
pub struct UpdateUserRequest {
    pub display_name: Option<String>,
    pub bio: Option<String>,
    pub is_admin: Option<bool>,
    pub is_active: Option<bool>,
}

#[derive(Debug)]
pub struct UpsertSsoProviderRequest {
    pub name: String,
    pub slug: String,
    pub provider_type: String,
    pub client_id: Option<String>,
    pub client_secret: Option<String>,
    pub discovery_url: Option<String>,
    pub scopes: Option<String>,
    pub ldap_host: Option<String>,
    pub ldap_port: Option<i32>,
    pub ldap_bind_dn: Option<String>,
    pub ldap_bind_password: Option<String>,
    pub ldap_base_dn: Option<String>,
    pub ldap_user_filter: Option<String>,
    pub enabled: bool,
    pub icon_url: Option<String>,
}

} // verus!
