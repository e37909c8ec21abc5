//! Server settings and system figures: the configuration entries kept in the
//! database, and the integer arithmetic of the monitor.
use vstd::prelude::*;

use crate::access::{require_admin, ApiError, AuthenticatedUser, BAD_REQUEST, FORBIDDEN};
use crate::text::{byte_len, chars_of, concat, owned};

verus! {

/// Server configuration entry.
pub struct ConfigEntry {
    pub key: String,
    pub value: String,
    pub description: Option<String>,
    pub updated_at: String,
}

/// Request to update a configuration value.
pub struct UpdateConfigRequest {
    pub key: String,
    pub value: String,
    pub description: Option<String>,
}

/// Network interface statistics.
pub struct NetworkInterface {
    pub name: String,
    pub received_bytes: u64,
    pub transmitted_bytes: u64,
    pub received_packets: u64,
    pub transmitted_packets: u64,
}

/// The checks of a configuration update: admins only (`403`); a key of 1 to 128
/// bytes and a value of at most 4096 bytes (`400`).
pub fn check_config_update(user: &AuthenticatedUser, req: &UpdateConfigRequest) -> (r: Result<
    (),
    ApiError,
>)
    ensures
        !crate::access::is_admin(user.role@) ==> (r matches Err(e) && e.is(
            FORBIDDEN,
            "Admin access required to modify configuration"@,
        )),
        crate::access::is_admin(user.role@) && (req.key@.len() == 0 || byte_len(req.key@) > 128)
            ==> (r matches Err(e) && e.is(BAD_REQUEST, "Configuration key must be 1-128 characters"@)),
        crate::access::is_admin(user.role@) && req.key@.len() > 0 && byte_len(req.key@) <= 128
            && byte_len(req.value@) > 4096 ==> (r matches Err(e) && e.is(
            BAD_REQUEST,
            "Configuration value must not exceed 4096 characters"@,
        )),
        r is Ok <==> crate::access::is_admin(user.role@) && req.key@.len() > 0 && byte_len(
            req.key@,
        ) <= 128 && byte_len(req.value@) <= 4096,
{
    require_admin(user, "Admin access required to modify configuration")?;
    if chars_of(req.key.as_str()).len() == 0 || req.key.as_str().as_bytes().len() > 128 {
        return Err(ApiError::new(BAD_REQUEST, "Configuration key must be 1-128 characters"));
    }
    if req.value.as_str().as_bytes().len() > 4096 {
        return Err(
            ApiError::new(BAD_REQUEST, "Configuration value must not exceed 4096 characters"),
        );
    }
    Ok(())
}

/// The answer to a configuration update: `Configuration '<key>' updated`.
pub fn config_updated_message(key: &str) -> (m: String)
    ensures
        m@ == "Configuration '"@ + key@ + "' updated"@,
{
    let mut m = owned("Configuration '");
    m.append(key);
    m.append("' updated");
    m
}

/// The audit details of a configuration update: `Set to: <value>`.
pub fn config_audit_details(value: &str) -> (m: String)
    ensures
        m@ == "Set to: "@ + value@,
{
    concat("Set to: ", value)
}

/// A number of bytes in whole mebibytes, rounded down.
pub fn bytes_to_mib(bytes: u64) -> (m: u64)
    ensures
        m == bytes as nat / 1048576,
{
    bytes / 1024 / 1024
}

} // verus!
