//! Access control: the authenticated caller, bearer tokens and the role gates in
//! front of the protected operations.
use vstd::prelude::*;

use crate::text::{owned, starts_with, str_eq, str_starts_with, string_of_range, chars_of};

verus! {

/// An error answered to an API request: an HTTP status and the text of its
/// `"error"` member.
pub struct ApiError {
    pub status: u16,
    pub message: String,
}

pub const BAD_REQUEST: u16 = 400;

pub const UNAUTHORIZED: u16 = 401;

pub const FORBIDDEN: u16 = 403;

pub const NOT_FOUND: u16 = 404;

pub const CONFLICT: u16 = 409;

pub const INTERNAL_ERROR: u16 = 500;

impl ApiError {
    /// An error with the given status and message.
    pub fn new(status: u16, message: &str) -> (e: ApiError)
        ensures
            e.status == status,
            e.message@ == message@,
    {
        ApiError { status, message: owned(message) }
    }

    /// Whether this error has the given status and message.
    pub open spec fn is(&self, status: u16, message: Seq<char>) -> bool {
        self.status == status && self.message@ == message
    }
}

/// The caller of a request, as the token names it.
#[derive(Clone, Debug)]
pub struct AuthenticatedUser {
    pub user_id: String,
    pub username: String,
    pub role: String,
}

pub open spec fn is_admin(role: Seq<char>) -> bool {
    role == "admin"@
}

pub open spec fn is_operator_or_admin(role: Seq<char>) -> bool {
    role == "admin"@ || role == "operator"@
}

/// The token of an `Authorization` header of the form `Bearer <token>`.
pub open spec fn bearer_token_of(header: Seq<char>) -> Option<Seq<char>> {
    if starts_with(header, "Bearer "@) {
        Some(header.subrange(7, header.len() as int))
    } else {
        None
    }
}

/// The first step of authentication: the token of the `Authorization` header, or
/// `401` when the header is missing or is not a bearer header.
pub fn bearer_token(header: Option<&str>) -> (r: Result<String, ApiError>)
    ensures
        match header {
            Some(h) => match bearer_token_of(h@) {
                Some(t) => r matches Ok(tok) && tok@ == t,
                None => r matches Err(e) && e.is(
                    UNAUTHORIZED,
                    "Missing or invalid authorization header"@,
                ),
            },
            None => r matches Err(e) && e.is(UNAUTHORIZED, "Missing or invalid authorization header"@),
        },
{
    proof {
        reveal_strlit("Bearer ");
    }
    match header {
        Some(h) => {
            if str_starts_with(h, "Bearer ") {
                let v = chars_of(h);
                Ok(string_of_range(&v, 7, v.len()))
            } else {
                Err(ApiError::new(UNAUTHORIZED, "Missing or invalid authorization header"))
            }
        },
        None => Err(ApiError::new(UNAUTHORIZED, "Missing or invalid authorization header")),
    }
}

/// The second step of authentication: the caller named by the decoded claims
/// `(subject, username, role)`, or `401` when the token did not decode or had expired.
pub fn authenticated_user(claims: Option<(String, String, String)>) -> (r: Result<
    AuthenticatedUser,
    ApiError,
>)
    ensures
        match claims {
            Some((sub, name, role)) => r matches Ok(u) && u.user_id == sub && u.username == name
                && u.role == role,
            None => r matches Err(e) && e.is(UNAUTHORIZED, "Invalid or expired token"@),
        },
{
    match claims {
        Some((sub, name, role)) => Ok(AuthenticatedUser { user_id: sub, username: name, role }),
        None => Err(ApiError::new(UNAUTHORIZED, "Invalid or expired token")),
    }
}

/// The routes open to callers without a token: the login and the health check.
pub open spec fn public_route(path: Seq<char>) -> bool {
    path == "/auth/login"@ || path == "/health"@
}

/// Whether a route of the API answers only callers with a valid token: every route
/// but the login and the health check.
pub fn route_needs_token(path: &str) -> (b: bool)
    ensures
        b <==> !public_route(path@),
{
    !(str_eq(path, "/auth/login") || str_eq(path, "/health"))
}

/// Admin-only access: `401` without a caller, `403` unless the caller is an admin.
pub fn admin_gate(user: Option<&AuthenticatedUser>) -> (r: Result<(), ApiError>)
    ensures
        match user {
            None => r matches Err(e) && e.is(UNAUTHORIZED, "Authentication required"@),
            Some(u) => if is_admin(u.role@) {
                r is Ok
            } else {
                r matches Err(e) && e.is(FORBIDDEN, "Admin access required"@)
            },
        },
{
    match user {
        None => Err(ApiError::new(UNAUTHORIZED, "Authentication required")),
        Some(u) => {
            if str_eq(u.role.as_str(), "admin") {
                Ok(())
            } else {
                Err(ApiError::new(FORBIDDEN, "Admin access required"))
            }
        },
    }
}

/// Operator access: `401` without a caller, `403` unless the caller is an admin or
/// an operator.
pub fn operator_gate(user: Option<&AuthenticatedUser>) -> (r: Result<(), ApiError>)
    ensures
        match user {
            None => r matches Err(e) && e.is(UNAUTHORIZED, "Authentication required"@),
            Some(u) => if is_operator_or_admin(u.role@) {
                r is Ok
            } else {
                r matches Err(e) && e.is(FORBIDDEN, "Operator access required"@)
            },
        },
{
    match user {
        None => Err(ApiError::new(UNAUTHORIZED, "Authentication required")),
        Some(u) => {
            if str_eq(u.role.as_str(), "admin") || str_eq(u.role.as_str(), "operator") {
                Ok(())
            } else {
                Err(ApiError::new(FORBIDDEN, "Operator access required"))
            }
        },
    }
}

/// Every caller that passes the admin gate passes the operator gate.
pub proof fn lemma_admin_passes_operator_gate(role: Seq<char>)
    requires
        is_admin(role),
    ensures
        is_operator_or_admin(role),
{
}

/// A route open to admins only: `403` with `message` for any other role.
pub fn require_admin(user: &AuthenticatedUser, message: &str) -> (r: Result<(), ApiError>)
    ensures
        if is_admin(user.role@) {
            r is Ok
        } else {
            r matches Err(e) && e.is(FORBIDDEN, message@)
        },
{
    if str_eq(user.role.as_str(), "admin") {
        Ok(())
    } else {
        Err(ApiError::new(FORBIDDEN, message))
    }
}

/// A route open to operators and admins: `403` with `message` for any other role.
pub fn require_operator(user: &AuthenticatedUser, message: &str) -> (r: Result<(), ApiError>)
    ensures
        if is_operator_or_admin(user.role@) {
            r is Ok
        } else {
            r matches Err(e) && e.is(FORBIDDEN, message@)
        },
{
    if str_eq(user.role.as_str(), "admin") || str_eq(user.role.as_str(), "operator") {
        Ok(())
    } else {
        Err(ApiError::new(FORBIDDEN, message))
    }
}

/// A route open to admins and to the user the path names: `403` with `message`
/// for anyone else.
pub fn require_admin_or_self(user: &AuthenticatedUser, id: &str, message: &str) -> (r: Result<
    (),
    ApiError,
>)
    ensures
        if is_admin(user.role@) || user.user_id@ == id@ {
            r is Ok
        } else {
            r matches Err(e) && e.is(FORBIDDEN, message@)
        },
{
    if str_eq(user.role.as_str(), "admin") || str_eq(user.user_id.as_str(), id) {
        Ok(())
    } else {
        Err(ApiError::new(FORBIDDEN, message))
    }
}

} // verus!
