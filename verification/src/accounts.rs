//! The user management and login routes: who may do what, and what is stored.
use vstd::prelude::*;

use crate::access::{
    is_admin, require_admin, require_admin_or_self, ApiError, AuthenticatedUser, BAD_REQUEST,
    CONFLICT, FORBIDDEN, NOT_FOUND,
};
use crate::auth::{hash_password, verification, AuthError, NewUserRecord};
use crate::text::{concat, owned, str_eq};
use crate::user::{
    create_user_errors, update_user_errors, CreateUserRequest, FieldError, UpdateUserRequest, User,
    UserResponse,
};

verus! {

/// Why a user management request is refused.
pub enum UserRequestError {
    /// An error with a status and a message.
    Api(ApiError),
    /// Field rules that the body breaks (answered `400 Validation failed`).
    Invalid(Vec<FieldError>),
    /// Hashing the password failed (answered `500`).
    Hashing(AuthError),
}

/// The roles a user may be given.
pub open spec fn role_known(role: Seq<char>) -> bool {
    role == "admin"@ || role == "operator"@ || role == "viewer"@
}

fn role_known_exec(role: &str) -> (b: bool)
    ensures
        b == role_known(role@),
{
    str_eq(role, "admin") || str_eq(role, "operator") || str_eq(role, "viewer")
}

/// Listing users is for admins.
pub fn check_list_users(user: &AuthenticatedUser) -> (r: Result<(), ApiError>)
    ensures
        r is Ok <==> is_admin(user.role@),
        r matches Err(e) ==> e.is(FORBIDDEN, "Admin access required"@),
{
    require_admin(user, "Admin access required")
}

/// Reading or updating a user is for admins and for that user.
pub fn check_user_access(user: &AuthenticatedUser, id: &str) -> (r: Result<(), ApiError>)
    ensures
        r is Ok <==> is_admin(user.role@) || user.user_id@ == id@,
        r matches Err(e) ==> e.is(FORBIDDEN, "Admin access required"@),
{
    require_admin_or_self(user, id, "Admin access required")
}

/// The answer to a user lookup: the public part of the user, or `404`.
pub fn user_or_not_found(found: Option<User>) -> (r: Result<UserResponse, ApiError>)
    ensures
        match found {
            Some(u) => r == Ok::<UserResponse, ApiError>(UserResponse::of_user(u)),
            None => r matches Err(e) && e.is(NOT_FOUND, "User not found"@),
        },
{
    match found {
        Some(u) => Ok(UserResponse::from(u)),
        None => Err(ApiError::new(NOT_FOUND, "User not found")),
    }
}

/// The checks of a user creation before any lookup: admins only (`403`), then the
/// field rules.
pub fn check_create_user(user: &AuthenticatedUser, req: &CreateUserRequest) -> (r: Result<
    (),
    UserRequestError,
>)
    ensures
        !is_admin(user.role@) ==> (r matches Err(UserRequestError::Api(e)) && e.is(
            FORBIDDEN,
            "Admin access required to create users"@,
        )),
        is_admin(user.role@) && create_user_errors(*req).len() > 0 ==> (r matches Err(
            UserRequestError::Invalid(errs),
        ) && errs@ == create_user_errors(*req)),
        r is Ok <==> is_admin(user.role@) && create_user_errors(*req).len() == 0,
{
    match require_admin(user, "Admin access required to create users") {
        Ok(()) => {},
        Err(e) => return Err(UserRequestError::Api(e)),
    }
    match req.validate() {
        Ok(()) => Ok(()),
        Err(errs) => Err(UserRequestError::Invalid(errs)),
    }
}

/// The role a creation request asks for: `viewer` when it names none.
pub open spec fn requested_role(req: CreateUserRequest) -> Seq<char> {
    match req.role {
        Some(r) => r@,
        None => "viewer"@,
    }
}

/// The record of a new user, once the request passed its checks and the name was
/// looked up: a taken name is `409`; the password is hashed, which succeeds for any
/// password of up to `0x3FFFFFFF` characters; a role other than admin, operator or
/// viewer is `400`.
pub fn new_user_record(req: &CreateUserRequest, username_taken: bool, id: String) -> (r: Result<
    NewUserRecord,
    UserRequestError,
>)
    ensures
        username_taken ==> (r matches Err(UserRequestError::Api(e)) && e.is(
            CONFLICT,
            "Username already exists"@,
        )),
        !username_taken ==> (r matches Err(UserRequestError::Api(e)) ==> e.is(
            BAD_REQUEST,
            "Invalid role. Must be: admin, operator, or viewer"@,
        ) && !role_known(requested_role(*req))),
        r matches Err(UserRequestError::Invalid(_)) ==> false,
        r matches Ok(rec) ==> {
            &&& !username_taken
            &&& role_known(requested_role(*req))
            &&& rec.id == id
            &&& rec.username == req.username
            &&& rec.role@ == requested_role(*req)
            &&& rec.display_name == req.display_name
            &&& rec.email == req.email
            &&& verification(req.password@, rec.password_hash@) == Some(true)
        },
        !username_taken && !role_known(requested_role(*req)) ==> r is Err,
        r matches Err(UserRequestError::Hashing(_)) ==> req.password@.len() > 0x3FFF_FFFF,
        !username_taken && req.password@.len() <= 0x3FFF_FFFF ==> if role_known(
            requested_role(*req),
        ) {
            r is Ok
        } else {
            r matches Err(UserRequestError::Api(e)) && e.is(
                BAD_REQUEST,
                "Invalid role. Must be: admin, operator, or viewer"@,
            )
        },
{
    proof {
        crate::text::lemma_ascii_byte_len(req.password@);
    }
    if username_taken {
        return Err(UserRequestError::Api(ApiError::new(CONFLICT, "Username already exists")));
    }
    let password_hash = match hash_password(req.password.as_str()) {
        Ok(h) => h,
        Err(e) => return Err(UserRequestError::Hashing(e)),
    };
    let role = match &req.role {
        Some(r) => r.clone(),
        None => owned("viewer"),
    };
    if !role_known_exec(role.as_str()) {
        return Err(
            UserRequestError::Api(
                ApiError::new(BAD_REQUEST, "Invalid role. Must be: admin, operator, or viewer"),
            ),
        );
    }
    Ok(
        NewUserRecord {
            id,
            username: req.username.clone(),
            password_hash,
            role,
            display_name: req.display_name.clone(),
            email: req.email.clone(),
        },
    )
}

/// The answer to a created user: active, never logged in, created at `created_at`.
pub fn created_user_response(rec: &NewUserRecord, created_at: String) -> (r: UserResponse)
    ensures
        r.id == rec.id && r.username == rec.username && r.role == rec.role && r.display_name
            == rec.display_name && r.email == rec.email && r.is_active && r.created_at
            == created_at && r.last_login is None,
{
    UserResponse {
        id: rec.id.clone(),
        username: rec.username.clone(),
        role: rec.role.clone(),
        display_name: rec.display_name.clone(),
        email: rec.email.clone(),
        is_active: true,
        created_at,
        last_login: None,
    }
}

/// The audit details of a created user: `Role: <role>`.
pub fn role_audit_details(role: &str) -> (m: String)
    ensures
        m@ == "Role: "@ + role@,
{
    concat("Role: ", role)
}

/// The checks of a user update before any lookup: admins only (`403`), then the
/// field rules.
pub fn check_update_user(user: &AuthenticatedUser, req: &UpdateUserRequest) -> (r: Result<
    (),
    UserRequestError,
>)
    ensures
        !is_admin(user.role@) ==> (r matches Err(UserRequestError::Api(e)) && e.is(
            FORBIDDEN,
            "Admin access required"@,
        )),
        is_admin(user.role@) && update_user_errors(*req).len() > 0 ==> (r matches Err(
            UserRequestError::Invalid(errs),
        ) && errs@ == update_user_errors(*req)),
        r is Ok <==> is_admin(user.role@) && update_user_errors(*req).len() == 0,
{
    match require_admin(user, "Admin access required") {
        Ok(()) => {},
        Err(e) => return Err(UserRequestError::Api(e)),
    }
    match req.validate() {
        Ok(()) => Ok(()),
        Err(errs) => Err(UserRequestError::Invalid(errs)),
    }
}

/// A lookup that must find its record: `404 User not found` otherwise.
pub fn require_user_found(found: bool) -> (r: Result<(), ApiError>)
    ensures
        r is Ok <==> found,
        r matches Err(e) ==> e.is(NOT_FOUND, "User not found"@),
{
    if found {
        Ok(())
    } else {
        Err(ApiError::new(NOT_FOUND, "User not found"))
    }
}

/// A change to one field of a stored user.
pub enum UserChange {
    Role(String),
    DisplayName(String),
    Email(String),
    IsActive(bool),
    /// The new password, to be hashed when the change is applied.
    Password(String),
}

pub open spec fn change_view(c: UserChange) -> (int, Seq<char>, bool) {
    match c {
        UserChange::Role(r) => (0, r@, false),
        UserChange::DisplayName(d) => (1, d@, false),
        UserChange::Email(e) => (2, e@, false),
        UserChange::IsActive(b) => (3, Seq::empty(), b),
        UserChange::Password(p) => (4, p@, false),
    }
}

/// The changes an update request makes, in the order they are applied: role,
/// display name, email, activity, password; each only when the request carries it.
pub open spec fn update_changes(req: UpdateUserRequest) -> Seq<(int, Seq<char>, bool)> {
    let a = match req.role {
        Some(r) => seq![(0int, r@, false)],
        None => Seq::empty(),
    };
    let b = match req.display_name {
        Some(d) => a.push((1int, d@, false)),
        None => a,
    };
    let c = match req.email {
        Some(e) => b.push((2int, e@, false)),
        None => b,
    };
    let d = match req.is_active {
        Some(x) => c.push((3int, Seq::empty(), x)),
        None => c,
    };
    match req.password {
        Some(p) => d.push((4int, p@, false)),
        None => d,
    }
}

/// The changes of an update request, in terms of its fields: each field the request
/// carries gives exactly one change, tagged role (0), display name (1), email (2),
/// activity (3) or password (4), which carries the field's value; a field it does not
/// carry gives none; and the changes come in that order.
pub proof fn lemma_update_changes_fields(req: UpdateUserRequest)
    ensures
        forall|i: int, j: int|
            0 <= i < j < update_changes(req).len() ==> (#[trigger] update_changes(req)[i]).0
                < (#[trigger] update_changes(req)[j]).0,
        forall|i: int|
            0 <= i < update_changes(req).len() ==> 0 <= (#[trigger] update_changes(req)[i]).0 <= 4,
        req.role is Some <==> exists|i: int|
            0 <= i < update_changes(req).len() && (#[trigger] update_changes(req)[i]).0 == 0,
        req.display_name is Some <==> exists|i: int|
            0 <= i < update_changes(req).len() && (#[trigger] update_changes(req)[i]).0 == 1,
        req.email is Some <==> exists|i: int|
            0 <= i < update_changes(req).len() && (#[trigger] update_changes(req)[i]).0 == 2,
        req.is_active is Some <==> exists|i: int|
            0 <= i < update_changes(req).len() && (#[trigger] update_changes(req)[i]).0 == 3,
        req.password is Some <==> exists|i: int|
            0 <= i < update_changes(req).len() && (#[trigger] update_changes(req)[i]).0 == 4,
        forall|i: int|
            0 <= i < update_changes(req).len() ==> {
                let c = #[trigger] update_changes(req)[i];
                &&& c.0 == 0 ==> (req.role matches Some(r) && c.1 == r@)
                &&& c.0 == 1 ==> (req.display_name matches Some(d) && c.1 == d@)
                &&& c.0 == 2 ==> (req.email matches Some(e) && c.1 == e@)
                &&& c.0 == 3 ==> req.is_active == Some(c.2)
                &&& c.0 == 4 ==> (req.password matches Some(p) && c.1 == p@)
            },
{
    let s = update_changes(req);
    let a = match req.role {
        Some(r) => seq![(0int, r@, false)],
        None => Seq::<(int, Seq<char>, bool)>::empty(),
    };
    let b = if let Some(dn) = req.display_name {
        a.push((1int, dn@, false))
    } else {
        a
    };
    let c = match req.email {
        Some(e) => b.push((2int, e@, false)),
        None => b,
    };
    let d = match req.is_active {
        Some(x) => c.push((3int, Seq::empty(), x)),
        None => c,
    };
    assert(s == match req.password {
        Some(p) => d.push((4int, p@, false)),
        None => d,
    });
    // Each stage holds tags below the next field's tag, in increasing order, each
    // present exactly for the fields seen so far.
    assert(forall|i: int| 0 <= i < a.len() ==> a[i].0 == 0 && (req.role matches Some(r) && a[i].1 == r@));
    assert(forall|i: int| 0 <= i < b.len() ==> b[i].0 <= 1);
    assert(forall|i: int| 0 <= i < c.len() ==> c[i].0 <= 2);
    assert(forall|i: int| 0 <= i < d.len() ==> d[i].0 <= 3);
    if req.role is Some {
        assert(s[0].0 == 0);
    }
    if req.display_name is Some {
        assert(b[b.len() - 1].0 == 1);
        assert(s[b.len() - 1] == b[b.len() - 1]);
    }
    if req.email is Some {
        assert(s[c.len() - 1] == c[c.len() - 1]);
    }
    if req.is_active is Some {
        assert(s[d.len() - 1] == d[d.len() - 1]);
    }
    if req.password is Some {
        assert(s[s.len() - 1].0 == 4);
    }
}

/// The changes of an update request, once the user was found. A role other than
/// admin, operator or viewer is refused (`400`) before any change is made.
pub fn user_update_changes(req: &UpdateUserRequest) -> (r: Result<Vec<UserChange>, ApiError>)
    ensures
        match req.role {
            Some(role) => !role_known(role@) ==> (r matches Err(e) && e.is(
                BAD_REQUEST,
                "Invalid role"@,
            )),
            None => true,
        },
        r is Ok <==> match req.role {
            Some(role) => role_known(role@),
            None => true,
        },
        r matches Ok(cs) ==> cs@.map_values(|c: UserChange| change_view(c)) == update_changes(*req),
{
    let mut cs: Vec<UserChange> = Vec::new();
    match &req.role {
        Some(role) => {
            if !role_known_exec(role.as_str()) {
                return Err(ApiError::new(BAD_REQUEST, "Invalid role"));
            }
            cs.push(UserChange::Role(role.clone()));
        },
        None => {},
    }
    match &req.display_name {
        Some(d) => cs.push(UserChange::DisplayName(d.clone())),
        None => {},
    }
    match &req.email {
        Some(e) => cs.push(UserChange::Email(e.clone())),
        None => {},
    }
    match req.is_active {
        Some(b) => cs.push(UserChange::IsActive(b)),
        None => {},
    }
    match &req.password {
        Some(p) => cs.push(UserChange::Password(p.clone())),
        None => {},
    }
    assert(cs@.map_values(|c: UserChange| change_view(c)) =~= update_changes(*req));
    Ok(cs)
}

/// The checks of a user deletion: admins only (`403`), and never one's own account
/// (`400`).
pub fn check_delete_user(user: &AuthenticatedUser, id: &str) -> (r: Result<(), ApiError>)
    ensures
        !is_admin(user.role@) ==> (r matches Err(e) && e.is(FORBIDDEN, "Admin access required"@)),
        is_admin(user.role@) && user.user_id@ == id@ ==> (r matches Err(e) && e.is(
            BAD_REQUEST,
            "Cannot delete your own account"@,
        )),
        r is Ok <==> is_admin(user.role@) && user.user_id@ != id@,
{
    require_admin(user, "Admin access required")?;
    if str_eq(user.user_id.as_str(), id) {
        return Err(ApiError::new(BAD_REQUEST, "Cannot delete your own account"));
    }
    Ok(())
}

/// The answer to a deletion that removed `rows` records: `404` when it removed none.
pub fn deleted_or_not_found(rows: u64) -> (r: Result<(), ApiError>)
    ensures
        r is Ok <==> rows != 0,
        r matches Err(e) ==> e.is(NOT_FOUND, "User not found"@),
{
    require_user_found(rows != 0)
}

/// The audit details of a failed login: `Failed login for username: <name>`.
pub fn failed_login_details(username: &str) -> (m: String)
    ensures
        m@ == "Failed login for username: "@ + username@,
{
    concat("Failed login for username: ", username)
}

/// The answer to a login whose credentials did not match.
pub fn login_refused() -> (e: ApiError)
    ensures
        e.is(crate::access::UNAUTHORIZED, "Invalid username or password"@),
{
    ApiError::new(crate::access::UNAUTHORIZED, "Invalid username or password")
}


/// The check of a login body: its field rules.
pub fn check_login(req: &crate::user::LoginRequest) -> (r: Result<(), UserRequestError>)
    ensures
        r is Ok <==> crate::user::login_errors(*req).len() == 0,
        r matches Err(UserRequestError::Invalid(errs)) ==> errs@ == crate::user::login_errors(*req),
        r matches Err(e) ==> e is Invalid,
{
    match req.validate() {
        Ok(()) => Ok(()),
        Err(errs) => Err(UserRequestError::Invalid(errs)),
    }
}


/// Successful login response.
pub struct LoginResponse {
    pub token: String,
    pub user: UserResponse,
    pub expires_at: String,
}

/// The answer to a successful login: the token, the public part of the user and the
/// expiry of the token.
pub fn login_response(token: String, user: User, expires_at: String) -> (r: LoginResponse)
    ensures
        r.token == token && r.user == UserResponse::of_user(user) && r.expires_at == expires_at,
{
    LoginResponse { token, user: UserResponse::from(user), expires_at }
}

} // verus!
