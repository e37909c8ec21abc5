//! Users, roles and the checks on the user management requests.
use vstd::prelude::*;

use crate::text::{ascii_lower_char, chars_of, lowercase, str_eq, to_lowercase};

verus! {

/// User roles for access control, from the least to the most privileged.
#[derive(PartialEq, Eq, Structural, Clone, Copy, Debug)]
pub enum UserRole {
    Admin,
    Operator,
    Viewer,
}

/// The role a lowercased role name selects: `admin`, `operator`, and `viewer` for
/// anything else.
pub open spec fn role_of_lowered(l: Seq<char>) -> UserRole {
    if l == "admin"@ {
        UserRole::Admin
    } else if l == "operator"@ {
        UserRole::Operator
    } else {
        UserRole::Viewer
    }
}

/// `s` with each ASCII capital letter made small.
pub open spec fn ascii_lowered(s: Seq<char>) -> Seq<char> {
    s.map_values(|c: char| ascii_lower_char(c))
}

impl UserRole {
    /// The name of the role.
    pub open spec fn name(self) -> Seq<char> {
        match self {
            UserRole::Admin => "admin"@,
            UserRole::Operator => "operator"@,
            UserRole::Viewer => "viewer"@,
        }
    }

    /// The permission level of the role: viewer 1, operator 2, admin 3.
    pub open spec fn rank(self) -> nat {
        match self {
            UserRole::Viewer => 1,
            UserRole::Operator => 2,
            UserRole::Admin => 3,
        }
    }

    /// Whether a holder of this role may do what `required` may do.
    pub open spec fn permits(self, required: UserRole) -> bool {
        self.rank() >= required.rank()
    }

    pub fn as_str(&self) -> (s: &str)
        ensures
            s@ == self.name(),
    {
        match self {
            UserRole::Admin => "admin",
            UserRole::Operator => "operator",
            UserRole::Viewer => "viewer",
        }
    }

    /// The role named by `s`, compared without regard to case; any other name gives
    /// `Viewer`.
    pub fn from_str(s: &str) -> (r: UserRole)
        ensures
            r == role_of_lowered(lowercase(s@)),
            vstd::utf8::is_ascii_chars(s@) ==> r == role_of_lowered(ascii_lowered(s@)),
    {
        let lower = to_lowercase(s);
        if str_eq(lower.as_str(), "admin") {
            UserRole::Admin
        } else if str_eq(lower.as_str(), "operator") {
            UserRole::Operator
        } else {
            UserRole::Viewer
        }
    }

    /// Check if this role has at least the given permission level.
    pub fn has_permission(&self, required: &UserRole) -> (b: bool)
        ensures
            b == self.permits(*required),
    {
        let self_level = self.level();
        let required_level = required.level();
        self_level >= required_level
    }

    fn level(&self) -> (l: u8)
        ensures
            l == self.rank(),
    {
        match self {
            UserRole::Viewer => 1,
            UserRole::Operator => 2,
            UserRole::Admin => 3,
        }
    }
}

/// Permission is a total order on roles: every role has its own permissions, a role
/// has all that the roles it dominates have, any two roles are comparable, and two
/// roles that dominate each other are the same role.
pub proof fn lemma_permission_order(a: UserRole, b: UserRole, c: UserRole)
    ensures
        a.permits(a),
        a.permits(b) && b.permits(c) ==> a.permits(c),
        a.permits(b) || b.permits(a),
        a.permits(b) && b.permits(a) ==> a == b,
{
}

/// An admin may do everything, and everyone may do what a viewer may do.
pub proof fn lemma_permission_extremes(r: UserRole)
    ensures
        UserRole::Admin.permits(r),
        r.permits(UserRole::Viewer),
{
}

/// The name of every role is plain lowercase ASCII, so it reads back as that role;
/// distinct roles have distinct names.
pub proof fn lemma_role_name_round_trip(r: UserRole, q: UserRole)
    ensures
        vstd::utf8::is_ascii_chars(r.name()),
        role_of_lowered(ascii_lowered(r.name())) == r,
        r.name() == q.name() ==> r == q,
{
    reveal_strlit("admin");
    reveal_strlit("operator");
    reveal_strlit("viewer");
    assert(ascii_lowered(r.name()) =~= r.name());
    if r != q {
        assert(r.name().len() != q.name().len() || r.name()[0] != q.name()[0]);
    }
}

/// A user as stored in the database.
pub struct User {
    pub id: String,
    pub username: String,
    pub password_hash: String,
    pub role: String,
    pub display_name: Option<String>,
    pub email: Option<String>,
    pub is_active: bool,
    pub created_at: String,
    pub updated_at: String,
    pub last_login: Option<String>,
}

/// Public user data returned in API responses (no password hash).
pub struct UserResponse {
    pub id: String,
    pub username: String,
    pub role: String,
    pub display_name: Option<String>,
    pub email: Option<String>,
    pub is_active: bool,
    pub created_at: String,
    pub last_login: Option<String>,
}

impl UserResponse {
    /// The public part of a user record: everything but the password hash and the
    /// time of the last update.
    pub open spec fn of_user(user: User) -> UserResponse {
        UserResponse {
            id: user.id,
            username: user.username,
            role: user.role,
            display_name: user.display_name,
            email: user.email,
            is_active: user.is_active,
            created_at: user.created_at,
            last_login: user.last_login,
        }
    }
}

impl From<User> for UserResponse {
    fn from(user: User) -> (r: UserResponse) {
        UserResponse {
            id: user.id,
            username: user.username,
            role: user.role,
            display_name: user.display_name,
            email: user.email,
            is_active: user.is_active,
            created_at: user.created_at,
            last_login: user.last_login,
        }
    }
}

impl vstd::std_specs::convert::FromSpecImpl<User> for UserResponse {
    open spec fn obeys_from_spec() -> bool {
        true
    }

    open spec fn from_spec(user: User) -> UserResponse {
        UserResponse::of_user(user)
    }
}

/// Request body for creating a new user.
pub struct CreateUserRequest {
    pub username: String,
    pub password: String,
    pub role: Option<String>,
    pub display_name: Option<String>,
    pub email: Option<String>,
}

/// Request body for updating a user.
pub struct UpdateUserRequest {
    pub role: Option<String>,
    pub display_name: Option<String>,
    pub email: Option<String>,
    pub is_active: Option<bool>,
    pub password: Option<String>,
}

/// Login request payload.
pub struct LoginRequest {
    pub username: String,
    pub password: String,
}

/// A rule of a request body that a field breaks.
#[derive(PartialEq, Eq, Structural, Clone, Copy, Debug)]
pub enum FieldError {
    /// A username outside 3 to 32 characters.
    UsernameLength,
    /// A password outside 8 to 128 characters.
    PasswordLength,
    /// A display name over 64 characters.
    DisplayNameLength,
    /// An email address that is not valid.
    EmailFormat,
    /// An empty username at login.
    UsernameRequired,
    /// An empty password at login.
    PasswordRequired,
}

impl FieldError {
    /// The name of the field the rule is on.
    pub fn field(&self) -> (s: &'static str)
        ensures
            s@ == self.spec_field(),
    {
        match self {
            FieldError::UsernameLength => "username",
            FieldError::PasswordLength => "password",
            FieldError::DisplayNameLength => "display_name",
            FieldError::EmailFormat => "email",
            FieldError::UsernameRequired => "username",
            FieldError::PasswordRequired => "password",
        }
    }

    pub open spec fn spec_field(self) -> Seq<char> {
        match self {
            FieldError::UsernameLength => "username"@,
            FieldError::PasswordLength => "password"@,
            FieldError::DisplayNameLength => "display_name"@,
            FieldError::EmailFormat => "email"@,
            FieldError::UsernameRequired => "username"@,
            FieldError::PasswordRequired => "password"@,
        }
    }

    /// The code of the rule: `length` or `email`.
    pub fn code(&self) -> (s: &'static str)
        ensures
            s@ == (if *self == FieldError::EmailFormat {
                "email"@
            } else {
                "length"@
            }),
    {
        match self {
            FieldError::EmailFormat => "email",
            _ => "length",
        }
    }

    /// The message shown for the broken rule, where the rule has one.
    pub fn message(&self) -> (s: Option<&'static str>)
        ensures
            match self {
                FieldError::UsernameLength => s matches Some(m) && m@
                    == "Username must be 3-32 characters"@,
                FieldError::PasswordLength => s matches Some(m) && m@
                    == "Password must be 8-128 characters"@,
                FieldError::DisplayNameLength => s is None,
                FieldError::EmailFormat => s matches Some(m) && m@ == "Invalid email format"@,
                FieldError::UsernameRequired => s matches Some(m) && m@ == "Username is required"@,
                FieldError::PasswordRequired => s matches Some(m) && m@ == "Password is required"@,
            },
    {
        match self {
            FieldError::UsernameLength => Some("Username must be 3-32 characters"),
            FieldError::PasswordLength => Some("Password must be 8-128 characters"),
            FieldError::DisplayNameLength => None,
            FieldError::EmailFormat => Some("Invalid email format"),
            FieldError::UsernameRequired => Some("Username is required"),
            FieldError::PasswordRequired => Some("Password is required"),
        }
    }

    /// The bounds `(min, max)` of a length rule.
    pub fn bounds(&self) -> (b: (Option<u64>, Option<u64>))
        ensures
            b == (match self {
                FieldError::UsernameLength => (Some(3u64), Some(32u64)),
                FieldError::PasswordLength => (Some(8u64), Some(128u64)),
                FieldError::DisplayNameLength => (None, Some(64u64)),
                FieldError::EmailFormat => (None, None),
                FieldError::UsernameRequired => (Some(1u64), None),
                FieldError::PasswordRequired => (Some(1u64), None),
            }),
    {
        match self {
            FieldError::UsernameLength => (Some(3), Some(32)),
            FieldError::PasswordLength => (Some(8), Some(128)),
            FieldError::DisplayNameLength => (None, Some(64)),
            FieldError::EmailFormat => (None, None),
            FieldError::UsernameRequired => (Some(1), None),
            FieldError::PasswordRequired => (Some(1), None),
        }
    }
}

/// What the email validator answers for `s`.
pub uninterp spec fn valid_email(s: Seq<char>) -> bool;

/// Calls `validator::ValidateEmail::validate_email` on a string. Trusted: the result
/// is `valid_email(s)`, and an empty string or one without `@` is never valid (the
/// validator tests both before anything else).
#[verifier::external_body]
fn email_is_valid(s: &str) -> (b: bool)
    ensures
        b == valid_email(s@),
        s@.len() == 0 || !s@.contains('@') ==> !b,
{
    validator::ValidateEmail::validate_email(&s)
}

/// Whether the character count of `s` is within `[min, max]`.
fn length_within(s: &str, min: usize, max: usize) -> (b: bool)
    ensures
        b == (min <= s@.len() <= max),
{
    let n = chars_of(s).len();
    min <= n && n <= max
}

/// The broken rules of a user creation request, in the order of its fields.
pub open spec fn create_user_errors(r: CreateUserRequest) -> Seq<FieldError> {
    let a = if 3 <= r.username@.len() <= 32 {
        Seq::empty()
    } else {
        seq![FieldError::UsernameLength]
    };
    let b = if 8 <= r.password@.len() <= 128 {
        a
    } else {
        a.push(FieldError::PasswordLength)
    };
    let c = match r.display_name {
        Some(d) => if d@.len() <= 64 {
            b
        } else {
            b.push(FieldError::DisplayNameLength)
        },
        None => b,
    };
    match r.email {
        Some(e) => if valid_email(e@) {
            c
        } else {
            c.push(FieldError::EmailFormat)
        },
        None => c,
    }
}

/// The broken rules of a user update request, in the order of its fields.
pub open spec fn update_user_errors(r: UpdateUserRequest) -> Seq<FieldError> {
    let a = match r.display_name {
        Some(d) => if d@.len() <= 64 {
            Seq::empty()
        } else {
            seq![FieldError::DisplayNameLength]
        },
        None => Seq::empty(),
    };
    let b = match r.email {
        Some(e) => if valid_email(e@) {
            a
        } else {
            a.push(FieldError::EmailFormat)
        },
        None => a,
    };
    match r.password {
        Some(p) => if 8 <= p@.len() <= 128 {
            b
        } else {
            b.push(FieldError::PasswordLength)
        },
        None => b,
    }
}

/// The broken rules of a login request, in the order of its fields.
pub open spec fn login_errors(r: LoginRequest) -> Seq<FieldError> {
    let a = if r.username@.len() >= 1 {
        Seq::empty()
    } else {
        seq![FieldError::UsernameRequired]
    };
    if r.password@.len() >= 1 {
        a
    } else {
        a.push(FieldError::PasswordRequired)
    }
}

impl CreateUserRequest {
    /// Checks the field rules: `Ok` when none is broken, else the broken ones.
    pub fn validate(&self) -> (r: Result<(), Vec<FieldError>>)
        ensures
            match r {
                Ok(()) => create_user_errors(*self).len() == 0,
                Err(errs) => errs@ == create_user_errors(*self) && errs@.len() > 0,
            },
    {
        let mut errs: Vec<FieldError> = Vec::new();
        if !length_within(self.username.as_str(), 3, 32) {
            errs.push(FieldError::UsernameLength);
        }
        if !length_within(self.password.as_str(), 8, 128) {
            errs.push(FieldError::PasswordLength);
        }
        match &self.display_name {
            Some(d) => {
                if !length_within(d.as_str(), 0, 64) {
                    errs.push(FieldError::DisplayNameLength);
                }
            },
            None => {},
        }
        match &self.email {
            Some(e) => {
                if !email_is_valid(e.as_str()) {
                    errs.push(FieldError::EmailFormat);
                }
            },
            None => {},
        }
        assert(errs@ =~= create_user_errors(*self));
        if errs.len() == 0 {
            Ok(())
        } else {
            Err(errs)
        }
    }
}

impl UpdateUserRequest {
    /// Checks the field rules: `Ok` when none is broken, else the broken ones.
    pub fn validate(&self) -> (r: Result<(), Vec<FieldError>>)
        ensures
            match r {
                Ok(()) => update_user_errors(*self).len() == 0,
                Err(errs) => errs@ == update_user_errors(*self) && errs@.len() > 0,
            },
    {
        let mut errs: Vec<FieldError> = Vec::new();
        match &self.display_name {
            Some(d) => {
                if !length_within(d.as_str(), 0, 64) {
                    errs.push(FieldError::DisplayNameLength);
                }
            },
            None => {},
        }
        match &self.email {
            Some(e) => {
                if !email_is_valid(e.as_str()) {
                    errs.push(FieldError::EmailFormat);
                }
            },
            None => {},
        }
        match &self.password {
            Some(p) => {
                if !length_within(p.as_str(), 8, 128) {
                    errs.push(FieldError::PasswordLength);
                }
            },
            None => {},
        }
        assert(errs@ =~= update_user_errors(*self));
        if errs.len() == 0 {
            Ok(())
        } else {
            Err(errs)
        }
    }
}

impl LoginRequest {
    /// Checks the field rules: `Ok` when none is broken, else the broken ones.
    pub fn validate(&self) -> (r: Result<(), Vec<FieldError>>)
        ensures
            match r {
                Ok(()) => login_errors(*self).len() == 0,
                Err(errs) => errs@ == login_errors(*self) && errs@.len() > 0,
            },
    {
        let mut errs: Vec<FieldError> = Vec::new();
        if chars_of(self.username.as_str()).len() < 1 {
            errs.push(FieldError::UsernameRequired);
        }
        if chars_of(self.password.as_str()).len() < 1 {
            errs.push(FieldError::PasswordRequired);
        }
        assert(errs@ =~= login_errors(*self));
        if errs.len() == 0 {
            Ok(())
        } else {
            Err(errs)
        }
    }
}

} // verus!
