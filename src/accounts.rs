use vstd::prelude::*;

use crate::error::{bad_request, AppError};
use crate::text::{chars_of, lower_chars, lower_seq, push_text, string_of, trim_chars, trim_ws};

verus! {

/// The role of an account.
#[derive(Debug, Clone, Copy, PartialEq, Eq)]
pub enum UserRole {
    Admin,
    Parent,
    Child,
}

pub open spec fn role_name(r: UserRole) -> Seq<char> {
    match r {
        UserRole::Admin => "admin"@,
        UserRole::Parent => "parent"@,
        UserRole::Child => "child"@,
    }
}

impl UserRole {
    /// The role's name as stored and shown: `admin`, `parent` or `child`.
    pub fn as_str(&self) -> (r: &'static str)
        ensures
            r@ == role_name(*self),
    {
        match self {
            UserRole::Admin => "admin",
            UserRole::Parent => "parent",
            UserRole::Child => "child",
        }
    }
}

/// What a one-time e-mail token is for.
#[derive(Debug, Clone, Copy, PartialEq, Eq)]
pub enum EmailTokenKind {
    VerifyEmail,
    ResetPassword,
}

/// The state of a schedule.
#[derive(Debug, Clone, Copy, PartialEq, Eq)]
pub enum ScheduleStatus {
    Active,
    Inactive,
    Archived,
}

/// The signed-in account of a request.
#[derive(Debug, Clone, PartialEq)]
pub struct AuthUser {
    pub user_id: String,
    pub role: UserRole,
    pub must_change_password: bool,
}

/// Admits administrators only.
pub fn require_admin(user: &AuthUser) -> (r: Result<(), AppError>)
    ensures
        r is Ok <==> user.role == UserRole::Admin,
        r matches Err(e) ==> e is Forbidden,
{
    match user.role {
        UserRole::Admin => Ok(()),
        _ => Err(AppError::Forbidden),
    }
}

/// Admits parents and administrators.
pub fn require_parent(user: &AuthUser) -> (r: Result<(), AppError>)
    ensures
        r is Ok <==> (user.role == UserRole::Admin || user.role == UserRole::Parent),
        r matches Err(e) ==> e is Forbidden,
{
    match user.role {
        UserRole::Admin | UserRole::Parent => Ok(()),
        UserRole::Child => Err(AppError::Forbidden),
    }
}

/// What `char::is_uppercase` answers beyond ASCII: the Unicode `Uppercase` property.
pub uninterp spec fn is_upper(c: char) -> bool;

/// An upper-case letter: `A` to `Z` in ASCII, the Unicode property beyond.
pub open spec fn upper_letter(c: char) -> bool {
    if (c as u32) < 128 {
        'A' <= c && c <= 'Z'
    } else {
        is_upper(c)
    }
}

/// Relies on `char::is_uppercase`; its answer depends on the character alone,
/// and on ASCII it holds of `A` to `Z` only.
#[verifier::external_body]
fn upper_char(c: char) -> (r: bool)
    ensures
        r == (if (c as u32) < 128 {
            'A' <= c && c <= 'Z'
        } else {
            is_upper(c)
        }),
{
    c.is_uppercase()
}

pub open spec fn has_upper(s: Seq<char>) -> bool {
    exists|i: int| 0 <= i < s.len() && upper_letter(#[trigger] s[i])
}

pub open spec fn has_ascii_digit(s: Seq<char>) -> bool {
    exists|i: int| 0 <= i < s.len() && '0' <= #[trigger] s[i] && s[i] <= '9'
}

/// Accepts a password of at least eight bytes with an upper-case letter and
/// an ASCII digit; otherwise a `BadRequest` naming the first rule broken.
pub fn validate_password_strength(password: &str) -> (r: Result<(), AppError>)
    ensures
        r is Ok <==> (password.len() >= 8 && has_upper(password@) && has_ascii_digit(
            password@,
        )),
        r matches Err(e) ==> e is BadRequest,
        password.len() < 8 ==> (r matches Err(AppError::BadRequest(m)) && m@
            == "Password must be at least 8 characters"@),
        password.len() >= 8 && !has_upper(password@) ==> (r matches Err(AppError::BadRequest(m))
            && m@ == "Password must contain at least one uppercase letter"@),
        password.len() >= 8 && has_upper(password@) && !has_ascii_digit(password@) ==> (
        r matches Err(AppError::BadRequest(m)) && m@ == "Password must contain at least one number"@),
{
    if password.len() < 8 {
        return Err(bad_request("Password must be at least 8 characters"));
    }
    let cs = chars_of(password);
    let mut upper = false;
    let mut digit = false;
    let mut i: usize = 0;
    while i < cs.len()
        invariant
            i <= cs@.len(),
            cs@ == password@,
            upper == exists|k: int| 0 <= k < i && upper_letter(#[trigger] cs@[k]),
            digit == exists|k: int| 0 <= k < i && '0' <= #[trigger] cs@[k] && cs@[k] <= '9',
        decreases cs@.len() - i,
    {
        let c = cs[i];
        if upper_char(c) {
            upper = true;
        }
        if '0' <= c && c <= '9' {
            digit = true;
        }
        proof {
            if !upper {
                assert(!exists|k: int| 0 <= k < i + 1 && upper_letter(#[trigger] cs@[k])) by {
                    assert(!upper_letter(cs@[i as int]));
                }
            } else {
                assert(exists|k: int| 0 <= k < i + 1 && upper_letter(#[trigger] cs@[k]));
            }
        }
        i = i + 1;
    }
    if !upper {
        return Err(bad_request("Password must contain at least one uppercase letter"));
    }
    if !digit {
        return Err(bad_request("Password must contain at least one number"));
    }
    Ok(())
}

/// The settings the server is started with.
#[derive(Debug, Clone, PartialEq)]
pub struct Config {
    pub db_host: String,
    pub db_port: u16,
    pub db_name: String,
    pub db_user: String,
    pub db_password: String,
    pub backend_host: String,
    pub backend_port: u16,
    pub session_secret: String,
    pub smtp_host: String,
    pub smtp_port: u16,
    pub smtp_user: String,
    pub smtp_password: String,
    pub smtp_from: String,
    pub app_env: String,
    pub app_base_url: String,
    pub retention_cleanup_enabled: bool,
    pub retention_cleanup_interval_minutes: u64,
    pub pictogram_prefetch_default_enabled: bool,
    pub pictogram_prefetch_idle_minutes: u64,
    pub pictogram_prefetch_batch_size: u64,
    pub pictogram_prefetch_interval_seconds: u64,
}

/// Why the settings could not be read.
#[derive(Debug, Clone, PartialEq)]
pub enum ConfigError {
    /// A required variable is not set.
    MissingVar(String),
    /// A variable holds a value of the wrong form: its name and its value.
    InvalidValue(String, String),
}

impl ConfigError {
    /// The message shown for this error.
    pub fn message(&self) -> (r: String)
        ensures
            r@ == match self {
                ConfigError::MissingVar(k) => "Missing environment variable: "@ + k@,
                ConfigError::InvalidValue(k, v) => "Invalid value for "@ + k@ + ": "@ + v@,
            },
    {
        let mut out: Vec<char> = Vec::new();
        match self {
            ConfigError::MissingVar(k) => {
                push_text(&mut out, "Missing environment variable: ");
                push_text(&mut out, k.as_str());
            },
            ConfigError::InvalidValue(k, v) => {
                push_text(&mut out, "Invalid value for ");
                push_text(&mut out, k.as_str());
                push_text(&mut out, ": ");
                push_text(&mut out, v.as_str());
            },
        }
        string_of(out.as_slice())
    }
}

/// Whether a switch variable is on: `1`, `true`, `yes` or `on`, trimmed and
/// in any ASCII case.
pub open spec fn is_on_flag(s: Seq<char>) -> bool {
    let t = lower_seq(trim_ws(s));
    t == "1"@ || t == "true"@ || t == "yes"@ || t == "on"@
}

pub fn parse_flag(value: &str) -> (r: bool)
    ensures
        r == is_on_flag(value@),
{
    let t = lower_chars(&trim_chars(&chars_of(value), false));
    let s = string_of(t.as_slice());
    let one = String::from_str("1");
    let yes_true = String::from_str("true");
    let yes = String::from_str("yes");
    let on = String::from_str("on");
    s == one || s == yes_true || s == yes || s == on
}

} // verus!
