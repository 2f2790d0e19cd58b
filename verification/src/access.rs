//! Access decisions: who may list, edit, attend or transcribe a zerra.
//!
//! Every decision here is pure: the caller fetches whatever the decision
//! needs (the stored progress, an ownership count, a user row) and the
//! functions say exactly which inputs are let through and with which error
//! the others are turned away.

use vstd::prelude::*;

use crate::zerra::Progress;

verus! {

/// Why a request was turned away.
#[derive(Debug, Clone, Copy, PartialEq, Eq, Structural)]
pub enum AccessError {
    Unauthorized,
    Forbidden,
    NotFound,
}

/// What an admitted attendee connection is owed.
#[derive(Debug, Clone, Copy, PartialEq, Eq, Structural)]
pub enum AttendDecision {
    /// Nobody has attended yet: admit, and bind the caller's fresh identity
    /// to this zerra with a cookie.
    FirstAttendee,
    /// The bound attendee came back: admit with the jar unchanged.
    Returning,
}

/// A user row, with the hash the password is verified against.
#[derive(Debug, Clone, PartialEq, Eq)]
pub struct User {
    pub id: i64,
    pub username: String,
    pub display_name: String,
    pub is_male: bool,
    pub auth_hash: String,
}

/// Whether an attendee connection for a zerra in `progress` is admitted:
/// the first attendee of an untouched zerra always is; afterwards only the
/// holder of the bound identity may return.
pub fn attend_gate(progress: &Progress, cookie: Option<&String>) -> (r: Result<
    AttendDecision,
    AccessError,
>)
    ensures
        match progress.spec_participant_uuid() {
            None => r == Ok::<AttendDecision, AccessError>(AttendDecision::FirstAttendee),
            Some(bound) => match cookie {
                Some(c) => if c@ == bound {
                    r == Ok::<AttendDecision, AccessError>(AttendDecision::Returning)
                } else {
                    r == Err::<AttendDecision, AccessError>(AccessError::Unauthorized)
                },
                None => r == Err::<AttendDecision, AccessError>(AccessError::Unauthorized),
            },
        },
{
    match progress {
        Progress::NotStarted => Ok(AttendDecision::FirstAttendee),
        Progress::Intro { participant_uuid } => returning_gate(participant_uuid, cookie),
        Progress::Ongoing { participant_uuid, .. } => returning_gate(participant_uuid, cookie),
        Progress::Finished { participant_uuid, .. } => returning_gate(participant_uuid, cookie),
    }
}

/// The returning-attendee check shared by every progressed state.
fn returning_gate(bound: &String, cookie: Option<&String>) -> (r: Result<
    AttendDecision,
    AccessError,
>)
    ensures
        match cookie {
            Some(c) => if c@ == bound@ {
                r == Ok::<AttendDecision, AccessError>(AttendDecision::Returning)
            } else {
                r == Err::<AttendDecision, AccessError>(AccessError::Unauthorized)
            },
            None => r == Err::<AttendDecision, AccessError>(AccessError::Unauthorized),
        },
{
    match cookie {
        Some(c) => {
            if *c == *bound {
                Ok(AttendDecision::Returning)
            } else {
                Err(AccessError::Unauthorized)
            }
        },
        None => Err(AccessError::Unauthorized),
    }
}

/// Whether a transcript may be produced: only the bound attendee of a
/// finished, printable zerra.
pub fn transcribe_gate(progress: &Progress, cookie: Option<&String>) -> (r: Result<
    (),
    AccessError,
>)
    ensures
        match progress {
            Progress::Finished { participant_uuid, printable, .. } => match cookie {
                Some(c) => if c@ != participant_uuid@ {
                    r == Err::<(), AccessError>(AccessError::Unauthorized)
                } else if *printable {
                    r == Ok::<(), AccessError>(())
                } else {
                    r == Err::<(), AccessError>(AccessError::Forbidden)
                },
                None => r == Err::<(), AccessError>(AccessError::Unauthorized),
            },
            _ => r == Err::<(), AccessError>(AccessError::NotFound),
        },
{
    match progress {
        Progress::Finished { participant_uuid, printable, .. } => match cookie {
            Some(c) => {
                if *c != *participant_uuid {
                    Err(AccessError::Unauthorized)
                } else if *printable {
                    Ok(())
                } else {
                    Err(AccessError::Forbidden)
                }
            },
            None => Err(AccessError::Unauthorized),
        },
        _ => Err(AccessError::NotFound),
    }
}

/// Whether an ownership count admits the caller: any nonzero count does.
pub fn check_ownership(count: i64) -> (r: Result<(), AccessError>)
    ensures
        count != 0 ==> r == Ok::<(), AccessError>(()),
        count == 0 ==> r == Err::<(), AccessError>(AccessError::Unauthorized),
{
    if count != 0 {
        Ok(())
    } else {
        Err(AccessError::Unauthorized)
    }
}

/// Whether a request carries a logged-in user: the user and their id, or an
/// unauthorized error.
pub fn authenticate(user: Option<User>) -> (r: Result<(User, i64), AccessError>)
    ensures
        match user {
            Some(u) => r == Ok::<(User, i64), AccessError>((u, u.id)),
            None => r == Err::<(User, i64), AccessError>(AccessError::Unauthorized),
        },
{
    match user {
        Some(u) => {
            let id = u.id;
            Ok((u, id))
        },
        None => Err(AccessError::Unauthorized),
    }
}

/// Where a failed login returns to: the login page, carrying the caller's
/// intended destination so a later success can resume it.
pub fn login_redirect(next: Option<&String>) -> (r: String)
    ensures
        match next {
            Some(n) => r@ == "/login?next="@ + n@,
            None => r@ == "/login"@,
        },
{
    match next {
        Some(n) => {
            let mut target = String::from_str("/login?next=");
            target.append(n.as_str());
            target
        },
        None => String::from_str("/login"),
    }
}

/// Whether `password` matches a stored password hash; a function of the two
/// strings alone.
pub uninterp spec fn password_matches(password: Seq<char>, hash: Seq<char>) -> bool;

/// Relies on password_auth::verify_password: whether the password matches
/// the PHC-formatted hash, deterministically in its two arguments.
#[verifier::external_body]
fn verify_password_hash(password: &str, hash: &str) -> (r: bool)
    ensures
        r == password_matches(password@, hash@),
{
    password_auth::verify_password(password, hash).is_ok()
}

/// The login decision once the user row is fetched: the user passes exactly
/// when the row exists and the password matches its stored hash.
pub fn authenticate_user(user: Option<User>, password: &str) -> (r: Option<User>)
    ensures
        match user {
            None => r is None,
            Some(u) => if password_matches(password@, u.auth_hash@) {
                r == Some(u)
            } else {
                r is None
            },
        },
{
    match user {
        Some(u) => {
            if verify_password_hash(password, u.auth_hash.as_str()) {
                Some(u)
            } else {
                None
            }
        },
        None => None,
    }
}

} // verus!
