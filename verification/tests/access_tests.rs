use zerra_core::access::{
    attend_gate, authenticate, authenticate_user, check_ownership, transcribe_gate, AccessError,
    AttendDecision, User,
};
use zerra_core::zerra::{Progress, QueryStatus};

fn user(hash: &str) -> User {
    User {
        id: 7,
        username: "ana".to_string(),
        display_name: "Ana".to_string(),
        is_male: false,
        auth_hash: hash.to_string(),
    }
}

#[test]
fn first_attendee_is_admitted_and_bound() {
    assert_eq!(
        attend_gate(&Progress::NotStarted, None),
        Ok(AttendDecision::FirstAttendee)
    );
    assert_eq!(
        attend_gate(&Progress::NotStarted, Some(&"whoever".to_string())),
        Ok(AttendDecision::FirstAttendee)
    );
}

#[test]
fn bound_attendee_may_return() {
    let uuid = "7544143b2ee3486fa29c7870f5ba405c".to_string();
    let progress = Progress::Intro {
        participant_uuid: uuid.clone(),
    };
    assert_eq!(attend_gate(&progress, Some(&uuid)), Ok(AttendDecision::Returning));
}

#[test]
fn strangers_may_not_attend_a_progressed_zerra() {
    let progress = Progress::Ongoing {
        participant_uuid: "abc".to_string(),
        participant_name: "Bo".to_string(),
        view: vec![0, 1],
        query_status: QueryStatus::Answering,
    };
    assert_eq!(attend_gate(&progress, None), Err(AccessError::Unauthorized));
    assert_eq!(
        attend_gate(&progress, Some(&"other".to_string())),
        Err(AccessError::Unauthorized)
    );
}

#[test]
fn only_the_bound_attendee_of_a_printable_finished_zerra_transcribes() {
    let finished = Progress::Finished {
        participant_uuid: "abc".to_string(),
        participant_name: "Bo".to_string(),
        printable: true,
    };
    assert_eq!(transcribe_gate(&finished, Some(&"abc".to_string())), Ok(()));
    assert_eq!(
        transcribe_gate(&finished, Some(&"zzz".to_string())),
        Err(AccessError::Unauthorized)
    );
    assert_eq!(transcribe_gate(&finished, None), Err(AccessError::Unauthorized));
}

#[test]
fn unprintable_or_unfinished_zerrae_are_not_transcribed() {
    let unprintable = Progress::Finished {
        participant_uuid: "abc".to_string(),
        participant_name: "Bo".to_string(),
        printable: false,
    };
    assert_eq!(
        transcribe_gate(&unprintable, Some(&"abc".to_string())),
        Err(AccessError::Forbidden)
    );
    assert_eq!(
        transcribe_gate(&Progress::NotStarted, Some(&"abc".to_string())),
        Err(AccessError::NotFound)
    );
}

#[test]
fn ownership_requires_a_nonzero_count() {
    assert_eq!(check_ownership(1), Ok(()));
    assert_eq!(check_ownership(3), Ok(()));
    assert_eq!(check_ownership(0), Err(AccessError::Unauthorized));
}

#[test]
fn a_request_without_a_user_is_unauthorized() {
    assert_eq!(authenticate(None), Err(AccessError::Unauthorized));
    let u = user("x");
    assert_eq!(authenticate(Some(u.clone())), Ok((u, 7)));
}

#[test]
fn login_accepts_the_right_password_only() {
    let hash = password_auth::generate_hash("open sesame");
    let u = user(&hash);
    assert_eq!(
        authenticate_user(Some(u.clone()), "open sesame"),
        Some(u.clone())
    );
    assert_eq!(authenticate_user(Some(u), "wrong"), None);
    assert_eq!(authenticate_user(None, "open sesame"), None);
}

#[test]
fn failed_logins_return_to_the_login_page() {
    assert_eq!(zerra_core::access::login_redirect(None), "/login");
    assert_eq!(
        zerra_core::access::login_redirect(Some(&"/api/export/x".to_string())),
        "/login?next=/api/export/x"
    );
}
