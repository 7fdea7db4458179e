use backend::models::{CreateEvent, CreateParticipant, Event, Participant, ParticipantStatus};
use backend::validation::{
    is_blank, registration_decision, validate_create_event, EventValidationError,
    RegistrationError,
};

fn s(text: &str) -> String {
    String::from(text)
}

fn valid_request() -> CreateEvent {
    CreateEvent {
        title: s("Team day"),
        description: Some(s("All hands")),
        start_time: 1000,
        end_time: 2000,
        location: Some(s("Room 1")),
        max_participants: Some(10),
    }
}

#[test]
fn a_valid_event_request_is_accepted() {
    assert_eq!(validate_create_event(&valid_request()), Ok(()));
}

#[test]
fn end_time_must_lie_strictly_after_start_time() {
    let mut p = valid_request();
    p.end_time = p.start_time;
    assert_eq!(validate_create_event(&p), Err(EventValidationError::EndNotAfterStart));
    p.end_time = p.start_time - 1;
    assert_eq!(validate_create_event(&p), Err(EventValidationError::EndNotAfterStart));
}

#[test]
fn a_participant_limit_must_be_positive() {
    let mut p = valid_request();
    p.max_participants = Some(0);
    assert_eq!(
        validate_create_event(&p),
        Err(EventValidationError::NonPositiveMaxParticipants)
    );
    p.max_participants = Some(-3);
    assert_eq!(
        validate_create_event(&p),
        Err(EventValidationError::NonPositiveMaxParticipants)
    );
    p.max_participants = None;
    assert_eq!(validate_create_event(&p), Ok(()));
}

#[test]
fn a_blank_title_is_rejected() {
    let mut p = valid_request();
    p.title = s("");
    assert_eq!(validate_create_event(&p), Err(EventValidationError::BlankTitle));
    p.title = s("  \t\n ");
    assert_eq!(validate_create_event(&p), Err(EventValidationError::BlankTitle));
}

#[test]
fn the_first_failing_check_names_the_error() {
    // both the time range and the title are wrong: the range wins
    let mut p = valid_request();
    p.end_time = p.start_time;
    p.title = s(" ");
    assert_eq!(validate_create_event(&p), Err(EventValidationError::EndNotAfterStart));
}

#[test]
fn blankness_is_whitespace_only() {
    assert!(is_blank(""));
    assert!(is_blank("   "));
    assert!(is_blank(" \t\r\n"));
    assert!(!is_blank(" a "));
    assert!(!is_blank("x"));
}

#[test]
fn blankness_covers_all_unicode_whitespace() {
    // every character here trims to nothing, so each string is blank
    assert!(is_blank("\u{000B}"));
    assert!(is_blank("\u{000C}"));
    assert!(is_blank("\u{0085}"));
    assert!(is_blank("\u{00A0}"));
    assert!(is_blank("\u{1680}"));
    assert!(is_blank("\u{2003}\u{2009}"));
    assert!(is_blank("\u{2028}\u{2029}"));
    assert!(is_blank("\u{202F}\u{205F}\u{3000}"));
    // agreement with trim on both sides of the line
    for sample in ["\u{000B}", " \u{00A0} ", "\u{3000}", "a\u{000B}", "\u{200B}"] {
        assert_eq!(is_blank(sample), sample.trim().is_empty());
    }
    // zero-width space is not whitespace, neither for trim nor here
    assert!(!is_blank("\u{200B}"));
}

#[test]
fn a_title_of_unicode_whitespace_only_is_rejected() {
    let mut p = valid_request();
    p.title = s("\u{000B}");
    assert_eq!(validate_create_event(&p), Err(EventValidationError::BlankTitle));
    p.title = s("\u{00A0}\u{2003}");
    assert_eq!(validate_create_event(&p), Err(EventValidationError::BlankTitle));
}

#[test]
fn a_name_of_unicode_whitespace_only_is_rejected() {
    assert_eq!(
        registration_decision(is_blank("\u{000C}"), false, Some(None), 0, false),
        Err(RegistrationError::BlankName)
    );
    assert_eq!(
        registration_decision(false, is_blank("\u{2028}"), Some(None), 0, false),
        Err(RegistrationError::BlankEmail)
    );
}

#[test]
fn registration_is_refused_for_each_reason_in_order() {
    assert_eq!(
        registration_decision(true, true, None, 0, false),
        Err(RegistrationError::BlankName)
    );
    assert_eq!(
        registration_decision(false, true, None, 0, false),
        Err(RegistrationError::BlankEmail)
    );
    assert_eq!(
        registration_decision(false, false, None, 0, false),
        Err(RegistrationError::EventNotFound)
    );
    assert_eq!(
        registration_decision(false, false, Some(Some(2)), 2, false),
        Err(RegistrationError::EventFull)
    );
    assert_eq!(
        registration_decision(false, false, Some(Some(2)), 1, true),
        Err(RegistrationError::AlreadyRegistered)
    );
    assert_eq!(
        registration_decision(false, false, Some(None), 1000000, true),
        Err(RegistrationError::AlreadyRegistered)
    );
}

#[test]
fn registration_is_admitted_below_the_limit_or_without_one() {
    assert_eq!(registration_decision(false, false, Some(Some(2)), 1, false), Ok(()));
    assert_eq!(registration_decision(false, false, Some(None), 1000000, false), Ok(()));
}

#[test]
fn created_event_carries_request_fields_and_both_timestamps() {
    let e = Event::create(s("id-1"), 777, valid_request());
    assert_eq!(e.id, "id-1");
    assert_eq!(e.title, "Team day");
    assert_eq!(e.start_time, 1000);
    assert_eq!(e.end_time, 2000);
    assert_eq!(e.max_participants, Some(10));
    assert_eq!(e.created_at, 777);
    assert_eq!(e.updated_at, 777);
}

#[test]
fn updating_an_event_keeps_identity_and_creation_instant() {
    let e = Event::create(s("id-1"), 777, valid_request());
    let mut change = valid_request();
    change.title = s("Moved");
    change.start_time = 3000;
    change.end_time = 4000;
    let e2 = e.apply_update(change, 888);
    assert_eq!(e2.id, "id-1");
    assert_eq!(e2.title, "Moved");
    assert_eq!(e2.start_time, 3000);
    assert_eq!(e2.created_at, 777);
    assert_eq!(e2.updated_at, 888);
}

#[test]
fn a_new_participant_starts_registered() {
    let p = Participant::create(
        s("p-1"),
        555,
        CreateParticipant { event_id: s("e-1"), name: s("Jane"), email: s("jane@test.com") },
    );
    assert_eq!(p.status, ParticipantStatus::Registered);
    assert_eq!(p.event_id, "e-1");
    assert_eq!(p.registered_at, 555);
    assert_eq!(p.updated_at, 555);

    let p2 = p.with_status(ParticipantStatus::Confirmed, 600);
    assert_eq!(p2.status, ParticipantStatus::Confirmed);
    assert_eq!(p2.registered_at, 555);
    assert_eq!(p2.updated_at, 600);
    assert_eq!(p2.email, "jane@test.com");
}

#[test]
fn status_labels_round_trip_through_parse() {
    for st in [
        ParticipantStatus::Registered,
        ParticipantStatus::Confirmed,
        ParticipantStatus::Cancelled,
        ParticipantStatus::Waitlisted,
    ] {
        let label = st.label();
        assert_eq!(ParticipantStatus::parse(&label), Some(st));
    }
    assert_eq!(ParticipantStatus::parse(&s("registered")), Some(ParticipantStatus::Registered));
    assert_eq!(ParticipantStatus::parse(&s("unknown")), None);
    assert_eq!(ParticipantStatus::parse(&s("Registered")), None);
}
