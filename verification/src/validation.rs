//! Request validation and the admission decision for registrations: the
//! parts of the mutation handlers that decide, separated from storage.

use vstd::prelude::*;
use crate::models::CreateEvent;

verus! {

/// Characters treated as blank space when deciding whether a required text
/// field is missing: the Unicode White_Space set, the one `char` calls
/// whitespace and trimming strips.
pub open spec fn is_space(c: char) -> bool {
    ||| c == '\u{0009}'  // horizontal tab
    ||| c == '\u{000A}'  // line feed
    ||| c == '\u{000B}'  // vertical tab
    ||| c == '\u{000C}'  // form feed
    ||| c == '\u{000D}'  // carriage return
    ||| c == '\u{0020}'  // space
    ||| c == '\u{0085}'  // next line
    ||| c == '\u{00A0}'  // no-break space
    ||| c == '\u{1680}'  // ogham space mark
    ||| c == '\u{2000}'  // en quad
    ||| c == '\u{2001}'  // em quad
    ||| c == '\u{2002}'  // en space
    ||| c == '\u{2003}'  // em space
    ||| c == '\u{2004}'  // three-per-em space
    ||| c == '\u{2005}'  // four-per-em space
    ||| c == '\u{2006}'  // six-per-em space
    ||| c == '\u{2007}'  // figure space
    ||| c == '\u{2008}'  // punctuation space
    ||| c == '\u{2009}'  // thin space
    ||| c == '\u{200A}'  // hair space
    ||| c == '\u{2028}'  // line separator
    ||| c == '\u{2029}'  // paragraph separator
    ||| c == '\u{202F}'  // narrow no-break space
    ||| c == '\u{205F}'  // medium mathematical space
    ||| c == '\u{3000}'  // ideographic space
}

/// A string counts as blank when every character is blank space; the empty
/// string is blank. This is exactly: the string trims to nothing.
pub open spec fn blank(s: Seq<char>) -> bool {
    forall|i: int| 0 <= i < s.len() ==> is_space(#[trigger] s[i])
}

/// Decides [`is_space`] for one character.
fn space_char(c: char) -> (r: bool)
    ensures
        r == is_space(c),
{
    match c {
        '\u{0009}' => true,
        '\u{000A}' => true,
        '\u{000B}' => true,
        '\u{000C}' => true,
        '\u{000D}' => true,
        '\u{0020}' => true,
        '\u{0085}' => true,
        '\u{00A0}' => true,
        '\u{1680}' => true,
        '\u{2000}' => true,
        '\u{2001}' => true,
        '\u{2002}' => true,
        '\u{2003}' => true,
        '\u{2004}' => true,
        '\u{2005}' => true,
        '\u{2006}' => true,
        '\u{2007}' => true,
        '\u{2008}' => true,
        '\u{2009}' => true,
        '\u{200A}' => true,
        '\u{2028}' => true,
        '\u{2029}' => true,
        '\u{202F}' => true,
        '\u{205F}' => true,
        '\u{3000}' => true,
        _ => false,
    }
}

/// Decides blankness exactly as [`blank`] states it.
pub fn is_blank(s: &str) -> (r: bool)
    ensures
        r == blank(s@),
{
    let n = s.unicode_len();
    let mut i: usize = 0;
    while i < n
        invariant
            n == s@.len(),
            0 <= i <= n,
            forall|j: int| 0 <= j < i ==> is_space(#[trigger] s@[j]),
        decreases n - i,
    {
        let c = s.get_char(i);
        if !space_char(c) {
            return false;
        }
        i += 1;
    }
    true
}

/// Why an event request was rejected.
#[derive(Clone, Copy, Debug, PartialEq, Eq, Structural)]
pub enum EventValidationError {
    /// The end instant does not lie strictly after the start instant.
    EndNotAfterStart,
    /// A participant limit was given but is zero or negative.
    NonPositiveMaxParticipants,
    /// The title is empty or blank space only.
    BlankTitle,
}

/// What a valid event request looks like.
pub open spec fn create_event_valid(p: CreateEvent) -> bool {
    &&& p.end_time > p.start_time
    &&& (p.max_participants matches Some(m) ==> m > 0)
    &&& !blank(p.title@)
}

/// Accepts or rejects an event request. The time range is checked first,
/// then the participant limit, then the title, and the first failure wins.
pub fn validate_create_event(p: &CreateEvent) -> (r: Result<(), EventValidationError>)
    ensures
        r is Ok <==> create_event_valid(*p),
        r == Err::<(), _>(EventValidationError::EndNotAfterStart) <==> p.end_time
            <= p.start_time,
        r == Err::<(), _>(EventValidationError::NonPositiveMaxParticipants) <==> p.end_time
            > p.start_time && (p.max_participants matches Some(m) && m <= 0),
        r == Err::<(), _>(EventValidationError::BlankTitle) <==> p.end_time > p.start_time
            && (p.max_participants matches Some(m) ==> m > 0) && blank(p.title@),
{
    if p.end_time <= p.start_time {
        return Err(EventValidationError::EndNotAfterStart);
    }
    if let Some(max) = p.max_participants {
        if max <= 0 {
            return Err(EventValidationError::NonPositiveMaxParticipants);
        }
    }
    if is_blank(p.title.as_str()) {
        return Err(EventValidationError::BlankTitle);
    }
    Ok(())
}

/// Why a registration request was rejected.
#[derive(Clone, Copy, Debug, PartialEq, Eq, Structural)]
pub enum RegistrationError {
    /// The name field is empty or blank space only.
    BlankName,
    /// The email field is empty or blank space only.
    BlankEmail,
    /// No event with the requested id exists.
    EventNotFound,
    /// The event has a participant limit and it is already reached.
    EventFull,
    /// The same email is already registered for this event.
    AlreadyRegistered,
}

/// Accepts or rejects a registration, given what storage reported about the
/// event: `event` is `None` when the event does not exist, else its
/// participant limit (itself optional); `current_count` is how many
/// participants the event has; `already_registered` says whether this email
/// is taken for this event. Checks run in that order and the first failure
/// wins.
pub fn registration_decision(
    name_blank: bool,
    email_blank: bool,
    event: Option<Option<i32>>,
    current_count: i64,
    already_registered: bool,
) -> (r: Result<(), RegistrationError>)
    ensures
        r == Err::<(), _>(RegistrationError::BlankName) <==> name_blank,
        r == Err::<(), _>(RegistrationError::BlankEmail) <==> !name_blank && email_blank,
        r == Err::<(), _>(RegistrationError::EventNotFound) <==> !name_blank && !email_blank
            && event is None,
        r == Err::<(), _>(RegistrationError::EventFull) <==> !name_blank && !email_blank
            && (event matches Some(Some(m)) && current_count >= m as i64),
        r == Err::<(), _>(RegistrationError::AlreadyRegistered) <==> !name_blank
            && !email_blank && event is Some && !(event matches Some(Some(m))
            && current_count >= m as i64) && already_registered,
        r is Ok <==> !name_blank && !email_blank && event is Some && !(event matches Some(
            Some(m),
        ) && current_count >= m as i64) && !already_registered,
{
    if name_blank {
        return Err(RegistrationError::BlankName);
    }
    if email_blank {
        return Err(RegistrationError::BlankEmail);
    }
    let max = match event {
        None => {
            return Err(RegistrationError::EventNotFound);
        },
        Some(max) => max,
    };
    if let Some(m) = max {
        if current_count >= m as i64 {
            return Err(RegistrationError::EventFull);
        }
    }
    if already_registered {
        return Err(RegistrationError::AlreadyRegistered);
    }
    Ok(())
}

} // verus!
