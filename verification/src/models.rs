//! Entity models, kept as plain values: identifiers are strings, instants
//! are unix timestamps in seconds.

use vstd::prelude::*;

verus! {

/// Registration state of a participant.
#[derive(Clone, Copy, Debug, PartialEq, Eq, Structural)]
pub enum ParticipantStatus {
    Registered,
    Confirmed,
    Cancelled,
    Waitlisted,
}

impl ParticipantStatus {
    /// The lower-case tag this status carries on the wire and in storage.
    pub open spec fn spec_label(self) -> Seq<char> {
        match self {
            ParticipantStatus::Registered => "registered"@,
            ParticipantStatus::Confirmed => "confirmed"@,
            ParticipantStatus::Cancelled => "cancelled"@,
            ParticipantStatus::Waitlisted => "waitlisted"@,
        }
    }

    pub fn label(&self) -> (r: String)
        ensures
            r@ == self.spec_label(),
    {
        match self {
            ParticipantStatus::Registered => String::from_str("registered"),
            ParticipantStatus::Confirmed => String::from_str("confirmed"),
            ParticipantStatus::Cancelled => String::from_str("cancelled"),
            ParticipantStatus::Waitlisted => String::from_str("waitlisted"),
        }
    }

    /// Reads a status back from its lower-case tag; `None` on any other
    /// string.
    pub fn parse(s: &String) -> (r: Option<ParticipantStatus>)
        ensures
            r matches Some(st) ==> s@ == st.spec_label(),
            r is None ==> forall|st: ParticipantStatus| s@ != st.spec_label(),
    {
        let registered = String::from_str("registered");
        let confirmed = String::from_str("confirmed");
        let cancelled = String::from_str("cancelled");
        let waitlisted = String::from_str("waitlisted");
        if *s == registered {
            Some(ParticipantStatus::Registered)
        } else if *s == confirmed {
            Some(ParticipantStatus::Confirmed)
        } else if *s == cancelled {
            Some(ParticipantStatus::Cancelled)
        } else if *s == waitlisted {
            Some(ParticipantStatus::Waitlisted)
        } else {
            proof {
                assert forall|st: ParticipantStatus| s@ != st.spec_label() by {
                    match st {
                        ParticipantStatus::Registered => assert(s@ != "registered"@),
                        ParticipantStatus::Confirmed => assert(s@ != "confirmed"@),
                        ParticipantStatus::Cancelled => assert(s@ != "cancelled"@),
                        ParticipantStatus::Waitlisted => assert(s@ != "waitlisted"@),
                    }
                }
            }
            None
        }
    }
}

/// A stored event.
#[derive(Debug)]
pub struct Event {
    pub id: String,
    pub title: String,
    pub description: Option<String>,
    pub start_time: i64,
    pub end_time: i64,
    pub location: Option<String>,
    pub max_participants: Option<i32>,
    pub created_at: i64,
    pub updated_at: i64,
}

/// A stored participant of one event.
#[derive(Debug)]
pub struct Participant {
    pub id: String,
    pub event_id: String,
    pub name: String,
    pub email: String,
    pub status: ParticipantStatus,
    pub registered_at: i64,
    pub updated_at: i64,
}

/// Request body for creating or replacing an event.
#[derive(Debug)]
pub struct CreateEvent {
    pub title: String,
    pub description: Option<String>,
    pub start_time: i64,
    pub end_time: i64,
    pub location: Option<String>,
    pub max_participants: Option<i32>,
}

/// Request body for registering a participant.
#[derive(Debug)]
pub struct CreateParticipant {
    pub event_id: String,
    pub name: String,
    pub email: String,
}

/// Request body for changing a participant's status.
#[derive(Debug)]
pub struct UpdateParticipantStatus {
    pub status: ParticipantStatus,
}

impl Clone for Event {
    fn clone(&self) -> (r: Self)
        ensures
            r == *self,
    {
        Event {
            id: self.id.clone(),
            title: self.title.clone(),
            description: match &self.description {
                Some(d) => Some(d.clone()),
                None => None,
            },
            start_time: self.start_time,
            end_time: self.end_time,
            location: match &self.location {
                Some(l) => Some(l.clone()),
                None => None,
            },
            max_participants: self.max_participants,
            created_at: self.created_at,
            updated_at: self.updated_at,
        }
    }
}

impl Clone for Participant {
    fn clone(&self) -> (r: Self)
        ensures
            r == *self,
    {
        Participant {
            id: self.id.clone(),
            event_id: self.event_id.clone(),
            name: self.name.clone(),
            email: self.email.clone(),
            status: self.status,
            registered_at: self.registered_at,
            updated_at: self.updated_at,
        }
    }
}

impl Event {
    /// The stored event a creation request becomes, under a fresh id at
    /// instant `now`: both bookkeeping timestamps start at `now`.
    pub fn create(id: String, now: i64, p: CreateEvent) -> (e: Event)
        ensures
            e.id == id,
            e.title == p.title,
            e.description == p.description,
            e.start_time == p.start_time,
            e.end_time == p.end_time,
            e.location == p.location,
            e.max_participants == p.max_participants,
            e.created_at == now,
            e.updated_at == now,
    {
        Event {
            id,
            title: p.title,
            description: p.description,
            start_time: p.start_time,
            end_time: p.end_time,
            location: p.location,
            max_participants: p.max_participants,
            created_at: now,
            updated_at: now,
        }
    }

    /// This event with every requested field replaced at instant `now`;
    /// identity and creation instant stay.
    pub fn apply_update(&self, p: CreateEvent, now: i64) -> (e: Event)
        ensures
            e.id == self.id,
            e.title == p.title,
            e.description == p.description,
            e.start_time == p.start_time,
            e.end_time == p.end_time,
            e.location == p.location,
            e.max_participants == p.max_participants,
            e.created_at == self.created_at,
            e.updated_at == now,
    {
        Event {
            id: self.id.clone(),
            title: p.title,
            description: p.description,
            start_time: p.start_time,
            end_time: p.end_time,
            location: p.location,
            max_participants: p.max_participants,
            created_at: self.created_at,
            updated_at: now,
        }
    }
}

impl Participant {
    /// The stored participant a registration becomes, under a fresh id at
    /// instant `now`: always registered first, whatever happens later.
    pub fn create(id: String, now: i64, p: CreateParticipant) -> (r: Participant)
        ensures
            r.id == id,
            r.event_id == p.event_id,
            r.name == p.name,
            r.email == p.email,
            r.status == ParticipantStatus::Registered,
            r.registered_at == now,
            r.updated_at == now,
    {
        Participant {
            id,
            event_id: p.event_id,
            name: p.name,
            email: p.email,
            status: ParticipantStatus::Registered,
            registered_at: now,
            updated_at: now,
        }
    }

    /// This participant moved to `status` at instant `now`; everything
    /// else, the registration instant included, stays.
    pub fn with_status(&self, status: ParticipantStatus, now: i64) -> (r: Participant)
        ensures
            r.id == self.id,
            r.event_id == self.event_id,
            r.name == self.name,
            r.email == self.email,
            r.status == status,
            r.registered_at == self.registered_at,
            r.updated_at == now,
    {
        Participant {
            id: self.id.clone(),
            event_id: self.event_id.clone(),
            name: self.name.clone(),
            email: self.email.clone(),
            status,
            registered_at: self.registered_at,
            updated_at: now,
        }
    }
}

} // verus!
