//! The payloads change records carry: a small serialized description of
//! one mutation — operation, table, identifiers, timestamp. Consumers
//! treat the text as opaque and re-fetch what they need; identifiers and
//! timestamps are plain characters, so no escaping is called for.

use vstd::prelude::*;

verus! {

/// The payload text describing one entity mutation.
pub open spec fn spec_change_payload(
    operation: Seq<char>,
    table: Seq<char>,
    id: Seq<char>,
    timestamp: Seq<char>,
) -> Seq<char> {
    "{\"id\":\""@ + id + "\",\"operation\":\""@ + operation + "\",\"table\":\""@ + table
        + "\",\"timestamp\":\""@ + timestamp + "\"}"@
}

/// The payload text describing one participant mutation; the event it
/// belongs to rides along when known, else as null.
pub open spec fn spec_participant_change_payload(
    operation: Seq<char>,
    id: Seq<char>,
    event_id: Option<Seq<char>>,
    timestamp: Seq<char>,
) -> Seq<char> {
    let event_part = match event_id {
        Some(e) => "\""@ + e + "\""@,
        None => "null"@,
    };
    "{\"event_id\":"@ + event_part + ",\"id\":\""@ + id + "\",\"operation\":\""@ + operation
        + "\",\"table\":\"participants\",\"timestamp\":\""@ + timestamp + "\"}"@
}

/// Renders the payload for one entity mutation, exactly as
/// [`spec_change_payload`] lays it out.
pub fn change_payload(operation: &str, table: &str, id: &str, timestamp: &str) -> (r: String)
    ensures
        r@ == spec_change_payload(operation@, table@, id@, timestamp@),
{
    let mut out = String::new();
    out.append("{\"id\":\"");
    out.append(id);
    out.append("\",\"operation\":\"");
    out.append(operation);
    out.append("\",\"table\":\"");
    out.append(table);
    out.append("\",\"timestamp\":\"");
    out.append(timestamp);
    out.append("\"}");
    proof {
        assert(out@ =~= spec_change_payload(operation@, table@, id@, timestamp@));
    }
    out
}

/// Renders the payload for one participant mutation, exactly as
/// [`spec_participant_change_payload`] lays it out.
pub fn participant_change_payload(
    operation: &str,
    id: &str,
    event_id: Option<&String>,
    timestamp: &str,
) -> (r: String)
    ensures
        ({
            let event_view = match event_id {
                Some(e) => Some(e@),
                None => None,
            };
            r@ == spec_participant_change_payload(operation@, id@, event_view, timestamp@)
        }),
{
    let mut out = String::new();
    out.append("{\"event_id\":");
    match event_id {
        Some(e) => {
            out.append("\"");
            out.append(e.as_str());
            out.append("\"");
        },
        None => {
            out.append("null");
        },
    }
    out.append(",\"id\":\"");
    out.append(id);
    out.append("\",\"operation\":\"");
    out.append(operation);
    out.append("\",\"table\":\"participants\",\"timestamp\":\"");
    out.append(timestamp);
    out.append("\"}");
    proof {
        let event_view = match event_id {
            Some(e) => Some(e@),
            None => None::<Seq<char>>,
        };
        assert(out@ =~= spec_participant_change_payload(operation@, id@, event_view,
            timestamp@));
    }
    out
}

} // verus!
