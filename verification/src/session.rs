//! The record of a session's state changes.

use vstd::prelude::*;
use crate::text;

verus! {

/// One change of state.
#[derive(Debug, PartialEq, Eq)]
pub struct TransitionRecord {
    pub timestamp_secs: u64,
    pub from: String,
    pub to: String,
    pub kind: String,
    pub reason: Option<String>,
}

impl Clone for TransitionRecord {
    fn clone(&self) -> (r: Self)
        ensures
            r == *self,
    {
        TransitionRecord {
            timestamp_secs: self.timestamp_secs,
            from: self.from.clone(),
            to: self.to.clone(),
            kind: self.kind.clone(),
            reason: text::opt_owned(&self.reason),
        }
    }
}

/// The transcript line of a change of state.
pub open spec fn state_text(session: Seq<char>, t: TransitionRecord) -> Seq<char> {
    let head = "["@ + text::decimal(t.timestamp_secs as nat) + "] ["@ + session + "] STATE: "@
        + t.from@ + " -> "@ + t.to@ + " ("@ + t.kind@ + ")"@;
    (match t.reason {
        Some(reason) => head + " reason="@ + reason@,
        None => head,
    }) + "\n\n"@
}

/// Renders the transcript line of a change of state.
pub fn state_line(session_id: &str, record: &TransitionRecord) -> (r: String)
    ensures
        r@ == state_text(session_id@, *record),
{
    let mut out = text::owned("[");
    out.append(text::decimal_of(record.timestamp_secs).as_str());
    out.append("] [");
    out.append(session_id);
    out.append("] STATE: ");
    out.append(record.from.as_str());
    out.append(" -> ");
    out.append(record.to.as_str());
    out.append(" (");
    out.append(record.kind.as_str());
    out.append(")");
    if let Some(reason) = &record.reason {
        out.append(" reason=");
        out.append(reason.as_str());
    }
    out.append("\n\n");
    out
}

/// The transcript line of the start of a session.
pub open spec fn start_text(ts: u64, session: Seq<char>) -> Seq<char> {
    "["@ + text::decimal(ts as nat) + "] ["@ + session + "] STATE: -> Running (start)\n\n"@
}

/// Renders the transcript line of the start of a session.
pub fn start_line(ts: u64, session_id: &str) -> (r: String)
    ensures
        r@ == start_text(ts, session_id@),
{
    let mut out = text::owned("[");
    out.append(text::decimal_of(ts).as_str());
    out.append("] [");
    out.append(session_id);
    out.append("] STATE: -> Running (start)\n\n");
    out
}

// ---------------------------------------------------------------------------
// Laws
// ---------------------------------------------------------------------------

/// A line on a change of the session shows both states, in their order, what brought it
/// about and, where one was given, the reason.
pub proof fn law_state_lines_show_the_change(session: Seq<char>, t: TransitionRecord)
    ensures
        text::occurs(state_text(session, t), session),
        text::occurs(state_text(session, t), text::decimal(t.timestamp_secs as nat)),
        text::occurs(state_text(session, t), "] STATE: "@ + t.from@),
        text::occurs(state_text(session, t), " -> "@ + t.to@),
        text::occurs(state_text(session, t), " ("@ + t.kind@),
        t.reason is Some ==> text::occurs(state_text(session, t), " reason="@ + t.reason->0@),
{
    broadcast use text::group_occurs;

}

/// The first line of a session shows its time and its name.
pub proof fn law_start_lines_show_the_session(ts: u64, session: Seq<char>)
    ensures
        text::occurs(start_text(ts, session), text::decimal(ts as nat)),
        text::occurs(start_text(ts, session), session),
{
    broadcast use text::group_occurs;

}

} // verus!
