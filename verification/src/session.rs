//! WebSocket Bridge session: the lifecycle of one bridged upgrade. A
//! session moves through upgrading, connected, closing and closed; once
//! connected, two relay loops run, one per direction, and the session ends
//! only when both have finished. The first unrecoverable error from either
//! loop is the session's reported result; a clean close by either peer is
//! not an error. This module also builds the backend handshake target from
//! the inbound request's path and query.

use crate::frames::{
    ui_to_wire, ui_to_wire_spec, wire_to_ui, wire_to_ui_spec, ProtocolError, UiMessage,
    WireMessage,
};
use vstd::prelude::*;

verus! {

/// Where a bridged session stands in its lifecycle.
#[derive(Clone, Copy, Debug, PartialEq, Eq)]
pub enum SessionPhase {
    /// The inbound upgrade and the outbound handshake are in flight.
    Upgrading,
    /// Both message streams are up; both relay loops run.
    Connected,
    /// One relay loop has finished; the session waits for the other.
    Closing,
    /// Both relay loops have finished, or the upgrade failed.
    Closed,
}

/// One bridged session: its phase and the first unrecoverable error from
/// either relay loop (or from the handshake), if any.
#[derive(Clone, Debug, PartialEq, Eq)]
pub struct Session {
    pub phase: SessionPhase,
    pub first_error: Option<Vec<u8>>,
}

/// What the outside work reports to the session: the outbound handshake
/// succeeded or failed, or one relay loop finished — cleanly, or with the
/// unrecoverable error that stopped it.
#[derive(Clone, Debug, PartialEq, Eq)]
pub enum SessionEvent {
    UpgradeOk,
    UpgradeFailed(Vec<u8>),
    LoopFinished(Option<Vec<u8>>),
}

/// A fresh session, before the handshakes complete.
pub open spec fn session_init_spec() -> Session {
    Session { phase: SessionPhase::Upgrading, first_error: None }
}

/// The session's next state under an event. A failed handshake closes the
/// session at once with its error as the result. A finished relay loop
/// moves connected to closing and closing to closed, recording the loop's
/// error when it is the first; so the session reaches closed only when
/// both loops have finished, and its result is the first error either
/// direction hit. Events that do not belong to the current phase change
/// nothing.
pub open spec fn session_step_spec(s: Session, ev: SessionEvent) -> Session {
    match ev {
        SessionEvent::UpgradeOk => {
            if s.phase is Upgrading {
                Session { phase: SessionPhase::Connected, first_error: s.first_error }
            } else {
                s
            }
        },
        SessionEvent::UpgradeFailed(e) => {
            if s.phase is Upgrading {
                Session {
                    phase: SessionPhase::Closed,
                    first_error: if s.first_error is None {
                        Some(e)
                    } else {
                        s.first_error
                    },
                }
            } else {
                s
            }
        },
        SessionEvent::LoopFinished(r) => {
            if s.phase is Connected || s.phase is Closing {
                Session {
                    phase: if s.phase is Connected {
                        SessionPhase::Closing
                    } else {
                        SessionPhase::Closed
                    },
                    first_error: if s.first_error is None {
                        r
                    } else {
                        s.first_error
                    },
                }
            } else {
                s
            }
        },
    }
}

/// A fresh session.
pub fn session_init() -> (s: Session)
    ensures
        s == session_init_spec(),
{
    Session { phase: SessionPhase::Upgrading, first_error: None }
}

/// Advances the session by one event: exactly the transition of
/// `session_step_spec`.
pub fn session_step(s: Session, ev: SessionEvent) -> (r: Session)
    ensures
        r == session_step_spec(s, ev),
{
    let Session { phase, first_error } = s;
    match ev {
        SessionEvent::UpgradeOk => {
            match phase {
                SessionPhase::Upgrading => Session { phase: SessionPhase::Connected, first_error },
                _ => Session { phase, first_error },
            }
        },
        SessionEvent::UpgradeFailed(e) => {
            match phase {
                SessionPhase::Upgrading => Session {
                    phase: SessionPhase::Closed,
                    first_error: if first_error.is_none() {
                        Some(e)
                    } else {
                        first_error
                    },
                },
                _ => Session { phase, first_error },
            }
        },
        SessionEvent::LoopFinished(r) => {
            match phase {
                SessionPhase::Connected => Session {
                    phase: SessionPhase::Closing,
                    first_error: if first_error.is_none() {
                        r
                    } else {
                        first_error
                    },
                },
                SessionPhase::Closing => Session {
                    phase: SessionPhase::Closed,
                    first_error: if first_error.is_none() {
                        r
                    } else {
                        first_error
                    },
                },
                _ => Session { phase, first_error },
            }
        },
    }
}

/// Law: after a successful upgrade, the two relay loops finishing — in
/// either order — close the session, and its result is the first error
/// among them: none when both ended cleanly, so a clean close by either
/// peer is not an error.
pub proof fn lemma_session_both_loops_close(ra: Option<Vec<u8>>, rb: Option<Vec<u8>>)
    ensures
        ({
            let s = session_step_spec(
                session_step_spec(
                    session_step_spec(session_init_spec(), SessionEvent::UpgradeOk),
                    SessionEvent::LoopFinished(ra),
                ),
                SessionEvent::LoopFinished(rb),
            );
            s.phase is Closed && s.first_error == (if ra is Some {
                ra
            } else {
                rb
            })
        }),
{
}

/// Law: a failed outbound handshake closes the session at once, with the
/// handshake error as its result; no relay loop ever runs.
pub proof fn lemma_session_upgrade_failure_closes(e: Vec<u8>)
    ensures
        ({
            let s = session_step_spec(session_init_spec(), SessionEvent::UpgradeFailed(e));
            s.phase is Closed && s.first_error == Some(e)
        }),
{
}

/// What the backend→caller relay loop does with one read attempt.
#[derive(Clone, Debug, PartialEq, Eq)]
pub enum WireRelayStep {
    /// The message was read cleanly and is legal: forward its translation.
    Forward(UiMessage),
    /// The read failed for this one message: drop it and keep relaying.
    Drop,
    /// A protocol violation: this relay direction stops.
    Stop(ProtocolError),
}

/// One step of the caller→backend relay loop: a cleanly read message is
/// translated and forwarded; a message that failed to read is dropped —
/// logged outside, never aborting the loop — and nothing is sent for it.
/// Every caller-side message is legal, so this direction never stops on a
/// message.
pub fn relay_from_caller(read: Result<UiMessage, Vec<u8>>) -> (r: Option<WireMessage>)
    ensures
        read matches Ok(m) ==> r == Some(ui_to_wire_spec(m)),
        read is Err ==> r is None,
{
    match read {
        Ok(m) => Some(ui_to_wire(m)),
        Err(_) => None,
    }
}

/// One step of the backend→caller relay loop: a cleanly read legal message
/// is translated and forwarded; a message that failed to read is dropped
/// and the loop keeps going; the raw-frame sentinel is a protocol
/// violation that stops this direction.
pub fn relay_from_backend(read: Result<WireMessage, Vec<u8>>) -> (r: WireRelayStep)
    ensures
        read is Err ==> r is Drop,
        read matches Ok(m) ==> (if m is Frame {
            r is Stop
        } else {
            r == WireRelayStep::Forward(wire_to_ui_spec(m)->Ok_0)
        }),
{
    match read {
        Ok(m) => match wire_to_ui(m) {
            Ok(translated) => WireRelayStep::Forward(translated),
            Err(violation) => WireRelayStep::Stop(violation),
        },
        Err(_) => WireRelayStep::Drop,
    }
}

/// The cleanly read messages of a caller-side read sequence, in order.
pub open spec fn clean_caller_reads(reads: Seq<Result<UiMessage, Vec<u8>>>) -> Seq<UiMessage>
    decreases reads.len(),
{
    if reads.len() == 0 {
        Seq::empty()
    } else {
        match reads[0] {
            Ok(m) => seq![m] + clean_caller_reads(reads.skip(1)),
            Err(_) => clean_caller_reads(reads.skip(1)),
        }
    }
}

/// Each caller-side message translated for the wire, in order.
pub open spec fn translated_for_wire(msgs: Seq<UiMessage>) -> Seq<WireMessage>
    decreases msgs.len(),
{
    if msgs.len() == 0 {
        Seq::empty()
    } else {
        seq![ui_to_wire_spec(msgs[0])] + translated_for_wire(msgs.skip(1))
    }
}

/// What the caller→backend relay loop forwards over a whole sequence of
/// read results: the per-step rule of `relay_from_caller`, folded in
/// order.
pub open spec fn relayed_from_caller(reads: Seq<Result<UiMessage, Vec<u8>>>) -> Seq<WireMessage>
    decreases reads.len(),
{
    if reads.len() == 0 {
        Seq::empty()
    } else {
        match reads[0] {
            Ok(m) => seq![ui_to_wire_spec(m)] + relayed_from_caller(reads.skip(1)),
            Err(_) => relayed_from_caller(reads.skip(1)),
        }
    }
}

/// Law (ordered relay, caller→backend): over any sequence of read results
/// the loop forwards exactly the cleanly read messages, translated, in
/// their original order — failed reads are dropped, and nothing is
/// reordered, invented or duplicated.
pub proof fn lemma_relay_from_caller_ordered(reads: Seq<Result<UiMessage, Vec<u8>>>)
    ensures
        relayed_from_caller(reads) == translated_for_wire(clean_caller_reads(reads)),
    decreases reads.len(),
{
    if reads.len() > 0 {
        lemma_relay_from_caller_ordered(reads.skip(1));
        match reads[0] {
            Ok(m) => {
                let rest = clean_caller_reads(reads.skip(1));
                assert((seq![m] + rest)[0] == m);
                assert((seq![m] + rest).skip(1) =~= rest);
            },
            Err(_) => {},
        }
    }
}

/// The cleanly read messages of a backend-side read sequence, in order.
pub open spec fn clean_backend_reads(reads: Seq<Result<WireMessage, Vec<u8>>>) -> Seq<WireMessage>
    decreases reads.len(),
{
    if reads.len() == 0 {
        Seq::empty()
    } else {
        match reads[0] {
            Ok(m) => seq![m] + clean_backend_reads(reads.skip(1)),
            Err(_) => clean_backend_reads(reads.skip(1)),
        }
    }
}

/// The prefix of a wire message sequence before its first raw-frame
/// sentinel: what a relay direction still forwards before the protocol
/// violation stops it.
pub open spec fn until_violation(msgs: Seq<WireMessage>) -> Seq<WireMessage>
    decreases msgs.len(),
{
    if msgs.len() == 0 {
        Seq::empty()
    } else if msgs[0] is Frame {
        Seq::empty()
    } else {
        seq![msgs[0]] + until_violation(msgs.skip(1))
    }
}

/// Each legal wire message translated for the caller, in order.
pub open spec fn translated_for_caller(msgs: Seq<WireMessage>) -> Seq<UiMessage>
    decreases msgs.len(),
{
    if msgs.len() == 0 {
        Seq::empty()
    } else {
        seq![wire_to_ui_spec(msgs[0])->Ok_0] + translated_for_caller(msgs.skip(1))
    }
}

/// What the backend→caller relay loop forwards over a whole sequence of
/// read results: the per-step rule of `relay_from_backend`, folded in
/// order; everything from the first raw-frame sentinel on is cut off,
/// because the violation stops the direction.
pub open spec fn relayed_from_backend(reads: Seq<Result<WireMessage, Vec<u8>>>) -> Seq<UiMessage>
    decreases reads.len(),
{
    if reads.len() == 0 {
        Seq::empty()
    } else {
        match reads[0] {
            Ok(m) => if m is Frame {
                Seq::empty()
            } else {
                seq![wire_to_ui_spec(m)->Ok_0] + relayed_from_backend(reads.skip(1))
            },
            Err(_) => relayed_from_backend(reads.skip(1)),
        }
    }
}

/// Law (ordered relay, backend→caller): over any sequence of read results
/// the loop forwards exactly the cleanly read messages up to the first
/// protocol violation, translated, in their original order — failed reads
/// are dropped, the violation stops the direction, and nothing is
/// reordered, invented or duplicated.
pub proof fn lemma_relay_from_backend_ordered(reads: Seq<Result<WireMessage, Vec<u8>>>)
    ensures
        relayed_from_backend(reads) == translated_for_caller(
            until_violation(clean_backend_reads(reads)),
        ),
    decreases reads.len(),
{
    if reads.len() > 0 {
        lemma_relay_from_backend_ordered(reads.skip(1));
        match reads[0] {
            Ok(m) => {
                let rest = clean_backend_reads(reads.skip(1));
                assert((seq![m] + rest)[0] == m);
                assert((seq![m] + rest).skip(1) =~= rest);
                if !(m is Frame) {
                    let uv = until_violation(rest);
                    assert((seq![m] + uv)[0] == m);
                    assert((seq![m] + uv).skip(1) =~= uv);
                }
            },
            Err(_) => {},
        }
    }
}

/// The backend handshake target reuses the inbound request's path and
/// query behind the backend's own scheme and authority: base, then path,
/// and — only when the request carried a query — the query separator and
/// the query. A request without a query gets no trailing separator.
pub open spec fn ws_target_spec(base: Seq<u8>, path: Seq<u8>, query: Option<Seq<u8>>) -> Seq<u8> {
    match query {
        Some(q) => base + path + seq![63u8] + q,
        None => base + path,
    }
}

/// Appends a byte slice to a byte vector.
fn push_all(v: &mut Vec<u8>, s: &[u8])
    ensures
        final(v)@ == old(v)@ + s@,
{
    let mut i: usize = 0;
    while i < s.len()
        invariant
            i <= s@.len(),
            v@ == old(v)@ + s@.subrange(0, i as int),
        decreases s@.len() - i,
    {
        v.push(s[i]);
        proof {
            assert(old(v)@ + s@.subrange(0, i + 1 as int) =~= (old(v)@ + s@.subrange(0, i as int)).push(
                s@[i as int],
            ));
        }
        i += 1;
    }
    proof {
        assert(s@.subrange(0, s@.len() as int) =~= s@);
    }
}

/// Builds the outbound WebSocket handshake target for the backend from the
/// inbound request's path and query: exactly `ws_target_spec`.
pub fn ws_target(base: &[u8], path: &[u8], query: &Option<Vec<u8>>) -> (r: Vec<u8>)
    ensures
        r@ == ws_target_spec(base@, path@, match *query {
            Some(q) => Some(q@),
            None => None,
        }),
{
    let mut r: Vec<u8> = Vec::new();
    push_all(&mut r, base);
    push_all(&mut r, path);
    match query {
        Some(q) => {
            r.push(63u8);
            push_all(&mut r, q.as_slice());
            proof {
                assert(r@ =~= ws_target_spec(base@, path@, Some(q@)));
            }
        },
        None => {
            proof {
                assert(r@ =~= ws_target_spec(base@, path@, None));
            }
        },
    }
    r
}

} // verus!
