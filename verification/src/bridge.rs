//! Stream Bridge: the joint-termination and error-reporting discipline of a
//! bidirectional relay. A bridge owns two half-duplex directions that share
//! one session's lifetime. Each direction independently copies bytes until
//! its source closes; the pair terminates as a unit — an error on either
//! direction tears both down — and the first error observed is the
//! session's reported result. The byte copying itself happens outside; this
//! module holds the state machine those copy tasks drive, and its proofs.

use vstd::prelude::*;

verus! {

/// State of one relay direction.
#[derive(Clone, Copy, Debug, PartialEq, Eq)]
pub enum DirState {
    /// Still copying.
    Open,
    /// Finished: clean end of stream, or torn down with the peer direction.
    Closed,
    /// Finished by an error on this direction.
    Failed,
}

/// Progress of one relay direction: how many bytes it has forwarded so
/// far, and whether it is still running.
#[derive(Clone, Copy, Debug, PartialEq, Eq)]
pub struct DirProgress {
    pub forwarded: u64,
    pub state: DirState,
}

/// One of the two directions of a bridge.
#[derive(Clone, Copy, Debug, PartialEq, Eq)]
pub enum Direction {
    AToB,
    BToA,
}

/// An observation made by one direction's copy task: a chunk of bytes
/// copied through, a clean end of stream, or an I/O error (carried as its
/// message bytes).
#[derive(Clone, Debug, PartialEq, Eq)]
pub enum DirEvent {
    Data(Vec<u8>),
    Eof,
    Fail(Vec<u8>),
}

/// The bridge as a whole: both directions, and the first error observed on
/// either, if any.
#[derive(Clone, Debug, PartialEq, Eq)]
pub struct BridgeState {
    pub a_to_b: DirProgress,
    pub b_to_a: DirProgress,
    pub first_error: Option<Vec<u8>>,
}

/// The named direction's progress.
pub open spec fn dir_of(st: BridgeState, d: Direction) -> DirProgress {
    match d {
        Direction::AToB => st.a_to_b,
        Direction::BToA => st.b_to_a,
    }
}

/// The other direction.
pub open spec fn opposite(d: Direction) -> Direction {
    match d {
        Direction::AToB => Direction::BToA,
        Direction::BToA => Direction::AToB,
    }
}

/// A fresh bridge: both directions open, nothing forwarded, no error.
pub open spec fn init_spec() -> BridgeState {
    BridgeState {
        a_to_b: DirProgress { forwarded: 0, state: DirState::Open },
        b_to_a: DirProgress { forwarded: 0, state: DirState::Open },
        first_error: None,
    }
}

/// A direction that is no longer copying.
pub open spec fn dir_done(p: DirProgress) -> bool {
    !(p.state is Open)
}

/// The bridge is finished: both directions are done. Only then may the
/// session's resources be released.
pub open spec fn complete(st: BridgeState) -> bool {
    dir_done(st.a_to_b) && dir_done(st.b_to_a)
}

/// One direction's next progress under an event, provided that direction
/// is still open: data advances the count, end of stream closes it, an
/// error fails it. Events on a direction that already finished change
/// nothing.
pub open spec fn dir_step(p: DirProgress, ev: DirEvent) -> DirProgress {
    if !(p.state is Open) {
        p
    } else {
        match ev {
            DirEvent::Data(b) => DirProgress {
                forwarded: (p.forwarded + b@.len()) as u64,
                state: p.state,
            },
            DirEvent::Eof => DirProgress { forwarded: p.forwarded, state: DirState::Closed },
            DirEvent::Fail(_) => DirProgress { forwarded: p.forwarded, state: DirState::Failed },
        }
    }
}

/// The whole bridge's next state under an event on direction `d`. The pair
/// terminates as a unit: an error on one open direction also tears the
/// other down (open moves to closed), and is recorded as the session's
/// result unless an earlier error already was.
pub open spec fn step_spec(st: BridgeState, d: Direction, ev: DirEvent) -> BridgeState {
    let stepped = dir_step(dir_of(st, d), ev);
    let torn = ev is Fail && dir_of(st, d).state is Open;
    let other0 = dir_of(st, opposite(d));
    let other = if torn && other0.state is Open {
        DirProgress { forwarded: other0.forwarded, state: DirState::Closed }
    } else {
        other0
    };
    let first_error = if torn && st.first_error is None {
        Some(ev->Fail_0)
    } else {
        st.first_error
    };
    BridgeState {
        a_to_b: if d is AToB {
            stepped
        } else {
            other
        },
        b_to_a: if d is BToA {
            stepped
        } else {
            other
        },
        first_error,
    }
}

/// A fresh bridge for one session.
pub fn new_bridge() -> (r: BridgeState)
    ensures
        r == init_spec(),
{
    BridgeState {
        a_to_b: DirProgress { forwarded: 0, state: DirState::Open },
        b_to_a: DirProgress { forwarded: 0, state: DirState::Open },
        first_error: None,
    }
}

/// Advances the bridge by one observation from direction `d`'s copy task:
/// exactly the transition of `step_spec`.
pub fn bridge_step(st: BridgeState, d: Direction, ev: DirEvent) -> (r: BridgeState)
    requires
        ev is Data && dir_of(st, d).state is Open ==> dir_of(st, d).forwarded + (
        ev->Data_0)@.len() <= u64::MAX,
    ensures
        r == step_spec(st, d, ev),
{
    let BridgeState { a_to_b, b_to_a, first_error } = st;
    let (mine, other) = match d {
        Direction::AToB => (a_to_b, b_to_a),
        Direction::BToA => (b_to_a, a_to_b),
    };
    let mine_open = match mine.state {
        DirState::Open => true,
        _ => false,
    };
    let (stepped, err) = if !mine_open {
        (mine, None)
    } else {
        match ev {
            DirEvent::Data(b) => (
                DirProgress { forwarded: mine.forwarded + (b.len() as u64), state: mine.state },
                None,
            ),
            DirEvent::Eof => (
                DirProgress { forwarded: mine.forwarded, state: DirState::Closed },
                None,
            ),
            DirEvent::Fail(e) => (
                DirProgress { forwarded: mine.forwarded, state: DirState::Failed },
                Some(e),
            ),
        }
    };
    let torn = err.is_some();
    let other = if torn {
        match other.state {
            DirState::Open => DirProgress { forwarded: other.forwarded, state: DirState::Closed },
            _ => other,
        }
    } else {
        other
    };
    let first_error = if torn && first_error.is_none() {
        err
    } else {
        first_error
    };
    match d {
        Direction::AToB => BridgeState { a_to_b: stepped, b_to_a: other, first_error },
        Direction::BToA => BridgeState { a_to_b: other, b_to_a: stepped, first_error },
    }
}

/// Both directions of the bridge are done.
pub fn is_complete(st: &BridgeState) -> (r: bool)
    ensures
        r == complete(*st),
{
    let a = match st.a_to_b.state {
        DirState::Open => false,
        _ => true,
    };
    let b = match st.b_to_a.state {
        DirState::Open => false,
        _ => true,
    };
    a && b
}

/// The bridge after a whole trace of observations, in order.
pub open spec fn run_spec(st: BridgeState, evs: Seq<(Direction, DirEvent)>) -> BridgeState
    decreases evs.len(),
{
    if evs.len() == 0 {
        st
    } else {
        run_spec(step_spec(st, evs[0].0, evs[0].1), evs.skip(1))
    }
}

/// No event in the trace is an error.
pub open spec fn err_free(evs: Seq<(Direction, DirEvent)>) -> bool
    decreases evs.len(),
{
    evs.len() == 0 || (!(evs[0].1 is Fail) && err_free(evs.skip(1)))
}

/// How many bytes the trace carries for direction `d`.
pub open spec fn data_total(evs: Seq<(Direction, DirEvent)>, d: Direction) -> int
    decreases evs.len(),
{
    if evs.len() == 0 {
        0
    } else {
        (if evs[0].0 == d && evs[0].1 is Data {
            (evs[0].1->Data_0)@.len() as int
        } else {
            0
        }) + data_total(evs.skip(1), d)
    }
}

/// The byte stream the trace carries for direction `d`: every chunk that
/// crossed it, concatenated in order.
pub open spec fn data_stream(evs: Seq<(Direction, DirEvent)>, d: Direction) -> Seq<u8>
    decreases evs.len(),
{
    if evs.len() == 0 {
        Seq::empty()
    } else {
        (if evs[0].0 == d && evs[0].1 is Data {
            (evs[0].1->Data_0)@
        } else {
            Seq::empty()
        }) + data_stream(evs.skip(1), d)
    }
}

/// The byte count of a trace's stream is the stream's length: the counter
/// certifies that every byte of the stream, and no other, was forwarded.
pub proof fn lemma_data_total_is_stream_len(evs: Seq<(Direction, DirEvent)>, d: Direction)
    ensures
        data_total(evs, d) == data_stream(evs, d).len(),
    decreases evs.len(),
{
    if evs.len() > 0 {
        lemma_data_total_is_stream_len(evs.skip(1), d);
    }
}

/// The trace carries data for direction `d`.
pub open spec fn has_data(evs: Seq<(Direction, DirEvent)>, d: Direction) -> bool
    decreases evs.len(),
{
    if evs.len() == 0 {
        false
    } else {
        (evs[0].0 == d && evs[0].1 is Data) || has_data(evs.skip(1), d)
    }
}

/// The trace closes direction `d`.
pub open spec fn has_eof(evs: Seq<(Direction, DirEvent)>, d: Direction) -> bool
    decreases evs.len(),
{
    if evs.len() == 0 {
        false
    } else {
        (evs[0].0 == d && evs[0].1 is Eof) || has_eof(evs.skip(1), d)
    }
}

/// Data on `d` never follows `d`'s end of stream: a source sends its bytes
/// and then closes.
pub open spec fn ordered_for(evs: Seq<(Direction, DirEvent)>, d: Direction) -> bool
    decreases evs.len(),
{
    evs.len() == 0 || (((evs[0].0 == d && evs[0].1 is Eof) ==> !has_data(evs.skip(1), d))
        && ordered_for(evs.skip(1), d))
}

/// A trace carries a nonnegative number of bytes.
pub proof fn lemma_data_total_nonneg(evs: Seq<(Direction, DirEvent)>, d: Direction)
    ensures
        data_total(evs, d) >= 0,
    decreases evs.len(),
{
    if evs.len() > 0 {
        lemma_data_total_nonneg(evs.skip(1), d);
    }
}

/// Over an error-free, well-ordered trace no error is ever recorded, each
/// direction accumulates exactly the bytes the trace carries for it, and a
/// direction keeps running exactly until it sees its end of stream.
pub proof fn lemma_clean_run(st: BridgeState, evs: Seq<(Direction, DirEvent)>)
    requires
        st.first_error is None,
        err_free(evs),
        !(st.a_to_b.state is Open) ==> !has_data(evs, Direction::AToB),
        !(st.b_to_a.state is Open) ==> !has_data(evs, Direction::BToA),
        ordered_for(evs, Direction::AToB),
        ordered_for(evs, Direction::BToA),
        st.a_to_b.forwarded + data_total(evs, Direction::AToB) <= u64::MAX,
        st.b_to_a.forwarded + data_total(evs, Direction::BToA) <= u64::MAX,
    ensures
        run_spec(st, evs).first_error is None,
        run_spec(st, evs).a_to_b.forwarded == st.a_to_b.forwarded + data_total(
            evs,
            Direction::AToB,
        ),
        run_spec(st, evs).b_to_a.forwarded == st.b_to_a.forwarded + data_total(
            evs,
            Direction::BToA,
        ),
        run_spec(st, evs).a_to_b.state is Open <==> (st.a_to_b.state is Open && !has_eof(
            evs,
            Direction::AToB,
        )),
        run_spec(st, evs).b_to_a.state is Open <==> (st.b_to_a.state is Open && !has_eof(
            evs,
            Direction::BToA,
        )),
        run_spec(st, evs).a_to_b.state is Failed <==> st.a_to_b.state is Failed,
        run_spec(st, evs).b_to_a.state is Failed <==> st.b_to_a.state is Failed,
    decreases evs.len(),
{
    lemma_data_total_nonneg(evs, Direction::AToB);
    lemma_data_total_nonneg(evs, Direction::BToA);
    if evs.len() > 0 {
        let st1 = step_spec(st, evs[0].0, evs[0].1);
        lemma_data_total_nonneg(evs.skip(1), Direction::AToB);
        lemma_data_total_nonneg(evs.skip(1), Direction::BToA);
        lemma_clean_run(st1, evs.skip(1));
    }
}

/// Stream Bridge completion law: when both sides send their bytes and then
/// close cleanly — in any interleaving — the bridge completes with no
/// error, and each direction has forwarded exactly the byte stream the
/// trace carried for it, whole and in order, so neither peer's data is cut
/// short by the other's close.
pub proof fn lemma_bridge_clean_completion(evs: Seq<(Direction, DirEvent)>)
    requires
        err_free(evs),
        ordered_for(evs, Direction::AToB),
        ordered_for(evs, Direction::BToA),
        has_eof(evs, Direction::AToB),
        has_eof(evs, Direction::BToA),
        data_total(evs, Direction::AToB) <= u64::MAX,
        data_total(evs, Direction::BToA) <= u64::MAX,
    ensures
        complete(run_spec(init_spec(), evs)),
        run_spec(init_spec(), evs).first_error is None,
        run_spec(init_spec(), evs).a_to_b.forwarded == data_stream(evs, Direction::AToB).len(),
        run_spec(init_spec(), evs).b_to_a.forwarded == data_stream(evs, Direction::BToA).len(),
{
    lemma_clean_run(init_spec(), evs);
    lemma_data_total_is_stream_len(evs, Direction::AToB);
    lemma_data_total_is_stream_len(evs, Direction::BToA);
}

/// An error on an open direction finishes the whole bridge at once: the
/// erring direction fails, the peer direction is torn down rather than
/// left hanging, and the error becomes the session's result when it is the
/// first.
pub proof fn lemma_error_terminates_both(st: BridgeState, d: Direction, e: Vec<u8>)
    requires
        dir_of(st, d).state is Open,
        st.first_error is None,
    ensures
        complete(step_spec(st, d, DirEvent::Fail(e))),
        step_spec(st, d, DirEvent::Fail(e)).first_error == Some(e),
        dir_of(step_spec(st, d, DirEvent::Fail(e)), d).state is Failed,
{
}

/// Once recorded, the session's result never changes under further events.
pub proof fn lemma_first_error_stable(st: BridgeState, evs: Seq<(Direction, DirEvent)>)
    requires
        st.first_error is Some,
    ensures
        run_spec(st, evs).first_error == st.first_error,
    decreases evs.len(),
{
    if evs.len() > 0 {
        lemma_first_error_stable(step_spec(st, evs[0].0, evs[0].1), evs.skip(1));
    }
}

/// Error-free events never record a result.
pub proof fn lemma_err_free_keeps_error(st: BridgeState, evs: Seq<(Direction, DirEvent)>)
    requires
        err_free(evs),
    ensures
        run_spec(st, evs).first_error == st.first_error,
    decreases evs.len(),
{
    if evs.len() > 0 {
        lemma_err_free_keeps_error(step_spec(st, evs[0].0, evs[0].1), evs.skip(1));
    }
}

/// A finished bridge is inert: no further event changes it.
pub proof fn lemma_complete_inert(st: BridgeState, evs: Seq<(Direction, DirEvent)>)
    requires
        complete(st),
    ensures
        run_spec(st, evs) == st,
    decreases evs.len(),
{
    if evs.len() > 0 {
        assert(step_spec(st, evs[0].0, evs[0].1) == st);
        lemma_complete_inert(st, evs.skip(1));
    }
}

/// Running a trace in two halves is running it whole.
pub proof fn lemma_run_append(
    st: BridgeState,
    a: Seq<(Direction, DirEvent)>,
    b: Seq<(Direction, DirEvent)>,
)
    ensures
        run_spec(st, a + b) == run_spec(run_spec(st, a), b),
    decreases a.len(),
{
    if a.len() == 0 {
        assert(a + b =~= b);
    } else {
        assert((a + b).skip(1) =~= a.skip(1) + b);
        assert((a + b)[0] == a[0]);
        lemma_run_append(step_spec(st, a[0].0, a[0].1), a.skip(1), b);
    }
}

/// A trace none of whose events is an error is error-free.
proof fn lemma_err_free_of_forall(evs: Seq<(Direction, DirEvent)>)
    requires
        forall|j: int| 0 <= j < evs.len() ==> !(evs[j].1 is Fail),
    ensures
        err_free(evs),
    decreases evs.len(),
{
    if evs.len() > 0 {
        assert(forall|j: int|
            0 <= j < evs.skip(1).len() ==> evs.skip(1)[j] == evs[j + 1] && !(evs[j + 1].1 is Fail));
        lemma_err_free_of_forall(evs.skip(1));
    }
}

/// Stream Bridge failure law: the first error in a trace, arriving while
/// its direction still runs, is the session's reported result, and from
/// that event on the bridge is complete — the peer direction is torn down
/// at once rather than left hanging, whatever follows.
pub proof fn lemma_first_error_reported(
    st: BridgeState,
    evs: Seq<(Direction, DirEvent)>,
    i: int,
)
    requires
        st.first_error is None,
        0 <= i < evs.len(),
        evs[i].1 is Fail,
        forall|j: int| 0 <= j < i ==> !(evs[j].1 is Fail),
        dir_of(run_spec(st, evs.take(i)), evs[i].0).state is Open,
    ensures
        run_spec(st, evs).first_error == Some(evs[i].1->Fail_0),
        complete(run_spec(st, evs.take(i + 1))),
        run_spec(st, evs) == run_spec(st, evs.take(i + 1)),
{
    let pre = evs.take(i);
    let mid = run_spec(st, pre);
    assert(forall|j: int| 0 <= j < pre.len() ==> pre[j] == evs[j] && !(evs[j].1 is Fail));
    lemma_err_free_of_forall(pre);
    lemma_err_free_keeps_error(st, pre);
    let e = evs[i].1->Fail_0;
    lemma_error_terminates_both(mid, evs[i].0, e);
    let after = step_spec(mid, evs[i].0, evs[i].1);
    let s1 = seq![evs[i]];
    assert(evs.take(i + 1) =~= pre + s1);
    lemma_run_append(st, pre, s1);
    assert(s1.skip(1) =~= Seq::<(Direction, DirEvent)>::empty());
    assert(s1[0] == evs[i]);
    assert(run_spec(after, s1.skip(1)) == after);
    assert(run_spec(mid, s1) == run_spec(step_spec(mid, s1[0].0, s1[0].1), s1.skip(1)));
    assert(run_spec(mid, s1) == after);
    assert(run_spec(st, evs.take(i + 1)) == after);
    assert(evs =~= evs.take(i + 1) + evs.skip(i + 1));
    lemma_run_append(st, evs.take(i + 1), evs.skip(i + 1));
    lemma_complete_inert(after, evs.skip(i + 1));
}

/// Stream Bridge failure law, from the trace alone: when the first error
/// of a fresh bridge's trace strikes a direction that has not yet seen its
/// end of stream — an error mid-transfer — that error is the session's
/// reported result, and the bridge is complete from that event on.
pub proof fn lemma_mid_transfer_error_reported(evs: Seq<(Direction, DirEvent)>, i: int)
    requires
        0 <= i < evs.len(),
        evs[i].1 is Fail,
        forall|j: int| 0 <= j < i ==> !(evs[j].1 is Fail),
        !has_eof(evs.take(i), evs[i].0),
        ordered_for(evs.take(i), Direction::AToB),
        ordered_for(evs.take(i), Direction::BToA),
        data_total(evs.take(i), Direction::AToB) <= u64::MAX,
        data_total(evs.take(i), Direction::BToA) <= u64::MAX,
    ensures
        run_spec(init_spec(), evs).first_error == Some(evs[i].1->Fail_0),
        complete(run_spec(init_spec(), evs)),
{
    let pre = evs.take(i);
    assert(forall|j: int| 0 <= j < pre.len() ==> pre[j] == evs[j] && !(evs[j].1 is Fail));
    lemma_err_free_of_forall(pre);
    lemma_clean_run(init_spec(), pre);
    lemma_first_error_reported(init_spec(), evs, i);
}

} // verus!
