//! What a session does over a whole sequence of events: ordering within
//! each direction, and a single end.
use vstd::prelude::*;
use crate::session::{Action, Direction, Event, Outcome, Phase, next, ending_direction};

verus! {

/// The phase reached and the actions produced by feeding `evs` in order.
pub open spec fn run(p: Phase, evs: Seq<Event>) -> (Phase, Seq<Action>)
    decreases evs.len(),
{
    if evs.len() == 0 {
        (p, Seq::empty())
    } else {
        let (p1, a) = next(p, evs[0]);
        let (p2, rest) = run(p1, evs.drop_first());
        (p2, seq![a] + rest)
    }
}

/// The payloads of the chunks the source produced, in order.
pub open spec fn chunks(evs: Seq<Event>) -> Seq<Seq<u8>>
    decreases evs.len(),
{
    if evs.len() == 0 {
        Seq::empty()
    } else {
        let head = match evs[0] {
            Event::SourceChunk(c) => seq![c@],
            _ => Seq::empty(),
        };
        head + chunks(evs.drop_first())
    }
}

/// The payloads of the messages that arrived on the transport, in order.
pub open spec fn messages(evs: Seq<Event>) -> Seq<Seq<u8>>
    decreases evs.len(),
{
    if evs.len() == 0 {
        Seq::empty()
    } else {
        let head = match evs[0] {
            Event::MessageReceived(m) => seq![m@],
            _ => Seq::empty(),
        };
        head + messages(evs.drop_first())
    }
}

/// The payloads sent on the transport, in order.
pub open spec fn sent(acts: Seq<Action>) -> Seq<Seq<u8>>
    decreases acts.len(),
{
    if acts.len() == 0 {
        Seq::empty()
    } else {
        let head = match acts[0] {
            Action::Send(c) => seq![c@],
            _ => Seq::empty(),
        };
        head + sent(acts.drop_first())
    }
}

/// The payloads written to the sink, in order.
pub open spec fn written(acts: Seq<Action>) -> Seq<Seq<u8>>
    decreases acts.len(),
{
    if acts.len() == 0 {
        Seq::empty()
    } else {
        let head = match acts[0] {
            Action::Write(m) => seq![m@],
            _ => Seq::empty(),
        };
        head + written(acts.drop_first())
    }
}

/// The number of `Stop` actions.
pub open spec fn stops(acts: Seq<Action>) -> nat
    decreases acts.len(),
{
    if acts.len() == 0 {
        0
    } else {
        (if acts[0] is Stop { 1nat } else { 0nat }) + stops(acts.drop_first())
    }
}

/// `evs` holds an event that ends an active session.
pub open spec fn has_end(evs: Seq<Event>) -> bool {
    exists|i: int| 0 <= i < evs.len() && (#[trigger] ending_direction(evs[i])) is Some
}

/// `i` is the first event of `evs` that ends an active session.
pub open spec fn is_first_end(evs: Seq<Event>, i: int) -> bool {
    &&& 0 <= i < evs.len()
    &&& ending_direction(evs[i]) is Some
    &&& forall|j: int| 0 <= j < i ==> (#[trigger] ending_direction(evs[j])) is None
}

/// Once terminated, a session stays as it is and ignores every event.
pub proof fn lemma_terminated_absorbs(o: Outcome, evs: Seq<Event>)
    ensures
        run(Phase::Terminated(o), evs).0 == Phase::Terminated(o),
        run(Phase::Terminated(o), evs).1.len() == evs.len(),
        forall|j: int| 0 <= j < evs.len() ==> (#[trigger] run(Phase::Terminated(o), evs).1[j]) is Nothing,
        sent(run(Phase::Terminated(o), evs).1) == Seq::<Seq<u8>>::empty(),
        written(run(Phase::Terminated(o), evs).1) == Seq::<Seq<u8>>::empty(),
        stops(run(Phase::Terminated(o), evs).1) == 0,
    decreases evs.len(),
{
    if evs.len() > 0 {
        lemma_terminated_absorbs(o, evs.drop_first());
        let acts = run(Phase::Terminated(o), evs).1;
        let rest = run(Phase::Terminated(o), evs.drop_first()).1;
        assert(acts == seq![Action::Nothing] + rest);
        assert(acts.drop_first() == rest);
        assert forall|j: int| 0 <= j < evs.len() implies (#[trigger] acts[j]) is Nothing by {
            if j > 0 {
                assert(acts[j] == rest[j - 1]);
            }
        }
    }
}

/// The outbound direction keeps order and loses or repeats nothing: the
/// payloads an active session sends are the source's chunks, one message per
/// chunk, in the order read. They are all of them while the session stays
/// active, and a prefix of them once it has ended.
pub proof fn lemma_outbound_in_order(evs: Seq<Event>)
    ensures
        sent(run(Phase::Active, evs).1).is_prefix_of(chunks(evs)),
        !has_end(evs) ==> sent(run(Phase::Active, evs).1) == chunks(evs),
        !has_end(evs) ==> sent(run(Phase::Active, evs).1).flatten() == chunks(evs).flatten(),
    decreases evs.len(),
{
    if evs.len() > 0 {
        let e = evs[0];
        let tail = evs.drop_first();
        let (p1, a) = next(Phase::Active, e);
        let acts = run(Phase::Active, evs).1;
        let rest = run(p1, tail).1;
        assert(acts == seq![a] + rest);
        assert(acts.drop_first() == rest);
        if !has_end(evs) {
            assert forall|i: int| 0 <= i < tail.len() implies (#[trigger] ending_direction(tail[i])) is None by {
                assert(tail[i] == evs[i + 1]);
                assert(ending_direction(evs[i + 1]) is None);
            }
            assert(ending_direction(evs[0]) is None);
        }
        match ending_direction(e) {
            Some(d) => {
                lemma_terminated_absorbs(Outcome::Ended(d), tail);
                assert(has_end(evs)) by {
                    assert(ending_direction(evs[0]) is Some);
                }
            },
            None => {
                lemma_outbound_in_order(tail);
                let s_rest = sent(rest);
                let c_rest = chunks(tail);
                match e {
                    Event::SourceChunk(c) => {
                        assert(sent(acts) == seq![c@] + s_rest);
                        assert(chunks(evs) == seq![c@] + c_rest);
                        assert(sent(acts) =~= chunks(evs).subrange(0, sent(acts).len() as int));
                    },
                    _ => {
                        assert(sent(acts) == s_rest);
                        assert(chunks(evs) == c_rest);
                    },
                }
            },
        }
    }
}

/// The inbound direction keeps order and payloads: what an active session
/// writes to the sink is the payloads of the arriving messages, unchanged and
/// in arrival order. They are all of them while the session stays active,
/// and a prefix of them once it has ended.
pub proof fn lemma_inbound_in_order(evs: Seq<Event>)
    ensures
        written(run(Phase::Active, evs).1).is_prefix_of(messages(evs)),
        !has_end(evs) ==> written(run(Phase::Active, evs).1) == messages(evs),
        !has_end(evs) ==> written(run(Phase::Active, evs).1).flatten() == messages(evs).flatten(),
    decreases evs.len(),
{
    if evs.len() > 0 {
        let e = evs[0];
        let tail = evs.drop_first();
        let (p1, a) = next(Phase::Active, e);
        let acts = run(Phase::Active, evs).1;
        let rest = run(p1, tail).1;
        assert(acts == seq![a] + rest);
        assert(acts.drop_first() == rest);
        if !has_end(evs) {
            assert forall|i: int| 0 <= i < tail.len() implies (#[trigger] ending_direction(tail[i])) is None by {
                assert(tail[i] == evs[i + 1]);
                assert(ending_direction(evs[i + 1]) is None);
            }
            assert(ending_direction(evs[0]) is None);
        }
        match ending_direction(e) {
            Some(d) => {
                lemma_terminated_absorbs(Outcome::Ended(d), tail);
                assert(has_end(evs)) by {
                    assert(ending_direction(evs[0]) is Some);
                }
            },
            None => {
                lemma_inbound_in_order(tail);
                let w_rest = written(rest);
                let m_rest = messages(tail);
                match e {
                    Event::MessageReceived(m) => {
                        assert(written(acts) == seq![m@] + w_rest);
                        assert(messages(evs) == seq![m@] + m_rest);
                        assert(written(acts) =~= messages(evs).subrange(0, written(acts).len() as int));
                    },
                    _ => {
                        assert(written(acts) == w_rest);
                        assert(messages(evs) == m_rest);
                    },
                }
            },
        }
    }
}

/// A session ends exactly once, by the first direction that finishes: the
/// first ending event (`i`) stops the session with the outcome of its
/// direction, it is the only `Stop`, and every later event, from either
/// direction, is abandoned without effect.
pub proof fn lemma_first_end_decides(evs: Seq<Event>, i: int)
    requires
        is_first_end(evs, i),
    ensures
        ({
            let (p, acts) = run(Phase::Active, evs);
            let d = ending_direction(evs[i]).unwrap();
            &&& p == Phase::Terminated(Outcome::Ended(d))
            &&& acts.len() == evs.len()
            &&& acts[i] == Action::Stop(Outcome::Ended(d))
            &&& stops(acts) == 1
            &&& forall|j: int| i < j < acts.len() ==> (#[trigger] acts[j]) is Nothing
        }),
    decreases evs.len(),
{
    let e = evs[0];
    let tail = evs.drop_first();
    let (p1, a) = next(Phase::Active, e);
    let acts = run(Phase::Active, evs).1;
    let rest = run(p1, tail).1;
    assert(acts == seq![a] + rest);
    assert(acts.drop_first() == rest);
    if i == 0 {
        let d = ending_direction(e).unwrap();
        lemma_terminated_absorbs(Outcome::Ended(d), tail);
        assert forall|j: int| i < j < acts.len() implies (#[trigger] acts[j]) is Nothing by {
            assert(acts[j] == rest[j - 1]);
        }
    } else {
        assert(ending_direction(evs[0]) is None);
        assert(is_first_end(tail, i - 1)) by {
            assert(tail[i - 1] == evs[i]);
            assert forall|j: int| 0 <= j < i - 1 implies (#[trigger] ending_direction(tail[j])) is None by {
                assert(tail[j] == evs[j + 1]);
                assert(ending_direction(evs[j + 1]) is None);
            }
        }
        lemma_first_end_decides(tail, i - 1);
        assert(p1 == Phase::Active);
        assert(!(a is Stop));
        assert(acts[i] == rest[i - 1]);
        assert forall|j: int| i < j < acts.len() implies (#[trigger] acts[j]) is Nothing by {
            assert(acts[j] == rest[j - 1]);
        }
    }
}

/// Without an ending event a session stays active and never stops.
pub proof fn lemma_no_end_stays_active(evs: Seq<Event>)
    requires
        !has_end(evs),
    ensures
        run(Phase::Active, evs).0 == Phase::Active,
        run(Phase::Active, evs).1.len() == evs.len(),
        stops(run(Phase::Active, evs).1) == 0,
    decreases evs.len(),
{
    if evs.len() > 0 {
        let tail = evs.drop_first();
        let (p1, a) = next(Phase::Active, evs[0]);
        let acts = run(Phase::Active, evs).1;
        let rest = run(p1, tail).1;
        assert(acts == seq![a] + rest);
        assert(acts.drop_first() == rest);
        assert(ending_direction(evs[0]) is None);
        assert(!has_end(tail)) by {
            assert forall|i: int| 0 <= i < tail.len() implies (#[trigger] ending_direction(tail[i])) is None by {
                assert(tail[i] == evs[i + 1]);
                assert(ending_direction(evs[i + 1]) is None);
            }
        }
        lemma_no_end_stays_active(tail);
    }
}

/// A session whose transport or subprocess could not be established is
/// aborted and relays nothing in either direction, whatever follows.
pub proof fn lemma_abort_relays_nothing(evs: Seq<Event>)
    requires
        evs.len() > 0,
        evs[0] is EstablishFailed,
    ensures
        run(Phase::Connecting, evs).0 == Phase::Terminated(Outcome::Aborted),
        sent(run(Phase::Connecting, evs).1) == Seq::<Seq<u8>>::empty(),
        written(run(Phase::Connecting, evs).1) == Seq::<Seq<u8>>::empty(),
{
    let tail = evs.drop_first();
    lemma_terminated_absorbs(Outcome::Aborted, tail);
    let acts = run(Phase::Connecting, evs).1;
    let rest = run(Phase::Terminated(Outcome::Aborted), tail).1;
    assert(acts == seq![Action::Stop(Outcome::Aborted)] + rest);
    assert(acts.drop_first() == rest);
}

} // verus!
