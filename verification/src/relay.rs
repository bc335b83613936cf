//! The bidirectional relay: a byte-transparent pipe between the client and
//! the upstream connection.
//!
//! The driver races reads on both streams; each read outcome is handed to
//! [`relay_step`], which decides whether the session is over or which bytes
//! must be written to the opposite stream, in full, before any further read.
//! [`run_relay`] runs the same decision over a whole recorded session, and
//! [`lemma_relay_transparent`] states the law: each peer receives exactly
//! the bytes the other sent, in order, up to the first end-of-stream.

use vstd::prelude::*;

verus! {

/// What the relay does with one read outcome.
pub enum RelayAction {
    /// Write these bytes, all of them, to the opposite stream.
    Forward(Vec<u8>),
    /// A peer closed: end the session without error.
    Finish,
}

/// Decide what one read outcome means: a zero-length read ends the session,
/// anything else is forwarded unchanged.
pub fn relay_step(data: Vec<u8>) -> (r: RelayAction)
    ensures
        data@.len() == 0 ==> r is Finish,
        data@.len() > 0 ==> (r matches RelayAction::Forward(d) && d@ == data@),
{
    if data.is_empty() {
        RelayAction::Finish
    } else {
        RelayAction::Forward(data)
    }
}

/// One read observed during a relay session: which stream produced it and
/// the bytes it produced (empty for end-of-stream).
pub struct RelayEvent {
    /// True when the client stream produced the bytes.
    pub from_client: bool,
    /// The bytes read; empty means the peer closed.
    pub data: Vec<u8>,
}

/// The mathematical shadow of a recorded session: (side, bytes) per read.
pub open spec fn relay_events_view(events: Seq<RelayEvent>) -> Seq<(bool, Seq<u8>)> {
    events.map_values(|e: RelayEvent| (e.from_client, e.data@))
}

/// The bytes the relay, stepped over `events`, writes to the stream opposite
/// the side `from`: every non-empty chunk read from `from` in order, until
/// the first empty read on either side ends the session.
pub open spec fn relay_output(events: Seq<(bool, Seq<u8>)>, from: bool) -> Seq<u8>
    decreases events.len(),
{
    if events.len() == 0 {
        Seq::empty()
    } else if events[0].1.len() == 0 {
        Seq::empty()
    } else if events[0].0 == from {
        events[0].1 + relay_output(events.drop_first(), from)
    } else {
        relay_output(events.drop_first(), from)
    }
}

/// How many events the session consumes before an end-of-stream (all of
/// them, when no read is empty).
pub open spec fn active_len(events: Seq<(bool, Seq<u8>)>) -> int
    decreases events.len(),
{
    if events.len() == 0 {
        0
    } else if events[0].1.len() == 0 {
        0
    } else {
        1 + active_len(events.drop_first())
    }
}

/// A session consumes at most all of its events.
pub proof fn lemma_active_len_bounds(events: Seq<(bool, Seq<u8>)>)
    ensures
        0 <= active_len(events) <= events.len(),
    decreases events.len(),
{
    if events.len() > 0 && events[0].1.len() > 0 {
        lemma_active_len_bounds(events.drop_first());
    }
}

/// The events that one side produced.
pub open spec fn from_side(from: bool) -> spec_fn((bool, Seq<u8>)) -> bool {
    |e: (bool, Seq<u8>)| e.0 == from
}

/// The bytes of one event.
pub open spec fn event_bytes() -> spec_fn((bool, Seq<u8>)) -> Seq<u8> {
    |e: (bool, Seq<u8>)| e.1
}

/// The chunks one side sends while the session is active, in order.
pub open spec fn sent_chunks(events: Seq<(bool, Seq<u8>)>, from: bool) -> Seq<Seq<u8>> {
    events.take(active_len(events)).filter(from_side(from)).map_values(event_bytes())
}

/// The bytes one side sends while the session is active, in order.
pub open spec fn sent_bytes(events: Seq<(bool, Seq<u8>)>, from: bool) -> Seq<u8> {
    sent_chunks(events, from).flatten()
}

/// Relay transparency: over any session, the bytes the relay writes towards
/// one peer are exactly the bytes the other peer sent, in the same order,
/// up to the first end-of-stream on either side.
pub proof fn lemma_relay_transparent(events: Seq<(bool, Seq<u8>)>, from: bool)
    ensures
        relay_output(events, from) == sent_bytes(events, from),
    decreases events.len(),
{
    if events.len() == 0 {
        assert(events.take(0) =~= Seq::<(bool, Seq<u8>)>::empty());
        assert(sent_chunks(events, from) =~= Seq::<Seq<u8>>::empty());
    } else if events[0].1.len() == 0 {
        assert(events.take(0) =~= Seq::<(bool, Seq<u8>)>::empty());
        assert(sent_chunks(events, from) =~= Seq::<Seq<u8>>::empty());
    } else {
        let rest = events.drop_first();
        lemma_relay_transparent(rest, from);
        lemma_active_len_bounds(rest);
        let n = active_len(events);
        assert(n == 1 + active_len(rest));
        let pred = from_side(from);
        let proj = event_bytes();
        let taken = rest.take(active_len(rest));
        assert(events.take(n) =~= seq![events[0]] + taken);
        taken.lemma_filter_prepend(events[0], pred);
        if events[0].0 == from {
            assert((seq![events[0]] + taken).filter(pred) == seq![events[0]] + taken.filter(
                pred,
            ));
            let fa = seq![events[0]] + taken.filter(pred);
            assert(fa.map_values(proj) =~= seq![events[0].1] + taken.filter(pred).map_values(
                proj,
            ));
            assert(sent_chunks(events, from) =~= seq![events[0].1] + sent_chunks(rest, from));
            lemma_flatten_cons(events[0].1, sent_chunks(rest, from));
        } else {
            assert((seq![events[0]] + taken).filter(pred) == Seq::<(bool, Seq<u8>)>::empty()
                + taken.filter(pred));
            assert(Seq::<(bool, Seq<u8>)>::empty() + taken.filter(pred) =~= taken.filter(pred));
            assert(sent_chunks(events, from) =~= sent_chunks(rest, from));
        }
    }
}

/// Flattening a sequence of chunks peels off the first chunk.
proof fn lemma_flatten_cons(first: Seq<u8>, rest: Seq<Seq<u8>>)
    ensures
        (seq![first] + rest).flatten() == first + rest.flatten(),
{
    let whole = seq![first] + rest;
    assert(whole.len() > 0);
    assert(whole.first() == first);
    assert(whole.drop_first() =~= rest);
}

/// What a whole relay session hands each peer.
pub struct RelayOutcome {
    /// Every byte written to the upstream stream, in order.
    pub to_upstream: Vec<u8>,
    /// Every byte written to the client stream, in order.
    pub to_client: Vec<u8>,
}

/// Run the relay decision over a recorded session: the executable model of
/// the relay loop, stepping exactly as the driver does, one read at a time.
pub fn run_relay(events: Vec<RelayEvent>) -> (r: RelayOutcome)
    ensures
        r.to_upstream@ == relay_output(relay_events_view(events@), true),
        r.to_client@ == relay_output(relay_events_view(events@), false),
{
    let ghost evs = relay_events_view(events@);
    let mut rest = events;
    let mut to_upstream: Vec<u8> = Vec::new();
    let mut to_client: Vec<u8> = Vec::new();
    let mut done = false;
    while !done && rest.len() > 0
        invariant
            done ==> to_upstream@ == relay_output(evs, true) && to_client@ == relay_output(
                evs,
                false,
            ),
            !done ==> relay_output(evs, true) == to_upstream@ + relay_output(
                relay_events_view(rest@),
                true,
            ) && relay_output(evs, false) == to_client@ + relay_output(
                relay_events_view(rest@),
                false,
            ),
        decreases rest.len(),
    {
        let ghost before = relay_events_view(rest@);
        let event = rest.remove(0);
        let from_client = event.from_client;
        proof {
            assert(relay_events_view(rest@) =~= before.drop_first());
            assert(before[0] == (event.from_client, event.data@));
        }
        match relay_step(event.data) {
            RelayAction::Finish => {
                proof {
                    assert(to_upstream@ + relay_output(before, true) =~= to_upstream@);
                    assert(to_client@ + relay_output(before, false) =~= to_client@);
                }
                done = true;
            },
            RelayAction::Forward(mut data) => {
                if from_client {
                    to_upstream.append(&mut data);
                } else {
                    to_client.append(&mut data);
                }
            },
        }
    }
    proof {
        if !done {
            assert(relay_events_view(rest@).len() == 0);
            assert(to_upstream@ + relay_output(relay_events_view(rest@), true) =~= to_upstream@);
            assert(to_client@ + relay_output(relay_events_view(rest@), false) =~= to_client@);
        }
    }
    RelayOutcome { to_upstream, to_client }
}

} // verus!
