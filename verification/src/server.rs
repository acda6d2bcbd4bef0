//! Connection acceptor model.
//!
//! The acceptor owns the listening socket and gives every accepted
//! connection a session of its own; sessions share nothing. The model is a
//! map from connection identifier to session state: each event at the
//! server's edge belongs to exactly one connection, and dispatching it
//! steps that session alone. The isolation law proved here says that a
//! session's final state and every action directed on its behalf depend
//! only on its own starting state and its own events — what arrives on one
//! connection, keystrokes included, is never observed in another session's
//! output, and one session's teardown leaves every other session and the
//! accept loop untouched.

use vstd::prelude::*;
use crate::bridge::ActionV;
use crate::bridge::EventV;
use crate::bridge::SessionModel;
use crate::bridge::run;
use crate::bridge::step_spec;

verus! {

/// Steps the one session an event belongs to; an event for an unknown
/// connection does nothing. Every other session is untouched.
pub open spec fn dispatch(m: Map<nat, SessionModel>, id: nat, e: EventV) -> (
    Map<nat, SessionModel>,
    ActionV,
) {
    if m.dom().contains(id) {
        let stepped = step_spec(m[id], e);
        (m.insert(id, stepped.0), stepped.1)
    } else {
        (m, ActionV::Ignore)
    }
}

/// The whole server after a trace of events, each tagged with the
/// connection it arrived on, together with every directed action, tagged
/// with the connection it is for.
pub open spec fn run_server(m: Map<nat, SessionModel>, tr: Seq<(nat, EventV)>) -> (
    Map<nat, SessionModel>,
    Seq<(nat, ActionV)>,
) decreases tr.len(),
{
    if tr.len() == 0 {
        (m, Seq::empty())
    } else {
        let first = dispatch(m, tr[0].0, tr[0].1);
        let rest = run_server(first.0, tr.drop_first());
        (rest.0, seq![(tr[0].0, first.1)] + rest.1)
    }
}

/// The events of one connection, in arrival order.
pub open spec fn events_of(tr: Seq<(nat, EventV)>, id: nat) -> Seq<EventV>
    decreases tr.len(),
{
    if tr.len() == 0 {
        Seq::empty()
    } else if tr[0].0 == id {
        seq![tr[0].1] + events_of(tr.drop_first(), id)
    } else {
        events_of(tr.drop_first(), id)
    }
}

/// The actions directed for one connection, in order.
pub open spec fn actions_for(outs: Seq<(nat, ActionV)>, id: nat) -> Seq<ActionV>
    decreases outs.len(),
{
    if outs.len() == 0 {
        Seq::empty()
    } else if outs[0].0 == id {
        seq![outs[0].1] + actions_for(outs.drop_first(), id)
    } else {
        actions_for(outs.drop_first(), id)
    }
}

/// Isolation: under any interleaved trace, a session ends in exactly the
/// state, and is directed exactly the actions, that its own events alone
/// produce — the other connections' traffic contributes nothing — and no
/// session is created or lost by dispatching.
pub proof fn lemma_isolation(m: Map<nat, SessionModel>, tr: Seq<(nat, EventV)>, id: nat)
    requires
        m.dom().contains(id),
    ensures
        run_server(m, tr).0.dom() == m.dom(),
        run_server(m, tr).0[id] == run(m[id], events_of(tr, id)).0,
        actions_for(run_server(m, tr).1, id) == run(m[id], events_of(tr, id)).1,
    decreases tr.len(),
{
    if tr.len() == 0 {
        assert(actions_for(run_server(m, tr).1, id) =~= run(m[id], events_of(tr, id)).1);
    } else {
        let first = dispatch(m, tr[0].0, tr[0].1);
        let m1 = first.0;
        assert(m1.dom() =~= m.dom());
        lemma_isolation(m1, tr.drop_first(), id);
        let myevents = events_of(tr, id);
        let outs = run_server(m, tr).1;
        if tr[0].0 == id {
            assert(myevents[0] == tr[0].1);
            assert(myevents.drop_first() =~= events_of(tr.drop_first(), id));
            assert(m1[id] == step_spec(m[id], tr[0].1).0);
            assert(outs[0] == (tr[0].0, first.1));
            assert(outs.drop_first() =~= run_server(m1, tr.drop_first()).1);
            assert(actions_for(outs, id) == seq![first.1] + actions_for(outs.drop_first(), id));
            assert(run(m[id], myevents).1 =~= seq![step_spec(m[id], tr[0].1).1] + run(
                m1[id],
                events_of(tr.drop_first(), id),
            ).1);
            assert(actions_for(outs, id) =~= run(m[id], myevents).1);
        } else {
            assert(m1[id] == m[id]);
            assert(myevents =~= events_of(tr.drop_first(), id));
            assert(outs[0] == (tr[0].0, first.1));
            assert(outs.drop_first() =~= run_server(m1, tr.drop_first()).1);
            assert(actions_for(outs, id) == actions_for(outs.drop_first(), id));
        }
    }
}

} // verus!
