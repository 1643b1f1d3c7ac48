//! The event dispatcher: per-connection state that runs the bootstrap on the
//! first `Ready` of a connection and hands every other event to the resolver.
use vstd::prelude::*;
use crate::config::{Config, ConfigView};
use crate::resolve::{
    bootstrap, bootstrap_actions, event_actions, resolve, Action, ActionView, EventView,
    InboundEvent,
};

verus! {

/// Where a connection stands.
#[derive(Clone, Copy, Debug, PartialEq, Eq, Structural)]
pub enum ConnectionState {
    Disconnected,
    /// Connected, bootstrap not yet run.
    Connected,
    /// Connected, bootstrap run.
    Bootstrapped,
}

/// The state after an event, and the actions it yields: the first `Ready` of
/// a connection yields the bootstrap; any later one yields nothing. A message
/// or an interaction shows that a connection is up.
pub open spec fn step(s: ConnectionState, c: ConfigView, e: EventView) -> (
    ConnectionState,
    Seq<ActionView>,
) {
    match e {
        EventView::Ready => if s == ConnectionState::Bootstrapped {
            (ConnectionState::Bootstrapped, Seq::empty())
        } else {
            (ConnectionState::Bootstrapped, bootstrap_actions(c))
        },
        _ => (
            if s == ConnectionState::Disconnected {
                ConnectionState::Connected
            } else {
                s
            },
            event_actions(c, e),
        ),
    }
}

/// Routes the events of one transport to the resolver and the bootstrap.
#[derive(Debug)]
pub struct Dispatcher {
    pub state: ConnectionState,
}

impl Dispatcher {
    /// A dispatcher with no connection yet.
    pub fn new() -> (r: Dispatcher)
        ensures
            r.state == ConnectionState::Disconnected,
    {
        Dispatcher { state: ConnectionState::Disconnected }
    }

    /// Handles one event and returns the actions to submit, in order.
    pub fn handle(&mut self, config: &Config, event: &InboundEvent) -> (r: Vec<Action>)
        ensures
            (final(self).state, r.deep_view()) == step(old(self).state, config@, event.deep_view()),
    {
        match event {
            InboundEvent::Ready => {
                if self.state == ConnectionState::Bootstrapped {
                    let out: Vec<Action> = Vec::new();
                    assert(out.deep_view() =~= Seq::<ActionView>::empty());
                    out
                } else {
                    self.state = ConnectionState::Bootstrapped;
                    bootstrap(config)
                }
            },
            _ => {
                if self.state == ConnectionState::Disconnected {
                    self.state = ConnectionState::Connected;
                }
                resolve(config, event)
            },
        }
    }

    /// The transport lost the connection: the next `Ready` bootstraps again.
    pub fn connection_lost(&mut self)
        ensures
            final(self).state == ConnectionState::Disconnected,
    {
        self.state = ConnectionState::Disconnected;
    }
}

/// The state after a run of events on one connection.
pub open spec fn run_state(s: ConnectionState, c: ConfigView, es: Seq<EventView>) -> ConnectionState
    decreases es.len(),
{
    if es.len() == 0 {
        s
    } else {
        run_state(step(s, c, es[0]).0, c, es.drop_first())
    }
}

/// How many events of a run on one connection ran the bootstrap.
pub open spec fn bootstrap_count(s: ConnectionState, c: ConfigView, es: Seq<EventView>) -> nat
    decreases es.len(),
{
    if es.len() == 0 {
        0
    } else {
        let here: nat = if es[0] is Ready && s != ConnectionState::Bootstrapped {
            1
        } else {
            0
        };
        here + bootstrap_count(step(s, c, es[0]).0, c, es.drop_first())
    }
}

/// On one connection, the bootstrap runs exactly once if any `Ready` comes,
/// however many come, and never otherwise; once it has run, no event yields
/// its actions again.
pub proof fn lemma_bootstrap_once(s: ConnectionState, c: ConfigView, es: Seq<EventView>)
    requires
        s != ConnectionState::Bootstrapped,
    ensures
        bootstrap_count(s, c, es) == (if exists|i: int| 0 <= i < es.len() && (#[trigger] es[i]) is Ready {
            1nat
        } else {
            0nat
        }),
    decreases es.len(),
{
    if es.len() > 0 {
        let rest = es.drop_first();
        if es[0] is Ready {
            lemma_bootstrapped_stays(c, rest);
            assert(0 <= 0 < es.len() && es[0] is Ready);
        } else {
            lemma_bootstrap_once(step(s, c, es[0]).0, c, rest);
            if exists|i: int| 0 <= i < es.len() && (#[trigger] es[i]) is Ready {
                let i = choose|i: int| 0 <= i < es.len() && (#[trigger] es[i]) is Ready;
                assert(rest[i - 1] is Ready);
            }
            if exists|i: int| 0 <= i < rest.len() && (#[trigger] rest[i]) is Ready {
                let i = choose|i: int| 0 <= i < rest.len() && (#[trigger] rest[i]) is Ready;
                assert(es[i + 1] is Ready);
            }
        }
    }
}

/// Once bootstrapped, a connection stays bootstrapped, and a later `Ready`
/// yields no action.
pub proof fn lemma_bootstrapped_stays(c: ConfigView, es: Seq<EventView>)
    ensures
        bootstrap_count(ConnectionState::Bootstrapped, c, es) == 0,
        run_state(ConnectionState::Bootstrapped, c, es) == ConnectionState::Bootstrapped,
        step(ConnectionState::Bootstrapped, c, EventView::Ready) == (
            ConnectionState::Bootstrapped,
            Seq::<ActionView>::empty(),
        ),
    decreases es.len(),
{
    if es.len() > 0 {
        lemma_bootstrapped_stays(c, es.drop_first());
    }
}

} // verus!
