//! The dispatch loop as a state machine.
//!
//! The surrounding runtime owns the queues, the timers and the channels. It
//! reports what happens as an [`Event`], and the filter answers each event
//! with the [`Action`] to perform. The filter itself never waits.

use vstd::prelude::*;
use crate::message::{DispatchItem, Pipeline};
use crate::model::{ActionView, EventView, FilterView, LaneView};
use crate::policy::DelayPolicy;
use crate::scheduler::DelayScheduler;

verus! {

/// What the surrounding runtime reports to the filter.
#[derive(Debug, PartialEq, Eq)]
pub enum Event {
    /// An item arrived on the inbound queue of a pipeline.
    Arrived { pipeline: Pipeline, item: DispatchItem },
    /// The inbound queue of a pipeline was closed by its producers.
    Closed { pipeline: Pipeline },
    /// The suspension started under a ticket is over.
    Elapsed { pipeline: Pipeline, ticket: usize },
}

impl View for Event {
    type V = EventView;

    open spec fn view(&self) -> EventView {
        match *self {
            Event::Arrived { pipeline, item } => EventView::Arrived { pipeline, item: item@ },
            Event::Closed { pipeline } => EventView::Closed { pipeline },
            Event::Elapsed { pipeline, ticket } => EventView::Elapsed {
                pipeline,
                ticket: ticket as nat,
            },
        }
    }
}

/// What the filter asks the surrounding runtime to do.
#[derive(Debug, PartialEq, Eq)]
pub enum Action {
    /// Wait for `wait` milliseconds, or not at all where `wait` is `None`,
    /// then report the ticket as elapsed on the same pipeline.
    Suspend { pipeline: Pipeline, ticket: usize, wait: Option<u64> },
    /// Hand the item to the transmitter of the pipeline.
    Transmit { pipeline: Pipeline, item: DispatchItem },
    /// Nothing.
    Idle,
}

impl View for Action {
    type V = ActionView;

    open spec fn view(&self) -> ActionView {
        match *self {
            Action::Suspend { pipeline, ticket, wait } => ActionView::Suspend {
                pipeline,
                ticket: ticket as nat,
                wait,
            },
            Action::Transmit { pipeline, item } => ActionView::Transmit { pipeline, item: item@ },
            Action::Idle => ActionView::Idle,
        }
    }
}

/// The values of a sequence of events.
pub open spec fn event_views(events: Seq<Event>) -> Seq<EventView> {
    Seq::new(events.len(), |i: int| events[i]@)
}

/// The values of a sequence of actions.
pub open spec fn action_views(actions: Seq<Action>) -> Seq<ActionView> {
    Seq::new(actions.len(), |i: int| actions[i]@)
}

/// One pipeline: whether its inbound queue may still deliver, and its
/// in-flight set.
struct Lane {
    open: bool,
    pending: DelayScheduler,
}

/// The dispatch filter: the delay policy and the two pipelines.
pub struct Filter {
    policy: DelayPolicy,
    primary: Lane,
    fallback: Lane,
}

impl View for Filter {
    type V = FilterView;

    closed spec fn view(&self) -> FilterView {
        FilterView {
            policy: self.policy,
            primary: LaneView { open: self.primary.open, pending: self.primary.pending@ },
            fallback: LaneView { open: self.fallback.open, pending: self.fallback.pending@ },
        }
    }
}

impl Filter {
    /// Whether both in-flight sets keep their number of items exactly.
    pub closed spec fn tallies_kept(&self) -> bool {
        self.primary.pending.tally_kept() && self.fallback.pending.tally_kept()
    }

    /// The invariant of the filter: its value is well formed, and both
    /// in-flight sets keep their number of items exactly.
    pub open spec fn wf(&self) -> bool {
        self@.wf() && self.tallies_kept()
    }

    /// A filter with both inbound queues open and nothing in flight.
    pub fn new(parameters: DelayPolicy) -> (filter: Filter)
        ensures
            filter.wf(),
            filter@ == FilterView::initial(parameters),
    {
        Filter {
            policy: parameters,
            primary: Lane { open: true, pending: DelayScheduler::new() },
            fallback: Lane { open: true, pending: DelayScheduler::new() },
        }
    }

    /// Reacts to one event.
    ///
    /// The next state and the action are those of [`FilterView::step`].
    pub fn step(&mut self, event: Event) -> (action: Action)
        requires
            old(self).wf(),
        ensures
            final(self).wf(),
            (final(self)@, action@) == old(self)@.step(event@),
    {
        match event {
            Event::Arrived { pipeline, item } => {
                let wait = Self::delay(&item, &self.policy);
                let ticket = match pipeline {
                    Pipeline::Primary => self.primary.pending.submit(item),
                    Pipeline::Fallback => self.fallback.pending.submit(item),
                };
                Action::Suspend { pipeline, ticket, wait }
            },
            Event::Closed { pipeline } => {
                match pipeline {
                    Pipeline::Primary => {
                        self.primary.open = false;
                    },
                    Pipeline::Fallback => {
                        self.fallback.open = false;
                    },
                }
                Action::Idle
            },
            Event::Elapsed { pipeline, ticket } => {
                let released = match pipeline {
                    Pipeline::Primary => self.primary.pending.complete(ticket),
                    Pipeline::Fallback => self.fallback.pending.complete(ticket),
                };
                match released {
                    Some(item) => Action::Transmit { pipeline, item },
                    None => Action::Idle,
                }
            },
        }
    }

    /// Whether the dispatch loop is over: both inbound queues are closed and
    /// nothing is in flight on either pipeline.
    pub fn is_drained(&self) -> (drained: bool)
        requires
            self.wf(),
        ensures
            drained == self@.is_drained(),
    {
        !self.primary.open && !self.fallback.open && self.primary.pending.is_idle()
            && self.fallback.pending.is_idle()
    }

    /// The delay policy that the filter was made with.
    pub fn policy(&self) -> (parameters: DelayPolicy)
        ensures
            parameters == self@.policy,
    {
        self.policy
    }

    /// Whether the inbound queue of a pipeline may still deliver: no closure
    /// of it was reported yet.
    pub fn is_open(&self, pipeline: Pipeline) -> (open: bool)
        ensures
            open == self@.lane(pipeline).open,
    {
        match pipeline {
            Pipeline::Primary => self.primary.open,
            Pipeline::Fallback => self.fallback.open,
        }
    }

    /// The number of items in flight on a pipeline.
    pub fn in_flight(&self, pipeline: Pipeline) -> (count: usize)
        requires
            self.wf(),
        ensures
            count == self@.lane(pipeline).pending.items().len(),
    {
        match pipeline {
            Pipeline::Primary => self.primary.pending.in_flight(),
            Pipeline::Fallback => self.fallback.pending.in_flight(),
        }
    }

    /// Runs the dispatch loop of a new filter over a sequence of events and
    /// returns the actions it takes, in order.
    ///
    /// The loop reacts to the events one by one for as long as the filter is
    /// not drained; events that follow are left unanswered.
    pub fn run(parameters: DelayPolicy, events: Vec<Event>) -> (actions: Vec<Action>)
        ensures
            action_views(actions@) == FilterView::initial(parameters).run(event_views(events@)).1,
    {
        let mut filter = Filter::new(parameters);
        let mut actions: Vec<Action> = Vec::new();
        let ghost all = event_views(events@);
        let ghost start = FilterView::initial(parameters);
        assert(action_views(actions@) =~= Seq::empty());
        assert(all.skip(0) =~= all);
        for event in iter: events
            invariant
                filter.wf(),
                iter.seq() == events@,
                all == event_views(events@),
                start.run(all).1 == action_views(actions@) + filter@.run(
                    all.skip(iter.index() as int),
                ).1,
        {
            let ghost rest = all.skip(iter.index() as int);
            let ghost taken = action_views(actions@);
            assert(rest.first() == event@);
            assert(rest.drop_first() =~= all.skip(iter.index() + 1));
            if !filter.is_drained() {
                let action = filter.step(event);
                actions.push(action);
                assert(action_views(actions@) =~= taken + seq![action@]);
                assert(taken + (seq![action@] + filter@.run(rest.drop_first()).1) =~= (taken
                    + seq![action@]) + filter@.run(rest.drop_first()).1);
            }
        }
        assert(all.skip(events@.len() as int) =~= Seq::empty());
        assert(action_views(actions@) + Seq::<ActionView>::empty() =~= action_views(actions@));
        actions
    }

    /// Decides the suspension of an item before it may be transmitted:
    /// `Some(d)` for a suspension of `d` milliseconds, `None` for none.
    ///
    /// An item is suspended exactly when its message is a block proposal and
    /// the simulation is enabled, and then for the configured delay.
    pub fn delay(input: &DispatchItem, parameters: &DelayPolicy) -> (wait: Option<u64>)
        ensures
            wait == parameters.suspension_of(input@.message),
            wait is Some <==> input@.message.is_propose() && parameters.ddos_simulation_enabled,
            wait is Some ==> wait == Some(parameters.delay_millis),
    {
        parameters.suspension(&input.message)
    }
}

} // verus!
