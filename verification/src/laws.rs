//! What holds of every step and of every run of the filter.

use vstd::prelude::*;
use vstd::multiset::Multiset;
use crate::message::{ItemView, Pipeline};
use crate::model::{
    arrival, arrivals, slot_items, transmission, transmissions, ActionView, EventView, FilterView,
};
use crate::policy::DelayPolicy;

verus! {

/// The pipeline that an event is about.
pub open spec fn pipeline_of(event: EventView) -> Pipeline {
    match event {
        EventView::Arrived { pipeline, .. } => pipeline,
        EventView::Closed { pipeline } => pipeline,
        EventView::Elapsed { pipeline, .. } => pipeline,
    }
}

/// A step keeps the filter well formed.
pub proof fn law_step_keeps_well_formed(state: FilterView, event: EventView)
    requires
        state.wf(),
    ensures
        state.step(event).0.wf(),
{
    let lane = state.lane(pipeline_of(event));
    match event {
        EventView::Arrived { pipeline, item } => {
            lane.pending.lemma_submit(item);
        },
        EventView::Closed { pipeline } => {},
        EventView::Elapsed { pipeline, ticket } => {
            lane.pending.lemma_complete(ticket);
        },
    }
}

/// The two pipelines share no state: an event on one of them leaves the
/// other as it was, and the action it causes names the event's pipeline.
pub proof fn law_step_stays_on_its_pipeline(state: FilterView, event: EventView, other: Pipeline)
    requires
        other != pipeline_of(event),
    ensures
        state.step(event).0.lane(other) == state.lane(other),
        state.step(event).0.policy == state.policy,
        transmission(state.step(event).1, other) == Multiset::<ItemView>::empty(),
        match state.step(event).1 {
            ActionView::Suspend { pipeline, .. } => pipeline == pipeline_of(event),
            ActionView::Transmit { pipeline, .. } => pipeline == pipeline_of(event),
            ActionView::Idle => true,
        },
{
}

/// An item is handed to the transmitter only when its suspension is reported
/// over, and then once: a step transmits only on an elapsed ticket under which
/// an item is pending, it transmits that item, unchanged, on the pipeline of
/// the event, and afterwards nothing is pending under the ticket.
pub proof fn law_transmission_follows_elapse(state: FilterView, event: EventView)
    ensures
        match state.step(event).1 {
            ActionView::Transmit { pipeline, item } => event matches EventView::Elapsed {
                pipeline: p,
                ticket,
            } && p == pipeline && state.lane(p).pending.item_at(ticket) == Some(item)
                && state.step(event).0.lane(p).pending.item_at(ticket) is None,
            _ => true,
        },
{
}

/// An arriving item is suspended as the policy prescribes and not otherwise:
/// for the configured delay where its message is a block proposal and the
/// simulation is enabled, and not at all in every other case. It is pending
/// under the ticket that the action names.
pub proof fn law_arrival_waits_as_prescribed(
    state: FilterView,
    pipeline: Pipeline,
    item: ItemView,
)
    requires
        state.wf(),
    ensures
        state.step(EventView::Arrived { pipeline, item }).1 == (ActionView::Suspend {
            pipeline,
            ticket: state.lane(pipeline).pending.next_ticket(),
            wait: if item.message.is_propose() && state.policy.ddos_simulation_enabled {
                Some(state.policy.delay_millis)
            } else {
                None
            },
        }),
        state.step(EventView::Arrived { pipeline, item }).0.lane(pipeline).pending.item_at(
            state.lane(pipeline).pending.next_ticket(),
        ) == Some(item),
{
    state.lane(pipeline).pending.lemma_submit(item);
}

/// An item in flight waits for its own ticket: whatever else happens, it
/// stays pending, unchanged and under the same ticket, until that ticket is
/// reported as elapsed on its pipeline.
pub proof fn law_item_waits_for_its_ticket(
    state: FilterView,
    event: EventView,
    pipeline: Pipeline,
    ticket: nat,
)
    requires
        state.wf(),
        state.lane(pipeline).pending.item_at(ticket) is Some,
        event != (EventView::Elapsed { pipeline, ticket }),
    ensures
        state.step(event).0.lane(pipeline).pending.item_at(ticket) == state.lane(
            pipeline,
        ).pending.item_at(ticket),
{
    let lane = state.lane(pipeline_of(event));
    match event {
        EventView::Arrived { pipeline: p, item } => {
            lane.pending.lemma_submit(item);
        },
        EventView::Closed { pipeline: p } => {},
        EventView::Elapsed { pipeline: p, ticket: t } => {
            lane.pending.lemma_complete(t);
        },
    }
}

/// No step loses or duplicates an item: on each pipeline, what was in flight
/// together with what arrived is what is in flight afterwards together with
/// what was handed to the transmitter.
pub proof fn law_step_conserves_items(state: FilterView, event: EventView, pipeline: Pipeline)
    requires
        state.wf(),
    ensures
        state.lane(pipeline).pending.items().add(arrival(event, pipeline)) == state.step(
            event,
        ).0.lane(pipeline).pending.items().add(transmission(state.step(event).1, pipeline)),
{
    let lane = state.lane(pipeline_of(event));
    match event {
        EventView::Arrived { pipeline: p, item } => {
            lane.pending.lemma_submit(item);
        },
        EventView::Closed { pipeline: p } => {},
        EventView::Elapsed { pipeline: p, ticket } => {
            lane.pending.lemma_complete(ticket);
            assert(slot_items(None::<ItemView>) == Multiset::<ItemView>::empty());
        },
    }
}

/// The dispatch loop stops only where the filter is drained: a run consumes
/// every event unless it ends drained. It never stops while an item is in
/// flight.
pub proof fn law_run_stops_only_when_drained(state: FilterView, events: Seq<EventView>)
    ensures
        state.run(events).1.len() <= events.len(),
        state.run(events).1.len() < events.len() ==> state.run(events).0.is_drained(),
        state.run(events).0.is_drained() ==> state.run(events).0.primary.pending.is_idle()
            && state.run(events).0.fallback.pending.is_idle(),
    decreases events.len(),
{
    if events.len() == 0 || state.is_drained() {
    } else {
        law_run_stops_only_when_drained(state.step(events.first()).0, events.drop_first());
    }
}

/// A drained filter takes no further step: its run over any events is over
/// at once, with no action and the state unchanged.
pub proof fn law_drained_loop_terminates(state: FilterView, events: Seq<EventView>)
    requires
        state.is_drained(),
    ensures
        state.run(events) == (state, Seq::<ActionView>::empty()),
{
}

/// A run keeps the filter well formed.
pub proof fn law_run_keeps_well_formed(state: FilterView, events: Seq<EventView>)
    requires
        state.wf(),
    ensures
        state.run(events).0.wf(),
    decreases events.len(),
{
    if events.len() == 0 || state.is_drained() {
    } else {
        law_step_keeps_well_formed(state, events.first());
        law_run_keeps_well_formed(state.step(events.first()).0, events.drop_first());
    }
}

/// No run loses or duplicates an item: on each pipeline, what was in flight
/// at the start together with what arrived in the events consumed is what is
/// in flight at the end together with what was handed to the transmitter.
pub proof fn law_run_conserves_items(state: FilterView, events: Seq<EventView>, pipeline: Pipeline)
    requires
        state.wf(),
    ensures
        state.lane(pipeline).pending.items().add(
            arrivals(events.take(state.run(events).1.len() as int), pipeline),
        ) == state.run(events).0.lane(pipeline).pending.items().add(
            transmissions(state.run(events).1, pipeline),
        ),
    decreases events.len(),
{
    let (end, actions) = state.run(events);
    let consumed = events.take(actions.len() as int);
    if events.len() == 0 || state.is_drained() {
        assert(consumed =~= Seq::empty());
    } else {
        let (next, action) = state.step(events.first());
        let (_, rest) = next.run(events.drop_first());
        law_run_stops_only_when_drained(next, events.drop_first());
        law_step_keeps_well_formed(state, events.first());
        law_step_conserves_items(state, events.first(), pipeline);
        law_run_conserves_items(next, events.drop_first(), pipeline);
        assert(actions =~= seq![action] + rest);
        assert(actions.first() == action);
        assert(actions.drop_first() =~= rest);
        assert(consumed.first() == events.first());
        assert(consumed.drop_first() =~= events.drop_first().take(rest.len() as int));
        let start_items = state.lane(pipeline).pending.items();
        let next_items = next.lane(pipeline).pending.items();
        let end_items = end.lane(pipeline).pending.items();
        let tail_arrivals = arrivals(consumed.drop_first(), pipeline);
        let tail_transmissions = transmissions(rest, pipeline);
        assert forall|item: ItemView|
            start_items.add(arrivals(consumed, pipeline)).count(item) == end_items.add(
                transmissions(actions, pipeline),
            ).count(item) by {
            assert(start_items.add(arrival(events.first(), pipeline)).count(item)
                == next_items.add(transmission(action, pipeline)).count(item));
            assert(next_items.add(tail_arrivals).count(item) == end_items.add(
                tail_transmissions,
            ).count(item));
        }
        assert(start_items.add(arrivals(consumed, pipeline)) =~= end_items.add(
            transmissions(actions, pipeline),
        ));
    }
}

/// Every item that arrives on a pipeline is handed to the transmitter of
/// that pipeline exactly once: where a run of a new filter ends with nothing
/// in flight on a pipeline, as it does where the filter ends drained, the
/// items transmitted on the pipeline are the items that arrived on it in the
/// events consumed, each as often as it arrived.
pub proof fn law_every_item_is_transmitted_once(
    parameters: DelayPolicy,
    events: Seq<EventView>,
    pipeline: Pipeline,
)
    requires
        FilterView::initial(parameters).run(events).0.lane(pipeline).pending.is_idle(),
    ensures
        transmissions(FilterView::initial(parameters).run(events).1, pipeline) == arrivals(
            events.take(FilterView::initial(parameters).run(events).1.len() as int),
            pipeline,
        ),
{
    let start = FilterView::initial(parameters);
    let (end, actions) = start.run(events);
    law_run_conserves_items(start, events, pipeline);
    start.lane(pipeline).pending.lemma_idle_holds_nothing();
    end.lane(pipeline).pending.lemma_idle_holds_nothing();
    assert(start.lane(pipeline).pending.is_idle());
    let consumed = arrivals(events.take(actions.len() as int), pipeline);
    let sent = transmissions(actions, pipeline);
    assert(Multiset::<ItemView>::empty().add(consumed) =~= consumed);
    assert(Multiset::<ItemView>::empty().add(sent) =~= sent);
}

/// The pipelines never deliver across: in every run of a new filter, whatever
/// is handed to the transmitter of a pipeline arrived on that same pipeline,
/// and no more often than it arrived there.
pub proof fn law_pipelines_never_cross(
    parameters: DelayPolicy,
    events: Seq<EventView>,
    pipeline: Pipeline,
)
    ensures
        transmissions(FilterView::initial(parameters).run(events).1, pipeline).subset_of(
            arrivals(
                events.take(FilterView::initial(parameters).run(events).1.len() as int),
                pipeline,
            ),
        ),
{
    let start = FilterView::initial(parameters);
    let (end, actions) = start.run(events);
    law_run_conserves_items(start, events, pipeline);
    start.lane(pipeline).pending.lemma_idle_holds_nothing();
    assert(start.lane(pipeline).pending.is_idle());
    let consumed = arrivals(events.take(actions.len() as int), pipeline);
    let sent = transmissions(actions, pipeline);
    let left = end.lane(pipeline).pending.items();
    assert(Multiset::<ItemView>::empty().add(consumed) =~= consumed);
    assert forall|item: ItemView| sent.count(item) <= consumed.count(item) by {
        assert(left.add(sent).count(item) == consumed.count(item));
    }
}

} // verus!
