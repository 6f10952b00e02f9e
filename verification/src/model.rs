//! The filter as a mathematical state machine: its states, the events it
//! reacts to, the actions it answers with, and what a run of it is.

use vstd::prelude::*;
use vstd::multiset::Multiset;
use crate::message::{ItemView, Pipeline};
use crate::policy::DelayPolicy;

verus! {

/// The in-flight set of one pipeline: a table of pending items indexed by
/// ticket, and the stack of tickets that are free to be given out again.
pub struct PendingView {
    pub slots: Seq<Option<ItemView>>,
    pub vacancies: Seq<nat>,
}

/// The items that a table holds, each as often as it occurs.
pub open spec fn held_items(slots: Seq<Option<ItemView>>) -> Multiset<ItemView>
    decreases slots.len(),
{
    if slots.len() == 0 {
        Multiset::empty()
    } else {
        match slots.last() {
            Some(item) => held_items(slots.drop_last()).insert(item),
            None => held_items(slots.drop_last()),
        }
    }
}

impl PendingView {
    /// The set with nothing in flight.
    pub open spec fn empty() -> PendingView {
        PendingView { slots: Seq::empty(), vacancies: Seq::empty() }
    }

    /// Every free ticket names a vacant slot of the table, and none is listed
    /// twice.
    pub open spec fn wf(self) -> bool {
        &&& forall|k: int|
            0 <= k < self.vacancies.len() ==> (#[trigger] self.vacancies[k]) < self.slots.len()
                && self.slots[self.vacancies[k] as int] is None
        &&& forall|j: int, k: int|
            0 <= j < k < self.vacancies.len() ==> self.vacancies[j] != self.vacancies[k]
    }

    /// The item pending under a ticket, if there is one.
    pub open spec fn item_at(self, ticket: nat) -> Option<ItemView> {
        if ticket < self.slots.len() {
            self.slots[ticket as int]
        } else {
            None
        }
    }

    /// The pending items, each as often as it is in flight.
    pub open spec fn items(self) -> Multiset<ItemView> {
        held_items(self.slots)
    }

    /// Whether nothing is in flight.
    pub open spec fn is_idle(self) -> bool {
        forall|ticket: nat| self.item_at(ticket) is None
    }

    /// The ticket that the next submitted item gets: the one freed last, or a
    /// new one where none is free.
    pub open spec fn next_ticket(self) -> nat {
        if self.vacancies.len() > 0 {
            self.vacancies.last()
        } else {
            self.slots.len()
        }
    }

    /// The set after an item was submitted under [`Self::next_ticket`].
    pub open spec fn submit(self, item: ItemView) -> PendingView {
        if self.vacancies.len() > 0 {
            PendingView {
                slots: self.slots.update(self.vacancies.last() as int, Some(item)),
                vacancies: self.vacancies.drop_last(),
            }
        } else {
            PendingView { slots: self.slots.push(Some(item)), vacancies: self.vacancies }
        }
    }

    /// The set after the item under a ticket left it. A ticket under which
    /// nothing is pending changes nothing.
    pub open spec fn complete(self, ticket: nat) -> PendingView {
        if self.item_at(ticket) is Some {
            PendingView {
                slots: self.slots.update(ticket as int, None),
                vacancies: self.vacancies.push(ticket),
            }
        } else {
            self
        }
    }
}

/// The items that one slot of a table holds: its item, or nothing.
pub open spec fn slot_items(slot: Option<ItemView>) -> Multiset<ItemView> {
    match slot {
        Some(item) => Multiset::singleton(item),
        None => Multiset::empty(),
    }
}

/// A slot appended to a table adds what it holds.
pub proof fn lemma_held_items_push(slots: Seq<Option<ItemView>>, slot: Option<ItemView>)
    ensures
        held_items(slots.push(slot)) =~= held_items(slots).add(slot_items(slot)),
{
    assert(slots.push(slot).drop_last() =~= slots);
}

/// Replacing one slot of a table takes out what the slot held and puts in
/// what it holds now.
pub proof fn lemma_held_items_update(
    slots: Seq<Option<ItemView>>,
    index: int,
    slot: Option<ItemView>,
)
    requires
        0 <= index < slots.len(),
    ensures
        held_items(slots.update(index, slot)).add(slot_items(slots[index])) =~= held_items(
            slots,
        ).add(slot_items(slot)),
    decreases slots.len(),
{
    let updated = slots.update(index, slot);
    let front = slots.drop_last();
    if index == slots.len() - 1 {
        assert(updated.drop_last() =~= front);
        assert(held_items(updated) =~= held_items(front).add(slot_items(slot)));
        assert(held_items(slots) =~= held_items(front).add(slot_items(slots[index])));
    } else {
        assert(updated.drop_last() =~= front.update(index, slot));
        assert(front[index] == slots[index]);
        lemma_held_items_update(front, index, slot);
        assert(held_items(updated) =~= held_items(front.update(index, slot)).add(
            slot_items(slots.last()),
        ));
        assert(held_items(slots) =~= held_items(front).add(slot_items(slots.last())));
        let before = held_items(front.update(index, slot)).add(slot_items(slots[index]));
        let after = held_items(front).add(slot_items(slot));
        assert forall|item: ItemView|
            held_items(updated).add(slot_items(slots[index])).count(item) == held_items(slots).add(
                slot_items(slot),
            ).count(item) by {
            assert(before.count(item) == after.count(item));
        }
    }
}

/// A table holds at most as many items as it has slots, and it holds none
/// exactly when every slot is vacant.
pub proof fn lemma_held_items_len(slots: Seq<Option<ItemView>>)
    ensures
        held_items(slots).len() <= slots.len(),
        held_items(slots).len() == 0 <==> forall|i: int|
            0 <= i < slots.len() ==> (#[trigger] slots[i]) is None,
    decreases slots.len(),
{
    if slots.len() > 0 {
        let front = slots.drop_last();
        lemma_held_items_len(front);
        assert(forall|i: int| 0 <= i < front.len() ==> front[i] == slots[i]);
        if slots.last() is None {
            assert forall|i: int| 0 <= i < slots.len() && (forall|j: int|
                0 <= j < front.len() ==> (#[trigger] front[j]) is None) implies (
            #[trigger] slots[i]) is None by {
                if i < front.len() {
                    assert(front[i] is None);
                }
            }
        }
    }
}

impl PendingView {
    /// Nothing is in flight exactly when the multiset of pending items is
    /// empty.
    pub proof fn lemma_idle_holds_nothing(self)
        ensures
            self.is_idle() <==> self.items().len() == 0,
            self.is_idle() <==> self.items() =~= Multiset::empty(),
    {
        lemma_held_items_len(self.slots);
        if self.is_idle() {
            assert forall|i: int| 0 <= i < self.slots.len() implies (
            #[trigger] self.slots[i]) is None by {
                assert(self.item_at(i as nat) is None);
            }
        }
        if self.items().len() == 0 {
            assert forall|ticket: nat| self.item_at(ticket) is None by {
                if ticket < self.slots.len() {
                    assert(self.slots[ticket as int] is None);
                }
            }
        }
    }

    /// Submitting keeps the set well formed, puts the item under the ticket
    /// it was given, where nothing was pending, and adds it to the pending
    /// items.
    pub proof fn lemma_submit(self, item: ItemView)
        requires
            self.wf(),
        ensures
            self.submit(item).wf(),
            self.item_at(self.next_ticket()) is None,
            self.submit(item).item_at(self.next_ticket()) == Some(item),
            forall|other: nat|
                other != self.next_ticket() ==> self.submit(item).item_at(other) == self.item_at(
                    other,
                ),
            self.submit(item).items() =~= self.items().insert(item),
    {
        let after = self.submit(item);
        if self.vacancies.len() > 0 {
            let last = self.vacancies.len() - 1;
            let ticket = self.vacancies[last];
            assert(self.slots[ticket as int] is None);
            lemma_held_items_update(self.slots, ticket as int, Some(item));
            assert forall|k: int| 0 <= k < after.vacancies.len() implies (
            #[trigger] after.vacancies[k]) < after.slots.len()
                && after.slots[after.vacancies[k] as int] is None by {
                assert(self.vacancies[k] != self.vacancies[last]);
            }
        } else {
            lemma_held_items_push(self.slots, Some(item));
        }
    }

    /// Completing keeps the set well formed, vacates the ticket, and takes
    /// the item that was pending under it, if any, out of the pending items.
    pub proof fn lemma_complete(self, ticket: nat)
        requires
            self.wf(),
        ensures
            self.complete(ticket).wf(),
            self.complete(ticket).item_at(ticket) is None,
            forall|other: nat|
                other != ticket ==> self.complete(ticket).item_at(other) == self.item_at(other),
            self.complete(ticket).items().add(slot_items(self.item_at(ticket))) =~= self.items(),
    {
        let after = self.complete(ticket);
        if self.item_at(ticket) is Some {
            lemma_held_items_update(self.slots, ticket as int, None);
            assert forall|j: int, k: int| 0 <= j < k < after.vacancies.len() implies
                after.vacancies[j] != after.vacancies[k] by {
                if k == self.vacancies.len() {
                    assert(self.slots[self.vacancies[j] as int] is None);
                }
            }
        }
    }
}

/// One pipeline: whether its inbound queue may still deliver, and its
/// in-flight set.
pub struct LaneView {
    pub open: bool,
    pub pending: PendingView,
}

/// What the surrounding runtime reports to the filter.
pub enum EventView {
    /// An item arrived on the inbound queue of a pipeline.
    Arrived { pipeline: Pipeline, item: ItemView },
    /// The inbound queue of a pipeline was closed by its producers.
    Closed { pipeline: Pipeline },
    /// The suspension started under a ticket is over.
    Elapsed { pipeline: Pipeline, ticket: nat },
}

/// What the filter asks the surrounding runtime to do.
pub enum ActionView {
    /// Wait as prescribed, then report the ticket as elapsed.
    Suspend { pipeline: Pipeline, ticket: nat, wait: Option<u64> },
    /// Hand the item to the transmitter of the pipeline.
    Transmit { pipeline: Pipeline, item: ItemView },
    /// Nothing.
    Idle,
}

/// The state of a filter.
pub struct FilterView {
    pub policy: DelayPolicy,
    pub primary: LaneView,
    pub fallback: LaneView,
}

impl FilterView {
    /// The state of a new filter: both inbound queues open, nothing in
    /// flight.
    pub open spec fn initial(policy: DelayPolicy) -> FilterView {
        FilterView {
            policy,
            primary: LaneView { open: true, pending: PendingView::empty() },
            fallback: LaneView { open: true, pending: PendingView::empty() },
        }
    }

    /// Both in-flight sets are well formed.
    pub open spec fn wf(self) -> bool {
        self.primary.pending.wf() && self.fallback.pending.wf()
    }

    /// The state of one pipeline.
    pub open spec fn lane(self, pipeline: Pipeline) -> LaneView {
        match pipeline {
            Pipeline::Primary => self.primary,
            Pipeline::Fallback => self.fallback,
        }
    }

    /// The same filter with one pipeline replaced.
    pub open spec fn with_lane(self, pipeline: Pipeline, lane: LaneView) -> FilterView {
        match pipeline {
            Pipeline::Primary => FilterView { primary: lane, ..self },
            Pipeline::Fallback => FilterView { fallback: lane, ..self },
        }
    }

    /// Whether no source of work is left: both inbound queues are closed and
    /// nothing is in flight on either pipeline.
    pub open spec fn is_drained(self) -> bool {
        &&& !self.primary.open
        &&& !self.fallback.open
        &&& self.primary.pending.is_idle()
        &&& self.fallback.pending.is_idle()
    }

    /// The reaction of the filter to one event: the next state and the
    /// action.
    ///
    /// An arriving item enters the in-flight set of its pipeline, with the
    /// suspension that the policy prescribes for its message. An elapsed
    /// ticket releases the item pending under it, unchanged, for
    /// transmission on the same pipeline; where nothing is pending under it,
    /// nothing happens. A closure is recorded.
    pub open spec fn step(self, event: EventView) -> (FilterView, ActionView) {
        match event {
            EventView::Arrived { pipeline, item } => {
                let lane = self.lane(pipeline);
                (
                    self.with_lane(
                        pipeline,
                        LaneView { open: lane.open, pending: lane.pending.submit(item) },
                    ),
                    ActionView::Suspend {
                        pipeline,
                        ticket: lane.pending.next_ticket(),
                        wait: self.policy.suspension_of(item.message),
                    },
                )
            },
            EventView::Closed { pipeline } => {
                let lane = self.lane(pipeline);
                (
                    self.with_lane(pipeline, LaneView { open: false, pending: lane.pending }),
                    ActionView::Idle,
                )
            },
            EventView::Elapsed { pipeline, ticket } => {
                let lane = self.lane(pipeline);
                match lane.pending.item_at(ticket) {
                    Some(item) => (
                        self.with_lane(
                            pipeline,
                            LaneView { open: lane.open, pending: lane.pending.complete(ticket) },
                        ),
                        ActionView::Transmit { pipeline, item },
                    ),
                    None => (self, ActionView::Idle),
                }
            },
        }
    }

    /// A run of the dispatch loop over a sequence of events: the state it
    /// ends in and the actions it took, one for each event it consumed.
    ///
    /// The loop consumes events in order for as long as the filter is not
    /// drained.
    pub open spec fn run(self, events: Seq<EventView>) -> (FilterView, Seq<ActionView>)
        decreases events.len(),
    {
        if events.len() == 0 || self.is_drained() {
            (self, Seq::empty())
        } else {
            let (next, action) = self.step(events.first());
            let (end, actions) = next.run(events.drop_first());
            (end, seq![action] + actions)
        }
    }
}

/// What one event brings to a pipeline: the item, if the event is an arrival
/// on that pipeline.
pub open spec fn arrival(event: EventView, pipeline: Pipeline) -> Multiset<ItemView> {
    match event {
        EventView::Arrived { pipeline: p, item } => if p == pipeline {
            Multiset::singleton(item)
        } else {
            Multiset::empty()
        },
        _ => Multiset::empty(),
    }
}

/// What one action hands to the transmitter of a pipeline: the item, if the
/// action is a transmission on that pipeline.
pub open spec fn transmission(action: ActionView, pipeline: Pipeline) -> Multiset<ItemView> {
    match action {
        ActionView::Transmit { pipeline: p, item } => if p == pipeline {
            Multiset::singleton(item)
        } else {
            Multiset::empty()
        },
        _ => Multiset::empty(),
    }
}

/// The items that arrive on a pipeline in a sequence of events, each as often
/// as it arrives.
pub open spec fn arrivals(events: Seq<EventView>, pipeline: Pipeline) -> Multiset<ItemView>
    decreases events.len(),
{
    if events.len() == 0 {
        Multiset::empty()
    } else {
        arrival(events.first(), pipeline).add(arrivals(events.drop_first(), pipeline))
    }
}

/// The items that a sequence of actions hands to the transmitter of a
/// pipeline, each as often as it is handed over.
pub open spec fn transmissions(actions: Seq<ActionView>, pipeline: Pipeline) -> Multiset<ItemView>
    decreases actions.len(),
{
    if actions.len() == 0 {
        Multiset::empty()
    } else {
        transmission(actions.first(), pipeline).add(transmissions(actions.drop_first(), pipeline))
    }
}

} // verus!
