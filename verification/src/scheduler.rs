//! The delay scheduler: the in-flight set of one pipeline.
//!
//! An item that enters the set gets a ticket. The surrounding runtime waits
//! as the policy prescribes and then hands the ticket back, which releases
//! the item, unchanged. Items are released in whatever order their tickets
//! come back.

use vstd::prelude::*;
use crate::message::{DispatchItem, ItemView};
use crate::model::{lemma_held_items_len, PendingView};

verus! {

/// The mathematical value of a slot: the value of its item, if it holds one.
pub open spec fn slot_view(slot: Option<DispatchItem>) -> Option<ItemView> {
    match slot {
        Some(item) => Some(item@),
        None => None,
    }
}

/// The in-flight set of one pipeline.
pub struct DelayScheduler {
    slots: Vec<Option<DispatchItem>>,
    vacancies: Vec<usize>,
    occupied: usize,
}

impl View for DelayScheduler {
    type V = PendingView;

    closed spec fn view(&self) -> PendingView {
        PendingView {
            slots: Seq::new(self.slots@.len(), |i: int| slot_view(self.slots@[i])),
            vacancies: Seq::new(self.vacancies@.len(), |i: int| self.vacancies@[i] as nat),
        }
    }
}

impl DelayScheduler {
    /// Whether the number of items in flight is kept exactly.
    pub closed spec fn tally_kept(&self) -> bool {
        self.occupied == self@.items().len()
    }

    /// The invariant of the set: its value is well formed, and the number of
    /// items in flight is kept exactly.
    pub open spec fn wf(&self) -> bool {
        self@.wf() && self.tally_kept()
    }

    /// A set with nothing in flight.
    pub fn new() -> (scheduler: DelayScheduler)
        ensures
            scheduler.wf(),
            scheduler@ == PendingView::empty(),
    {
        let scheduler = DelayScheduler { slots: Vec::new(), vacancies: Vec::new(), occupied: 0 };
        assert(scheduler@.slots =~= Seq::empty());
        assert(scheduler@.vacancies =~= Seq::empty());
        scheduler
    }

    /// Puts an item in flight and returns the ticket under which it is
    /// pending.
    pub fn submit(&mut self, item: DispatchItem) -> (ticket: usize)
        requires
            old(self).wf(),
        ensures
            final(self).wf(),
            ticket == old(self)@.next_ticket(),
            final(self)@ == old(self)@.submit(item@),
    {
        let ghost before = self@;
        proof {
            before.lemma_submit(item@);
            lemma_held_items_len(before.submit(item@).slots);
        }
        let ticket = match self.vacancies.pop() {
            Some(ticket) => {
                assert(ticket == before.vacancies.last());
                self.slots.set(ticket, Some(item));
                ticket
            },
            None => {
                let ticket = self.slots.len();
                self.slots.push(Some(item));
                ticket
            },
        };
        assert(self@.slots =~= before.submit(item@).slots);
        assert(self@.vacancies =~= before.submit(item@).vacancies);
        assert(self@.items().len() == before.items().len() + 1);
        assert(self@.items().len() <= self.slots.len());
        self.occupied = self.occupied + 1;
        ticket
    }

    /// Releases the item pending under a ticket.
    ///
    /// Returns the item as it was submitted, and `None` where nothing is
    /// pending under the ticket; the set is then unchanged. A ticket releases
    /// its item once: afterwards nothing is pending under it until it is
    /// given out again.
    pub fn complete(&mut self, ticket: usize) -> (item: Option<DispatchItem>)
        requires
            old(self).wf(),
        ensures
            final(self).wf(),
            slot_view(item) == old(self)@.item_at(ticket as nat),
            final(self)@ == old(self)@.complete(ticket as nat),
    {
        let ghost before = self@;
        proof {
            before.lemma_complete(ticket as nat);
            lemma_held_items_len(before.slots);
        }
        if ticket < self.slots.len() {
            let item = self.slots[ticket].take();
            if item.is_some() {
                self.vacancies.push(ticket);
                assert(self@.slots =~= before.complete(ticket as nat).slots);
                assert(self@.vacancies =~= before.complete(ticket as nat).vacancies);
                assert(before.items().len() > 0);
                self.occupied = self.occupied - 1;
            } else {
                assert(self@.slots =~= before.slots);
                assert(self@.vacancies =~= before.vacancies);
            }
            item
        } else {
            None
        }
    }

    /// Whether nothing is in flight.
    pub fn is_idle(&self) -> (idle: bool)
        requires
            self.wf(),
        ensures
            idle == self@.is_idle(),
    {
        proof {
            self@.lemma_idle_holds_nothing();
        }
        self.occupied == 0
    }

    /// The number of items in flight.
    pub fn in_flight(&self) -> (count: usize)
        requires
            self.wf(),
        ensures
            count == self@.items().len(),
    {
        self.occupied
    }
}

} // verus!
