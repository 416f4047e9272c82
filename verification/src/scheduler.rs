//! Bounded-concurrency bookkeeping: a permit pool that never lets more than
//! the configured number of tasks run at once, and a result board with one
//! pre-assigned slot per task, so that results come back in input order no
//! matter in which order the tasks finish.

use vstd::prelude::*;
use crate::text;

verus! {

/// The number of concurrent requests when the environment sets none.
pub const DEFAULT_CONCURRENT_REQUESTS: usize = 10;

/// The scheduler's bookkeeping for one batch: the permit pool bound, how many
/// permits are out, and one slot per task, indexed by the task's position in
/// the input list. A slot holds the summary text or the task's error message.
pub struct Scheduler {
    pub max_permits: usize,
    pub permits_held: usize,
    pub slots: Vec<Option<Result<String, String>>>,
}

impl Scheduler {
    /// The bound the pool enforces: never more than `max_permits` permits out
    /// at once.
    pub open spec fn wf(&self) -> bool {
        &&& self.max_permits >= 1
        &&& self.permits_held <= self.max_permits
    }

    /// A fresh batch of `n_tasks` unfinished slots.
    pub fn new(n_tasks: usize, max_permits: usize) -> (r: Scheduler)
        requires
            max_permits >= 1,
        ensures
            r.wf(),
            r.max_permits == max_permits,
            r.permits_held == 0,
            r.slots@.len() == n_tasks,
            forall|i: int| 0 <= i < n_tasks ==> r.slots@[i] is None,
    {
        let mut slots: Vec<Option<Result<String, String>>> = Vec::new();
        let mut i: usize = 0;
        while i < n_tasks
            invariant
                i <= n_tasks,
                slots@.len() == i,
                forall|j: int| 0 <= j < i ==> slots@[j] is None,
            decreases n_tasks - i,
        {
            slots.push(None);
            i = i + 1;
        }
        Scheduler { max_permits, permits_held: 0, slots }
    }

    /// Hands a permit out when the pool is not exhausted; the bound
    /// `permits_held <= max_permits` is kept in every case.
    pub fn try_acquire(&mut self) -> (r: bool)
        requires
            old(self).wf(),
        ensures
            final(self).wf(),
            final(self).max_permits == old(self).max_permits,
            final(self).slots == old(self).slots,
            r ==> old(self).permits_held < old(self).max_permits && final(self).permits_held
                == old(self).permits_held + 1,
            !r ==> old(self).permits_held == old(self).max_permits && *final(self) == *old(self),
    {
        if self.permits_held < self.max_permits {
            self.permits_held = self.permits_held + 1;
            true
        } else {
            false
        }
    }

    /// Returns a permit to the pool once a task's whole retry chain has
    /// terminated.
    pub fn release(&mut self)
        requires
            old(self).wf(),
            old(self).permits_held >= 1,
        ensures
            final(self).wf(),
            final(self).max_permits == old(self).max_permits,
            final(self).slots == old(self).slots,
            final(self).permits_held == old(self).permits_held - 1,
    {
        self.permits_held = self.permits_held - 1;
    }

    /// Records a finished task's outcome in its own slot, exactly once.
    pub fn record(&mut self, i: usize, outcome: Result<String, String>)
        requires
            old(self).wf(),
            i < old(self).slots@.len(),
            old(self).slots@[i as int] is None,
        ensures
            final(self).wf(),
            final(self).max_permits == old(self).max_permits,
            final(self).permits_held == old(self).permits_held,
            final(self).slots@ == old(self).slots@.update(i as int, Some(outcome)),
    {
        self.slots.set(i, Some(outcome));
    }

    /// Are all slots filled?
    pub fn is_complete(&self) -> (r: bool)
        ensures
            r == forall|i: int| 0 <= i < self.slots@.len() ==> self.slots@[i] is Some,
    {
        let mut i: usize = 0;
        while i < self.slots.len()
            invariant
                i <= self.slots@.len(),
                forall|j: int| 0 <= j < i ==> self.slots@[j] is Some,
            decreases self.slots@.len() - i,
        {
            if self.slots[i].is_none() {
                return false;
            }
            i = i + 1;
        }
        true
    }

    /// The finished batch, in input order: each position holds the summary
    /// text, or its error message behind an `Error: ` prefix; a failed task
    /// never displaces its neighbours.
    pub fn collect(&self) -> (r: Vec<String>)
        requires
            forall|i: int| 0 <= i < self.slots@.len() ==> self.slots@[i] is Some,
        ensures
            r@.len() == self.slots@.len(),
            forall|i: int| 0 <= i < self.slots@.len() ==> r@[i]@ == spec_slot_text(
                #[trigger] self.slots@[i],
            ),
    {
        let mut r: Vec<String> = Vec::new();
        let mut i: usize = 0;
        while i < self.slots.len()
            invariant
                i <= self.slots@.len(),
                forall|j: int| 0 <= j < i ==> self.slots@[j] is Some,
                forall|j: int| i <= j < self.slots@.len() ==> self.slots@[j] is Some,
                r@.len() == i,
                forall|j: int| 0 <= j < i ==> r@[j]@ == spec_slot_text(#[trigger] self.slots@[j]),
            decreases self.slots@.len() - i,
        {
            let entry = match &self.slots[i] {
                Some(Ok(s)) => s.clone(),
                Some(Err(m)) => {
                    let mut msg = text::chars_of("Error: ");
                    text::append_str(&mut msg, m.as_str());
                    text::string_of(msg.as_slice())
                },
                None => String::new(),
            };
            r.push(entry);
            i = i + 1;
        }
        r
    }
}

/// The text a finished slot contributes to the result list.
pub open spec fn spec_slot_text(slot: Option<Result<String, String>>) -> Seq<char> {
    match slot {
        Some(Ok(s)) => s@,
        Some(Err(m)) => "Error: "@ + m@,
        None => Seq::<char>::empty(),
    }
}

} // verus!
