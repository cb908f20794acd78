use vstd::prelude::*;

verus! {

/// Who owns a buffer slot right now.
#[derive(Clone, Copy, Debug, PartialEq, Eq, Structural)]
pub enum Slot {
    /// Not handed to the device.
    Free,
    /// Handed to the device: the caller must not touch its contents.
    Queued,
    /// Handed back filled by the device, until it is queued again.
    Ready,
}

/// Why a stream operation was refused.
#[derive(Clone, Copy, Debug, PartialEq, Eq, Structural)]
pub enum StreamError {
    /// `start` on a stream that is already streaming.
    AlreadyStarted,
    /// A buffer was asked for before the stream was started.
    NotStarted,
    /// The device reported a buffer index that is not queued to it.
    NotQueued(u32),
}

/// What the caller must do to obtain the next completed buffer.
#[derive(Clone, Copy, Debug, PartialEq, Eq, Structural)]
pub enum NextStep {
    /// Hand the buffer at this index back to the device first.
    Requeue(u32),
    /// Wait for the device to report a completed buffer.
    Dequeue,
}

/// The slots of a start over `k` buffers after `j` queue steps: the first
/// `j` queued, the rest free.
pub open spec fn starting_slots(k: nat, j: nat) -> Seq<Slot> {
    Seq::new(k, |i: int| if i < j { Slot::Queued } else { Slot::Free })
}

/// Starting hands each granted index to the device exactly once, lowest
/// first: `prepare` gives the state after no step; in the state after `j`
/// steps the lowest free slot is `j`, and queuing it gives the state after
/// `j + 1` steps; after `k` steps every slot is queued and none is free.
pub proof fn lemma_start_queues_each_once(k: nat, j: nat)
    requires
        j <= k,
    ensures
        starting_slots(k, 0) == Seq::new(k, |_i: int| Slot::Free),
        j < k ==> starting_slots(k, j)[j as int] == Slot::Free,
        j < k ==> forall|i: int| 0 <= i < j ==> starting_slots(k, j)[i] != Slot::Free,
        j < k ==> starting_slots(k, j).update(j as int, Slot::Queued) == starting_slots(k, j + 1),
        j == k ==> forall|i: int| 0 <= i < k ==> starting_slots(k, j)[i] == Slot::Queued,
{
    assert(starting_slots(k, 0) =~= Seq::new(k, |_i: int| Slot::Free));
    if j < k {
        assert(starting_slots(k, j).update(j as int, Slot::Queued) =~= starting_slots(k, j + 1));
    }
}

/// The buffer-queue protocol of a capture or output stream over an arena's
/// buffer indices. The caller issues each device operation the stream asks
/// for and reports its outcome.
pub struct Stream {
    slots: Vec<Slot>,
    started: bool,
    current: Option<u32>,
}

impl Stream {
    pub closed spec fn slots(&self) -> Seq<Slot> {
        self.slots@
    }

    pub closed spec fn started(&self) -> bool {
        self.started
    }

    /// The slot that was last handed to the caller, if it is still out.
    pub closed spec fn current(&self) -> Option<u32> {
        self.current
    }

    /// At most one slot is ready, the one recorded as current, and only a
    /// started stream hands slots out.
    pub open spec fn wf(&self) -> bool {
        &&& forall|i: int|
            0 <= i < self.slots().len() ==> ((#[trigger] self.slots()[i] == Slot::Ready) <==> self.current()
                == Some(i as u32))
        &&& self.current() is Some ==> self.current()->0 < self.slots().len() && self.started()
        &&& self.slots().len() <= u32::MAX
    }

    /// A stream with no buffers, not started.
    pub fn new() -> (r: Stream)
        ensures
            r.wf(),
            r.slots().len() == 0,
            !r.started(),
    {
        Stream { slots: Vec::new(), started: false, current: None }
    }

    pub fn len(&self) -> (r: usize)
        ensures
            r == self.slots().len(),
    {
        self.slots.len()
    }

    pub fn is_started(&self) -> (r: bool)
        ensures
            r == self.started(),
    {
        self.started
    }

    pub fn slot(&self, index: usize) -> (r: Option<Slot>)
        ensures
            r == (if index < self.slots().len() { Some(self.slots()[index as int]) } else { None::<Slot> }),
    {
        if index < self.slots.len() {
            Some(self.slots[index])
        } else {
            None
        }
    }

    /// Begins a start over an arena that was granted `granted` buffers: every
    /// slot is free. Starting twice is an error and changes nothing.
    pub fn prepare(&mut self, granted: u32) -> (r: Result<(), StreamError>)
        requires
            old(self).wf(),
        ensures
            final(self).wf(),
            old(self).started() ==> r == Err::<(), StreamError>(StreamError::AlreadyStarted)
                && *final(self) == *old(self),
            !old(self).started() ==> r is Ok && !final(self).started() && final(self).slots()
                == Seq::new(granted as nat, |_i: int| Slot::Free),
    {
        if self.started {
            return Err(StreamError::AlreadyStarted);
        }
        let mut slots: Vec<Slot> = Vec::new();
        let mut i: u32 = 0;
        while i < granted
            invariant
                i <= granted,
                slots@ == Seq::new(i as nat, |_i: int| Slot::Free),
            decreases granted - i,
        {
            slots.push(Slot::Free);
            i = i + 1;
            assert(slots@ =~= Seq::new(i as nat, |_i: int| Slot::Free));
        }
        self.slots = slots;
        self.current = None;
        Ok(())
    }

    /// The lowest free slot, the next to queue while starting.
    pub fn next_to_queue(&self) -> (r: Option<u32>)
        requires
            self.wf(),
        ensures
            r matches Some(i) ==> i < self.slots().len() && self.slots()[i as int] == Slot::Free
                && forall|j: int| 0 <= j < i ==> self.slots()[j] != Slot::Free,
            r is None ==> forall|j: int| 0 <= j < self.slots().len() ==> self.slots()[j] != Slot::Free,
    {
        let mut i: usize = 0;
        while i < self.slots.len()
            invariant
                i <= self.slots().len(),
                self.wf(),
                forall|j: int| 0 <= j < i ==> self.slots()[j] != Slot::Free,
            decreases self.slots().len() - i,
        {
            if self.slots[i] == Slot::Free {
                return Some(i as u32);
            }
            i = i + 1;
        }
        None
    }

    /// Records that the slot at `index` was queued to the device.
    pub fn on_queued(&mut self, index: u32)
        requires
            old(self).wf(),
            !old(self).started(),
            index < old(self).slots().len(),
        ensures
            final(self).wf(),
            !final(self).started(),
            final(self).slots() == old(self).slots().update(index as int, Slot::Queued),
    {
        self.slots.set(index as usize, Slot::Queued);
    }

    /// Records that the device began streaming.
    pub fn on_streaming(&mut self)
        requires
            old(self).wf(),
        ensures
            final(self).wf(),
            final(self).started(),
            final(self).slots() == old(self).slots(),
            final(self).current() == old(self).current(),
    {
        self.started = true;
    }

    /// What the caller must do next to obtain a completed buffer: requeue the
    /// one it holds, else wait for the device. An error before `start`.
    pub fn next_step(&self) -> (r: Result<NextStep, StreamError>)
        requires
            self.wf(),
        ensures
            !self.started() ==> r == Err::<NextStep, StreamError>(StreamError::NotStarted),
            self.started() ==> r == Ok::<NextStep, StreamError>(
                match self.current() {
                    Some(i) => NextStep::Requeue(i),
                    None => NextStep::Dequeue,
                },
            ),
    {
        if !self.started {
            Err(StreamError::NotStarted)
        } else {
            match self.current {
                Some(i) => Ok(NextStep::Requeue(i)),
                None => Ok(NextStep::Dequeue),
            }
        }
    }

    /// Records that the buffer the caller held went back to the device.
    pub fn on_requeued(&mut self)
        requires
            old(self).wf(),
            old(self).current() is Some,
        ensures
            final(self).wf(),
            final(self).started() == old(self).started(),
            final(self).current() is None,
            final(self).slots() == old(self).slots().update(old(self).current()->0 as int, Slot::Queued),
    {
        let i = self.current.unwrap();
        self.slots.set(i as usize, Slot::Queued);
        self.current = None;
    }

    /// Records that the device reported the buffer at `index` as completed.
    /// The device decides the order; an index that is not queued is refused.
    pub fn on_dequeued(&mut self, index: u32) -> (r: Result<(), StreamError>)
        requires
            old(self).wf(),
        ensures
            final(self).wf(),
            final(self).started() == old(self).started(),
            !old(self).started() ==> r == Err::<(), StreamError>(StreamError::NotStarted),
            r is Ok <==> old(self).started() && old(self).current() is None && index < old(self).slots().len()
                && old(self).slots()[index as int] == Slot::Queued,
            old(self).started() && r is Err ==> r == Err::<(), StreamError>(StreamError::NotQueued(index)),
            r is Ok ==> final(self).slots() == old(self).slots().update(index as int, Slot::Ready)
                && final(self).current() == Some(index),
            r is Err ==> *final(self) == *old(self),
    {
        if !self.started {
            return Err(StreamError::NotStarted);
        }
        if self.current.is_some() || index as usize >= self.slots.len() || self.slots[index as usize]
            != Slot::Queued {
            return Err(StreamError::NotQueued(index));
        }
        self.slots.set(index as usize, Slot::Ready);
        self.current = Some(index);
        Ok(())
    }

    /// Ends streaming (or an unfinished start): every slot is dropped,
    /// whatever it held. The device's stop retires the queued buffers.
    pub fn stop(&mut self)
        ensures
            final(self).wf(),
            final(self).slots().len() == 0,
            !final(self).started(),
    {
        self.slots = Vec::new();
        self.started = false;
        self.current = None;
    }
}

} // verus!
