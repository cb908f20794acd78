use vstd::prelude::*;
use crate::device::{BufferRequest, Memory};

verus! {

/// One device buffer mapped into the process: the device's index for it, the
/// offset the device gave for mapping it, its length, and the mapped address.
#[derive(Clone, Copy, Debug, PartialEq, Eq, Structural)]
pub struct MappedBuffer {
    pub index: u32,
    pub offset: u32,
    pub length: u32,
    pub addr: usize,
}

/// The abstract state of an arena: its mapped buffers in index order, and
/// whether the device still holds a buffer set negotiated for it.
pub struct ArenaView {
    pub bufs: Seq<MappedBuffer>,
    pub held: bool,
}

/// Each buffer sits at the position given by its device index.
pub open spec fn indexed(bufs: Seq<MappedBuffer>) -> bool {
    forall|i: int| 0 <= i < bufs.len() ==> (#[trigger] bufs[i]).index == i
}

/// Mapped buffers exist only while the device holds the set behind them.
pub open spec fn view_wf(v: ArenaView) -> bool {
    indexed(v.bufs) && (v.bufs.len() > 0 ==> v.held)
}

/// The next device or memory operation that releasing needs.
#[derive(Clone, Copy, Debug, PartialEq, Eq, Structural)]
pub enum ReleaseStep {
    /// Unmap this buffer (the last one still mapped).
    Unmap(MappedBuffer),
    /// Ask the device for zero buffers, so that it drops its references.
    RequestZero(BufferRequest),
    /// Nothing is left to release.
    Done,
}

/// The step that releasing an arena in state `v` takes next.
pub open spec fn release_step_of(v: ArenaView, buf_type: u32) -> ReleaseStep {
    if v.bufs.len() > 0 {
        ReleaseStep::Unmap(v.bufs.last())
    } else if v.held {
        ReleaseStep::RequestZero(BufferRequest { buf_type, memory: Memory::Mmap, count: 0 })
    } else {
        ReleaseStep::Done
    }
}

/// The state after the last mapped buffer was unmapped.
pub open spec fn after_unmap(v: ArenaView) -> ArenaView {
    ArenaView { bufs: v.bufs.drop_last(), held: v.held }
}

/// The state after the device accepted a request for zero buffers.
pub open spec fn after_zero(v: ArenaView) -> ArenaView {
    ArenaView { bufs: v.bufs, held: false }
}

/// The state once every step of a release went through.
pub open spec fn released(v: ArenaView) -> ArenaView
    decreases v.bufs.len(),
{
    if v.bufs.len() > 0 {
        released(after_unmap(v))
    } else if v.held {
        after_zero(v)
    } else {
        v
    }
}

/// The state after the device granted `count` buffers: the mapped set is
/// untouched until a complete new set replaces it.
pub open spec fn after_grant(v: ArenaView, count: u32) -> ArenaView {
    ArenaView { bufs: v.bufs, held: count > 0 || v.bufs.len() > 0 }
}

/// The state after a complete set of mapped buffers was installed.
pub open spec fn after_install(v: ArenaView, bufs: Seq<MappedBuffer>) -> ArenaView {
    ArenaView { bufs, held: v.held }
}

/// A release that runs to its end leaves no mapped buffer and no set held
/// by the device.
pub proof fn lemma_released_empty(v: ArenaView)
    ensures
        released(v).bufs.len() == 0,
        !released(v).held,
    decreases v.bufs.len(),
{
    if v.bufs.len() > 0 {
        lemma_released_empty(after_unmap(v));
    }
}

/// An arena is reusable: once released, installing a complete set of `m`
/// buffers leaves exactly that set.
pub proof fn lemma_reusable(v: ArenaView, fresh: Seq<MappedBuffer>, m: u32)
    requires
        view_wf(v),
        indexed(fresh),
        fresh.len() == m,
    ensures
        released(v).bufs.len() == 0,
        view_wf(after_install(after_grant(released(v), m), fresh)),
        after_install(after_grant(released(v), m), fresh).bufs == fresh,
        after_install(after_grant(released(v), m), fresh).bufs.len() == m,
{
    lemma_released_empty(v);
}

/// An allocation ends with the previous set or with the new one, never a
/// mix: up to the install, whatever failed, the mapped set is the one held
/// before; the install leaves exactly the new set.
pub proof fn lemma_allocation_all_or_nothing(v: ArenaView, count: u32, fresh: Seq<MappedBuffer>)
    requires
        view_wf(v),
        indexed(fresh),
        fresh.len() == count,
    ensures
        view_wf(after_grant(v, count)),
        after_grant(v, count).bufs == v.bufs,
        view_wf(after_install(after_grant(v, count), fresh)),
        after_install(after_grant(v, count), fresh).bufs == fresh,
{
}

/// Releasing an arena that holds nothing takes no step at all.
pub proof fn lemma_release_empty_is_noop(v: ArenaView, buf_type: u32)
    requires
        v.bufs.len() == 0,
        !v.held,
    ensures
        release_step_of(v, buf_type) == ReleaseStep::Done,
        released(v) == v,
{
}

/// Once a release went through, releasing again (as teardown does) neither
/// unmaps anything a second time nor asks the device for anything.
pub proof fn lemma_no_second_unmap(v: ArenaView, buf_type: u32)
    ensures
        release_step_of(released(v), buf_type) == ReleaseStep::Done,
        released(released(v)) == released(v),
{
    lemma_released_empty(v);
}

/// Buffers mapped one by one after the device granted `granted` of them.
pub struct Staging {
    granted: u32,
    bufs: Vec<MappedBuffer>,
}

impl Staging {
    pub closed spec fn granted(&self) -> u32 {
        self.granted
    }

    pub closed spec fn buffers(&self) -> Seq<MappedBuffer> {
        self.bufs@
    }

    pub open spec fn wf(&self) -> bool {
        self.buffers().len() <= self.granted() && indexed(self.buffers())
    }

    pub open spec fn complete(&self) -> bool {
        self.buffers().len() == self.granted()
    }

    /// The index of the buffer to describe and map next, if any is left.
    pub fn next_index(&self) -> (r: Option<u32>)
        requires
            self.wf(),
        ensures
            r == (if self.buffers().len() < self.granted() {
                Some(self.buffers().len() as u32)
            } else {
                None::<u32>
            }),
    {
        if self.bufs.len() < self.granted as usize {
            Some(self.bufs.len() as u32)
        } else {
            None
        }
    }

    /// Records the mapping of the next buffer, whose descriptor gave `offset`
    /// and `length`, at `addr`.
    pub fn add(&mut self, offset: u32, length: u32, addr: usize)
        requires
            old(self).wf(),
            old(self).buffers().len() < old(self).granted(),
        ensures
            final(self).wf(),
            final(self).granted() == old(self).granted(),
            final(self).buffers() == old(self).buffers().push(
                MappedBuffer { index: old(self).buffers().len() as u32, offset, length, addr },
            ),
    {
        let index = self.bufs.len() as u32;
        self.bufs.push(MappedBuffer { index, offset, length, addr });
    }

    pub fn is_complete(&self) -> (r: bool)
        requires
            self.wf(),
        ensures
            r == self.complete(),
    {
        self.bufs.len() == self.granted as usize
    }

    /// Gives up on an incomplete set: the buffers mapped so far, which the
    /// caller must unmap.
    pub fn abandon(self) -> (r: Vec<MappedBuffer>)
        ensures
            r@ == self.buffers(),
    {
        self.bufs
    }
}

/// Manages buffers mapped from device memory.
///
/// Every mapped buffer must be unmapped exactly once before the arena goes
/// away: `release_step` tells the caller what is still to be done.
pub struct Arena {
    bufs: Vec<MappedBuffer>,
    held: bool,
    buf_type: u32,
}

impl View for Arena {
    type V = ArenaView;

    closed spec fn view(&self) -> ArenaView {
        ArenaView { bufs: self.bufs@, held: self.held }
    }
}

impl Arena {
    pub closed spec fn buf_type(&self) -> u32 {
        self.buf_type
    }

    pub open spec fn wf(&self) -> bool {
        view_wf(self@)
    }

    /// An empty arena for buffers of type `buf_type`.
    pub fn new(buf_type: u32) -> (r: Arena)
        ensures
            r.wf(),
            r@.bufs.len() == 0,
            !r@.held,
            r.buf_type() == buf_type,
    {
        Arena { bufs: Vec::new(), held: false, buf_type }
    }

    pub fn len(&self) -> (r: usize)
        ensures
            r == self@.bufs.len(),
    {
        self.bufs.len()
    }

    pub fn get(&self, index: usize) -> (r: Option<&MappedBuffer>)
        ensures
            r is Some <==> index < self@.bufs.len(),
            r is Some ==> *r->0 == self@.bufs[index as int],
    {
        if index < self.bufs.len() {
            Some(&self.bufs[index])
        } else {
            None
        }
    }

    /// The buffer at `index`, for callers that already know it is in range.
    pub fn get_unchecked(&self, index: usize) -> (r: &MappedBuffer)
        requires
            index < self@.bufs.len(),
        ensures
            *r == self@.bufs[index as int],
    {
        &self.bufs[index]
    }

    /// The negotiation that starts an allocation of `count` buffers. It
    /// changes nothing: the mapped set stays until `install` replaces it.
    pub fn negotiate(&self, count: u32) -> (r: BufferRequest)
        ensures
            r == (BufferRequest { buf_type: self.buf_type(), memory: Memory::Mmap, count }),
    {
        BufferRequest { buf_type: self.buf_type, memory: Memory::Mmap, count }
    }

    /// Records that the device granted `count` buffers (maybe fewer than were
    /// asked for) and starts mapping them. The mapped set is left as it is, so
    /// a failure before `install` leaves the arena with its previous set.
    pub fn on_granted(&mut self, count: u32) -> (r: Staging)
        requires
            old(self).wf(),
        ensures
            final(self).wf(),
            final(self)@ == after_grant(old(self)@, count),
            final(self).buf_type() == old(self).buf_type(),
            r.wf(),
            r.granted() == count,
            r.buffers().len() == 0,
    {
        self.held = count > 0 || self.bufs.len() > 0;
        Staging { granted: count, bufs: Vec::new() }
    }

    /// Installs a fully mapped set in place of the previous one. Returns how
    /// many buffers the new set holds, and the retired buffers, which the
    /// caller must unmap.
    pub fn install(&mut self, staging: Staging) -> (r: (u32, Vec<MappedBuffer>))
        requires
            old(self).wf(),
            old(self)@.held || staging.granted() == 0,
            staging.wf(),
            staging.complete(),
        ensures
            final(self).wf(),
            final(self)@ == after_install(old(self)@, staging.buffers()),
            final(self).buf_type() == old(self).buf_type(),
            r.0 == staging.granted(),
            r.1@ == old(self)@.bufs,
    {
        let count = staging.granted;
        let mut retired = staging.bufs;
        std::mem::swap(&mut self.bufs, &mut retired);
        (count, retired)
    }

    /// What releasing the arena must do next.
    pub fn release_step(&self) -> (r: ReleaseStep)
        requires
            self.wf(),
        ensures
            r == release_step_of(self@, self.buf_type()),
    {
        let n = self.bufs.len();
        if n > 0 {
            ReleaseStep::Unmap(self.bufs[n - 1])
        } else if self.held {
            ReleaseStep::RequestZero(
                BufferRequest { buf_type: self.buf_type, memory: Memory::Mmap, count: 0 },
            )
        } else {
            ReleaseStep::Done
        }
    }

    /// Records that the last mapped buffer was unmapped.
    pub fn on_unmapped(&mut self)
        requires
            old(self).wf(),
            old(self)@.bufs.len() > 0,
        ensures
            final(self).wf(),
            final(self)@ == after_unmap(old(self)@),
            final(self).buf_type() == old(self).buf_type(),
    {
        self.bufs.pop();
        assert(self@.bufs =~= old(self)@.bufs.drop_last());
    }

    /// Records that the device accepted the request for zero buffers.
    pub fn on_released(&mut self)
        requires
            old(self).wf(),
            old(self)@.bufs.len() == 0,
        ensures
            final(self).wf(),
            final(self)@ == after_zero(old(self)@),
            final(self).buf_type() == old(self).buf_type(),
    {
        self.held = false;
    }
}

} // verus!
