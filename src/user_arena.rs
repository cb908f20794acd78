use vstd::prelude::*;
use crate::device::{BufferRequest, Memory};

verus! {

/// `size` zero bytes.
pub open spec fn zeroed(size: nat) -> Seq<u8> {
    Seq::new(size, |_i: int| 0u8)
}

/// Manages buffers allocated by the process and handed to the device by
/// address. Releasing them is a plain memory free plus one request for zero
/// buffers; no unmapping is involved.
pub struct Arena {
    pub bufs: Vec<Vec<u8>>,
    pub buf_type: u32,
}

impl Arena {
    /// An empty arena for buffers of type `buf_type`.
    pub fn new(buf_type: u32) -> (r: Arena)
        ensures
            r.bufs@.len() == 0,
            r.buf_type == buf_type,
    {
        Arena { bufs: Vec::new(), buf_type }
    }

    /// The buffer request that every negotiation of this arena starts from.
    pub fn requestbuffers_desc(&self) -> (r: BufferRequest)
        ensures
            r == (BufferRequest { buf_type: self.buf_type, memory: Memory::UserPtr, count: 0 }),
    {
        BufferRequest { buf_type: self.buf_type, memory: Memory::UserPtr, count: 0 }
    }

    /// The negotiation that starts an allocation of `count` buffers, to issue
    /// once the active format gave the image size.
    pub fn negotiate(&self, count: u32) -> (r: BufferRequest)
        ensures
            r == (BufferRequest { buf_type: self.buf_type, memory: Memory::UserPtr, count }),
    {
        BufferRequest { count, ..self.requestbuffers_desc() }
    }

    /// Records that the device granted `count` buffers (the device holds a
    /// set exactly while buffers are allocated), and allocates that
    /// many zeroed buffers of `size` bytes, replacing the previous set.
    /// Returns the granted count.
    pub fn on_granted(&mut self, count: u32, size: usize) -> (r: u32)
        ensures
            r == count,
            final(self).buf_type == old(self).buf_type,
            final(self).bufs@.len() == count,
            forall|i: int| 0 <= i < count ==> (#[trigger] final(self).bufs@[i])@ == zeroed(size as nat),
    {
        self.allocate_new_user_buffer(count as usize, size);
        count
    }

    /// Replaces the buffers with `count` zeroed buffers of `size` bytes.
    pub fn allocate_new_user_buffer(&mut self, count: usize, size: usize)
        ensures
            final(self).buf_type == old(self).buf_type,
            final(self).bufs@.len() == count,
            forall|i: int| 0 <= i < count ==> (#[trigger] final(self).bufs@[i])@ == zeroed(size as nat),
    {
        let mut bufs: Vec<Vec<u8>> = Vec::new();
        let mut i: usize = 0;
        while i < count
            invariant
                i <= count,
                bufs@.len() == i,
                forall|j: int| 0 <= j < i ==> (#[trigger] bufs@[j])@ == zeroed(size as nat),
            decreases count - i,
        {
            let mut buf: Vec<u8> = Vec::new();
            let mut k: usize = 0;
            while k < size
                invariant
                    k <= size,
                    buf@ == zeroed(k as nat),
                decreases size - k,
            {
                buf.push(0u8);
                k = k + 1;
                assert(buf@ =~= zeroed(k as nat));
            }
            assert(buf@ =~= zeroed(size as nat));
            bufs.push(buf);
            i = i + 1;
        }
        self.bufs = bufs;
    }

    /// Installs buffers allocated elsewhere (page-aligned ones, say) as the
    /// set for a grant of `count` buffers of `size` bytes. They are taken
    /// only when there are `count` of them, each `size` bytes long; otherwise
    /// the arena is left as it was.
    pub fn adopt(&mut self, bufs: Vec<Vec<u8>>, count: u32, size: usize) -> (r: bool)
        ensures
            r == (bufs@.len() == count && forall|i: int| 0 <= i < bufs@.len() ==> (#[trigger] bufs@[i])@.len() == size),
            r ==> final(self).bufs@ == bufs@,
            !r ==> final(self).bufs@ == old(self).bufs@,
            final(self).buf_type == old(self).buf_type,
    {
        if bufs.len() != count as usize {
            return false;
        }
        let mut i: usize = 0;
        while i < bufs.len()
            invariant
                i <= bufs@.len(),
                forall|j: int| 0 <= j < i ==> (#[trigger] bufs@[j])@.len() == size,
            decreases bufs@.len() - i,
        {
            if bufs[i].len() != size {
                return false;
            }
            i = i + 1;
        }
        self.bufs = bufs;
        true
    }

    /// The request for zero buffers that releasing needs, or nothing when the
    /// arena holds nothing, so that a second release touches no device.
    pub fn release_request(&self) -> (r: Option<BufferRequest>)
        ensures
            r == (if self.bufs@.len() > 0 {
                Some(BufferRequest { buf_type: self.buf_type, memory: Memory::UserPtr, count: 0 })
            } else {
                None::<BufferRequest>
            }),
    {
        if self.bufs.len() > 0 {
            Some(self.requestbuffers_desc())
        } else {
            None
        }
    }

    /// Records that the device accepted the request for zero buffers: the
    /// memory is freed.
    pub fn on_released(&mut self)
        ensures
            final(self).bufs@.len() == 0,
            final(self).buf_type == old(self).buf_type,
    {
        self.bufs = Vec::new();
    }

    pub fn len(&self) -> (r: usize)
        ensures
            r == self.bufs@.len(),
    {
        self.bufs.len()
    }

    pub fn get(&self, index: usize) -> (r: Option<&Vec<u8>>)
        ensures
            r is Some <==> index < self.bufs@.len(),
            r is Some ==> *r->0 == self.bufs@[index as int],
    {
        if index < self.bufs.len() {
            Some(&self.bufs[index])
        } else {
            None
        }
    }
}

} // verus!
