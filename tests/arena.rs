use v4l::device::{teardown_verdict, BufferRequest, Memory, Teardown, ENODEV};
use v4l::mmap_arena::{Arena, MappedBuffer, ReleaseStep};
use v4l::stream::{NextStep, Slot, Stream, StreamError};
use v4l::user_arena::Arena as UserArena;

/// A device that grants at most `cap` buffers of `size` bytes and completes
/// queued buffers in the order they were queued.
struct FakeDevice {
    cap: u32,
    size: u32,
    unmaps: usize,
    zero_requests: usize,
    fifo: Vec<u32>,
}

impl FakeDevice {
    fn new(cap: u32, size: u32) -> Self {
        FakeDevice { cap, size, unmaps: 0, zero_requests: 0, fifo: Vec::new() }
    }

    fn allocate(&mut self, arena: &mut Arena, count: u32) -> Result<u32, ()> {
        let req = arena.negotiate(count);
        assert_eq!(req.memory, Memory::Mmap);
        assert_eq!(req.count, count);
        let mut staging = arena.on_granted(count.min(self.cap));
        while let Some(i) = staging.next_index() {
            staging.add(i * self.size, self.size, 0x10000 * (i as usize + 1));
        }
        assert!(staging.is_complete());
        let (granted, retired) = arena.install(staging);
        self.unmaps += retired.len();
        Ok(granted)
    }

    fn take_release_step(&mut self, arena: &mut Arena, step: ReleaseStep) {
        match step {
            ReleaseStep::Unmap(_) => {
                self.unmaps += 1;
                arena.on_unmapped();
            }
            ReleaseStep::RequestZero(req) => {
                assert_eq!(req.count, 0);
                self.zero_requests += 1;
                arena.on_released();
            }
            ReleaseStep::Done => {}
        }
    }

    fn release(&mut self, arena: &mut Arena) {
        loop {
            let step = arena.release_step();
            if step == ReleaseStep::Done {
                break;
            }
            self.take_release_step(arena, step);
        }
    }

    fn start(&mut self, stream: &mut Stream, arena: &mut Arena, count: u32) -> Result<(), StreamError> {
        if stream.is_started() {
            return Err(StreamError::AlreadyStarted);
        }
        let granted = self.allocate(arena, count).unwrap();
        stream.prepare(granted)?;
        while let Some(i) = stream.next_to_queue() {
            self.fifo.push(i);
            stream.on_queued(i);
        }
        stream.on_streaming();
        Ok(())
    }

    fn next(&mut self, stream: &mut Stream) -> Result<u32, StreamError> {
        if let NextStep::Requeue(i) = stream.next_step()? {
            self.fifo.push(i);
            stream.on_requeued();
        }
        let i = self.fifo.remove(0);
        stream.on_dequeued(i)?;
        Ok(i)
    }
}

#[test]
fn device_may_grant_fewer_buffers() {
    let mut dev = FakeDevice::new(2, 100);
    let mut arena = Arena::new(1);
    assert_eq!(dev.allocate(&mut arena, 4), Ok(2));
    assert_eq!(arena.len(), 2);
    assert_eq!(
        arena.get(1),
        Some(&MappedBuffer { index: 1, offset: 100, length: 100, addr: 0x20000 })
    );
    assert_eq!(arena.get(2), None);
    assert_eq!(arena.get_unchecked(0).addr, 0x10000);
}

#[test]
fn arena_is_reusable_after_release() {
    let mut dev = FakeDevice::new(8, 64);
    let mut arena = Arena::new(1);
    assert_eq!(dev.allocate(&mut arena, 3), Ok(3));
    dev.release(&mut arena);
    assert_eq!(arena.len(), 0);
    assert_eq!(dev.allocate(&mut arena, 5), Ok(5));
    assert_eq!(arena.len(), 5);
}

#[test]
fn allocating_over_mapped_buffers_replaces_them() {
    let mut dev = FakeDevice::new(8, 64);
    let mut arena = Arena::new(1);
    dev.allocate(&mut arena, 2).unwrap();
    assert_eq!(
        arena.negotiate(3),
        BufferRequest { buf_type: 1, memory: Memory::Mmap, count: 3 }
    );
    assert_eq!(arena.len(), 2);
    dev.size = 32;
    assert_eq!(dev.allocate(&mut arena, 3), Ok(3));
    assert_eq!((dev.unmaps, dev.zero_requests), (2, 0));
    assert_eq!(arena.len(), 3);
    assert_eq!(arena.get(1).unwrap().length, 32);
}

#[test]
fn failed_allocation_keeps_previous_set() {
    let mut dev = FakeDevice::new(8, 64);
    let mut arena = Arena::new(1);
    dev.allocate(&mut arena, 2).unwrap();
    let mut staging = arena.on_granted(3);
    assert_eq!(staging.next_index(), Some(0));
    staging.add(0, 32, 0x90000);
    assert!(!staging.is_complete());
    let staged = staging.abandon();
    assert_eq!(staged, vec![MappedBuffer { index: 0, offset: 0, length: 32, addr: 0x90000 }]);
    assert_eq!(arena.len(), 2);
    assert_eq!(
        arena.get(1),
        Some(&MappedBuffer { index: 1, offset: 64, length: 64, addr: 0x20000 })
    );
}

#[test]
fn releasing_an_empty_arena_does_nothing() {
    let mut dev = FakeDevice::new(8, 64);
    let mut arena = Arena::new(1);
    assert_eq!(arena.release_step(), ReleaseStep::Done);
    dev.release(&mut arena);
    assert_eq!((dev.unmaps, dev.zero_requests), (0, 0));
}

#[test]
fn second_release_unmaps_nothing() {
    let mut dev = FakeDevice::new(8, 64);
    let mut arena = Arena::new(1);
    dev.allocate(&mut arena, 4).unwrap();
    dev.release(&mut arena);
    assert_eq!((dev.unmaps, dev.zero_requests), (4, 1));
    dev.release(&mut arena);
    assert_eq!((dev.unmaps, dev.zero_requests), (4, 1));
}

#[test]
fn release_unmaps_last_buffer_first_then_asks_for_zero() {
    let mut dev = FakeDevice::new(8, 64);
    let mut arena = Arena::new(9);
    dev.allocate(&mut arena, 2).unwrap();
    assert_eq!(
        arena.release_step(),
        ReleaseStep::Unmap(MappedBuffer { index: 1, offset: 64, length: 64, addr: 0x20000 })
    );
    arena.on_unmapped();
    arena.on_unmapped();
    assert_eq!(
        arena.release_step(),
        ReleaseStep::RequestZero(BufferRequest { buf_type: 9, memory: Memory::Mmap, count: 0 })
    );
}

#[test]
fn device_gone_is_ignored_at_teardown() {
    assert_eq!(teardown_verdict(Some(ENODEV)), Teardown::Ignore);
    assert_eq!(teardown_verdict(Some(19)), Teardown::Ignore);
}

#[test]
fn other_teardown_failures_abort() {
    assert_eq!(teardown_verdict(Some(22)), Teardown::Abort);
    assert_eq!(teardown_verdict(Some(5)), Teardown::Abort);
    assert_eq!(teardown_verdict(None), Teardown::Abort);
}

#[test]
fn user_arena_allocates_zeroed_buffers_and_releases_once() {
    let mut arena = UserArena::new(1);
    assert_eq!(arena.release_request(), None);
    assert_eq!(
        arena.negotiate(3),
        BufferRequest { buf_type: 1, memory: Memory::UserPtr, count: 3 }
    );
    assert_eq!(arena.on_granted(3, 16), 3);
    assert_eq!(arena.len(), 3);
    assert_eq!(arena.get(2), Some(&vec![0u8; 16]));
    assert_eq!(arena.get(3), None);
    assert_eq!(
        arena.release_request(),
        Some(BufferRequest { buf_type: 1, memory: Memory::UserPtr, count: 0 })
    );
    arena.on_released();
    assert_eq!(arena.len(), 0);
    assert_eq!(arena.release_request(), None);
    assert_eq!(arena.on_granted(2, 8), 2);
    assert_eq!(arena.len(), 2);
}

#[test]
fn stream_yields_each_granted_index_once_per_round() {
    let mut dev = FakeDevice::new(3, 64);
    let mut arena = Arena::new(1);
    let mut stream = Stream::new();
    dev.start(&mut stream, &mut arena, 6).unwrap();
    let mut seen = Vec::new();
    for _ in 0..3 {
        seen.push(dev.next(&mut stream).unwrap());
    }
    let mut sorted = seen.clone();
    sorted.sort();
    assert_eq!(sorted, vec![0, 1, 2]);
    assert_eq!(dev.next(&mut stream).unwrap(), seen[0]);
}

#[test]
fn stream_follows_device_order() {
    let mut dev = FakeDevice::new(4, 64);
    let mut arena = Arena::new(1);
    let mut stream = Stream::new();
    dev.start(&mut stream, &mut arena, 4).unwrap();
    dev.fifo = vec![2, 0, 3, 1];
    assert_eq!(dev.next(&mut stream), Ok(2));
    assert_eq!(stream.slot(2), Some(Slot::Ready));
    assert_eq!(dev.next(&mut stream), Ok(0));
    assert_eq!(stream.slot(2), Some(Slot::Queued));
}

#[test]
fn stream_refuses_unqueued_index() {
    let mut dev = FakeDevice::new(2, 64);
    let mut arena = Arena::new(1);
    let mut stream = Stream::new();
    dev.start(&mut stream, &mut arena, 2).unwrap();
    assert_eq!(stream.on_dequeued(7), Err(StreamError::NotQueued(7)));
    assert_eq!(stream.on_dequeued(1), Ok(()));
    assert_eq!(stream.on_dequeued(0), Err(StreamError::NotQueued(0)));
}

#[test]
fn next_before_start_and_double_start_are_errors() {
    let mut stream = Stream::new();
    assert_eq!(stream.next_step(), Err(StreamError::NotStarted));
    assert_eq!(stream.on_dequeued(0), Err(StreamError::NotStarted));
    let mut dev = FakeDevice::new(2, 64);
    let mut arena = Arena::new(1);
    dev.start(&mut stream, &mut arena, 2).unwrap();
    assert_eq!(stream.prepare(2), Err(StreamError::AlreadyStarted));
    assert_eq!(stream.len(), 2);
}

#[test]
fn stop_drops_every_slot() {
    let mut dev = FakeDevice::new(2, 64);
    let mut arena = Arena::new(1);
    let mut stream = Stream::new();
    dev.start(&mut stream, &mut arena, 2).unwrap();
    dev.next(&mut stream).unwrap();
    stream.stop();
    assert_eq!(stream.len(), 0);
    assert!(!stream.is_started());
    dev.release(&mut arena);
    assert_eq!(arena.len(), 0);
    assert_eq!(stream.next_step(), Err(StreamError::NotStarted));
}

#[test]
fn four_buffer_capture_end_to_end() {
    let image_size = 614_400;
    let mut dev = FakeDevice::new(4, image_size);
    let mut arena = Arena::new(1);
    let mut stream = Stream::new();
    dev.start(&mut stream, &mut arena, 4).unwrap();
    let first = dev.next(&mut stream).unwrap();
    assert!(first < 4);
    assert_eq!(arena.get(first as usize).unwrap().length, image_size);
    let mut seen = vec![first];
    for _ in 0..3 {
        seen.push(dev.next(&mut stream).unwrap());
    }
    for i in 0..4 {
        assert!(seen.contains(&i));
    }
    stream.stop();
    dev.release(&mut arena);
    assert_eq!(dev.unmaps, 4);
}

#[test]
fn user_arena_with_no_buffers_asks_nothing() {
    let mut arena = UserArena::new(1);
    assert_eq!(arena.on_granted(0, 16), 0);
    assert_eq!(arena.len(), 0);
    assert_eq!(arena.release_request(), None);
    arena.on_granted(2, 4);
    arena.allocate_new_user_buffer(0, 4);
    assert_eq!(arena.release_request(), None);
}

#[test]
fn user_arena_adopts_only_a_matching_set() {
    let mut arena = UserArena::new(1);
    arena.on_granted(1, 4);
    assert!(!arena.adopt(vec![vec![1u8; 8]], 2, 8));
    assert!(!arena.adopt(vec![vec![1u8; 8], vec![1u8; 7]], 2, 8));
    assert_eq!(arena.bufs, vec![vec![0u8; 4]]);
    assert!(arena.adopt(vec![vec![1u8; 8], vec![2u8; 8]], 2, 8));
    assert_eq!(arena.len(), 2);
    assert_eq!(arena.get(1), Some(&vec![2u8; 8]));
}
