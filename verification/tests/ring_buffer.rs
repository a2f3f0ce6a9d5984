use ringbuf::consumer::Consumer;
use ringbuf::producer::Producer;
use ringbuf::rb::End;
use ringbuf::rb::LocalRb;
use ringbuf::storage::Container;
use ringbuf::storage::ContainerStorage;
use ringbuf::storage::Storage;
use ringbuf::utils::ranges;

#[test]
fn fresh_buffer_is_empty() {
    for capacity in [1usize, 2, 4, 7, 64] {
        let rb: LocalRb<u32> = LocalRb::new(capacity);
        assert_eq!(rb.len(), 0);
        assert!(rb.is_empty());
        assert!(!rb.is_full());
        assert_eq!(rb.remaining(), capacity);
        assert_eq!(rb.capacity(), capacity);
        assert!(!rb.read_is_held());
        assert!(!rb.write_is_held());
    }
}

#[test]
fn len_plus_remaining_is_capacity_after_every_operation() {
    let mut rb: LocalRb<u32> = LocalRb::new(3);
    let check = |rb: &LocalRb<u32>| {
        assert_eq!(rb.len() + rb.remaining(), rb.capacity());
    };
    check(&rb);
    assert!(rb.try_push(1).is_ok());
    check(&rb);
    assert!(rb.try_push(2).is_ok());
    check(&rb);
    assert_eq!(rb.try_pop(), Some(1));
    check(&rb);
    assert!(rb.try_push(3).is_ok());
    check(&rb);
    assert!(rb.try_push(4).is_ok());
    check(&rb);
    assert_eq!(rb.try_push(5), Err(5));
    check(&rb);
    assert_eq!(rb.try_pop(), Some(2));
    check(&rb);
    rb.clear();
    check(&rb);
}

#[test]
fn fifo_round_trip() {
    let mut rb: LocalRb<u64> = LocalRb::new(8);
    let values = [10u64, 20, 30, 40, 50];
    for v in values {
        assert!(rb.try_push(v).is_ok());
    }
    for v in values {
        assert_eq!(rb.try_pop(), Some(v));
    }
    assert!(rb.is_empty());
}

#[test]
fn pop_from_empty_never_mutates() {
    let mut rb: LocalRb<u8> = LocalRb::new(4);
    let read_before = rb.read_index();
    let write_before = rb.write_index();
    assert_eq!(rb.try_pop(), None);
    assert_eq!(rb.try_pop(), None);
    assert_eq!(rb.read_index(), read_before);
    assert_eq!(rb.write_index(), write_before);
    assert!(rb.is_empty());
}

#[test]
fn wraparound_preserves_fifo_order() {
    for m in 1usize..4 {
        let mut rb: LocalRb<usize> = LocalRb::new(4);
        for v in 1..=4usize {
            assert!(rb.try_push(v).is_ok());
        }
        for v in 1..=m {
            assert_eq!(rb.try_pop(), Some(v));
        }
        for v in 5..5 + m {
            assert!(rb.try_push(v).is_ok());
        }
        let mut seen = Vec::new();
        while let Some(v) = rb.try_pop() {
            seen.push(v);
        }
        let expected: Vec<usize> = (m + 1..5 + m).collect();
        assert_eq!(seen, expected);
    }
}

#[test]
fn full_and_empty_are_distinguished() {
    let mut rb: LocalRb<i32> = LocalRb::new(2);
    assert!(rb.is_empty());
    assert!(!rb.is_full());
    assert!(rb.try_push(-1).is_ok());
    assert!(rb.try_push(-2).is_ok());
    assert!(rb.is_full());
    assert!(!rb.is_empty());
    assert_eq!(rb.try_push(-3), Err(-3));
    assert_eq!(rb.len(), 2);
    assert_eq!(rb.try_pop(), Some(-1));
    assert_eq!(rb.try_pop(), Some(-2));
    assert!(rb.is_empty());
}

#[test]
fn slice_projection_lengths_and_order() {
    // no wrap: positions 1, 2 of a 4-slot storage
    assert_eq!(ranges(4, 1, 2), ((1, 3), (0, 0)));
    // empty range anywhere
    assert_eq!(ranges(4, 6, 0), ((2, 2), (0, 0)));
    // wrapping: start at extended position 6 (slot 2), three positions: 2, 3, 0
    assert_eq!(ranges(4, 6, 3), ((2, 4), (0, 1)));
    // a full-capacity range starting at slot 0
    assert_eq!(ranges(4, 4, 4), ((0, 4), (0, 0)));
    // lengths always sum to the requested count
    for start in 0..8 {
        for count in 0..=4 {
            let ((a0, a1), (b0, b1)) = ranges(4, start, count);
            assert_eq!((a1 - a0) + (b1 - b0), count);
            // concatenating both ranges walks the positions in circular order
            let positions: Vec<usize> = (a0..a1).chain(b0..b1).collect();
            let expected: Vec<usize> = (0..count).map(|i| (start % 4 + i) % 4).collect();
            assert_eq!(positions, expected);
        }
    }
}

#[test]
fn occupied_and_vacant_ranges_partition_storage() {
    let mut rb: LocalRb<u16> = LocalRb::new(4);
    for v in [1u16, 2, 3, 4] {
        assert!(rb.try_push(v).is_ok());
    }
    assert_eq!(rb.try_pop(), Some(1));
    assert_eq!(rb.try_pop(), Some(2));
    assert!(rb.try_push(5).is_ok());
    // occupied: logical 3, 4, 5 living at slots 2, 3, 0
    let occ = rb.occupied_ranges();
    let vac = rb.vacant_ranges();
    let occ_len = (occ.0 .1 - occ.0 .0) + (occ.1 .1 - occ.1 .0);
    let vac_len = (vac.0 .1 - vac.0 .0) + (vac.1 .1 - vac.1 .0);
    assert_eq!(occ_len, rb.len());
    assert_eq!(vac_len, rb.remaining());
    assert_eq!(occ_len + vac_len, rb.capacity());
    assert_eq!(occ, ((2, 4), (0, 1)));
}

#[test]
fn disconnect_is_visible_without_a_push() {
    let mut rb: LocalRb<u8> = LocalRb::new(2);
    rb.hold_read(true);
    rb.hold_write(true);
    assert!(!Producer::is_closed(&rb));
    assert!(!Consumer::is_closed(&rb));
    // the consumer side goes away
    rb.hold_read(false);
    assert!(Producer::is_closed(&rb));
    assert!(!Consumer::is_closed(&rb));
    // the producer side closes too
    Producer::close(&mut rb);
    assert!(Consumer::is_closed(&rb));
}

struct CountsDrops {
    counter: std::rc::Rc<std::cell::Cell<usize>>,
}

impl Drop for CountsDrops {
    fn drop(&mut self) {
        self.counter.set(self.counter.get() + 1);
    }
}

#[test]
fn dropping_the_buffer_drops_each_element_exactly_once() {
    for popped in 0..3usize {
        let counter = std::rc::Rc::new(std::cell::Cell::new(0));
        let mut rb: LocalRb<CountsDrops> = LocalRb::new(4);
        for _ in 0..3 {
            let elem = CountsDrops { counter: counter.clone() };
            assert!(rb.try_push(elem).is_ok());
        }
        for _ in 0..popped {
            let v = rb.try_pop();
            assert!(v.is_some());
            drop(v);
        }
        assert_eq!(counter.get(), popped);
        drop(rb);
        assert_eq!(counter.get(), 3);
    }
}

#[test]
fn clear_drops_everything_exactly_once() {
    let counter = std::rc::Rc::new(std::cell::Cell::new(0));
    let mut rb: LocalRb<CountsDrops> = LocalRb::new(2);
    assert!(rb.try_push(CountsDrops { counter: counter.clone() }).is_ok());
    assert!(rb.try_push(CountsDrops { counter: counter.clone() }).is_ok());
    rb.clear();
    assert_eq!(counter.get(), 2);
    assert!(rb.is_empty());
    drop(rb);
    assert_eq!(counter.get(), 2);
}

#[test]
fn concrete_scenario_capacity_four() {
    let mut rb: LocalRb<u32> = LocalRb::new(4);
    for v in [1u32, 2, 3, 4] {
        assert!(rb.try_push(v).is_ok());
    }
    assert_eq!(rb.try_push(5), Err(5));
    assert_eq!(rb.len(), 4);
    assert_eq!(rb.try_pop(), Some(1));
    assert_eq!(rb.len(), 3);
    assert!(rb.try_push(5).is_ok());
    assert_eq!(rb.try_pop(), Some(2));
    assert_eq!(rb.try_pop(), Some(3));
    assert_eq!(rb.try_pop(), Some(4));
    assert_eq!(rb.try_pop(), Some(5));
    assert!(rb.is_empty());
}

#[test]
fn push_slice_reports_backpressure() {
    let mut rb: LocalRb<u8> = LocalRb::new(3);
    assert_eq!(rb.push_slice(&[1, 2, 3, 4, 5]), 3);
    assert!(rb.is_full());
    assert_eq!(rb.try_pop(), Some(1));
    assert_eq!(rb.push_slice(&[9]), 1);
    assert_eq!(rb.push_slice(&[10]), 0);
    assert_eq!(rb.try_pop(), Some(2));
    assert_eq!(rb.try_pop(), Some(3));
    assert_eq!(rb.try_pop(), Some(9));
    assert_eq!(rb.try_pop(), None);
}

#[test]
fn push_iter_leaves_the_remainder() {
    let mut rb: LocalRb<u32> = LocalRb::new(2);
    let mut items = vec![7u32, 8, 9];
    assert_eq!(rb.push_iter(&mut items), 2);
    assert_eq!(items, vec![9]);
    assert_eq!(rb.try_pop(), Some(7));
    assert_eq!(rb.try_pop(), Some(8));
    let mut rest = vec![11u32];
    assert_eq!(rb.push_iter(&mut rest), 1);
    assert!(rest.is_empty());
    assert_eq!(rb.try_pop(), Some(11));
}

#[test]
fn pop_slice_returns_the_oldest_prefix() {
    let mut rb: LocalRb<u8> = LocalRb::new(4);
    assert_eq!(rb.push_slice(&[1, 2, 3]), 3);
    let taken = rb.pop_slice(2);
    assert_eq!(taken, vec![1, 2]);
    assert_eq!(rb.len(), 1);
    let rest = rb.pop_slice(5);
    assert_eq!(rest, vec![3]);
    assert!(rb.is_empty());
    assert!(rb.pop_slice(1).is_empty());
}

#[test]
fn raw_parts_round_trip() {
    // capacity 3, extended domain of size 6: read at 2, write at 4,
    // so slots 2 and 0 are occupied and slot 1 is vacant
    let slots: Vec<Option<u32>> = vec![Some(10), None, Some(9)];
    let storage = ContainerStorage::new(slots);
    let mut rb = LocalRb::from_raw_parts(storage, 2, 4);
    assert_eq!(rb.capacity(), 3);
    assert_eq!(rb.len(), 2);
    assert_eq!(rb.read_index(), 2);
    assert_eq!(rb.write_index(), 4);
    assert_eq!(rb.try_pop(), Some(9));
    assert!(rb.try_push(11).is_ok());
    let (storage, read, write) = rb.into_raw_parts();
    assert_eq!(read, 3);
    assert_eq!(write, 5);
    let slots = storage.into_inner();
    assert_eq!(slots, vec![Some(10), Some(11), None]);
}

#[test]
fn container_storage_keeps_its_contents() {
    let slots: Vec<Option<i64>> = vec![None, Some(5), None];
    let storage = ContainerStorage::new(slots.clone());
    assert_eq!(storage.len(), 3);
    assert_eq!(storage.into_inner(), slots);
}

#[test]
fn a_vec_of_slots_is_a_container() {
    let slots: Vec<Option<u8>> = vec![Some(1), Some(2), None];
    let storage = slots.into_storage();
    assert_eq!(storage.len(), 3);
    // read at 0, write at 2: the two occupied slots come out in order
    let mut rb = LocalRb::from_raw_parts(storage, 0, 2);
    assert_eq!(rb.try_pop(), Some(1));
    assert_eq!(rb.try_pop(), Some(2));
    assert_eq!(rb.try_pop(), None);
}

#[test]
fn end_starts_unheld() {
    let end = End::new(7);
    assert_eq!(end.index, 7);
    assert!(!end.held);
}

#[test]
fn producer_trait_pushes_and_closes() {
    let mut rb: LocalRb<u32> = LocalRb::new(1);
    rb.hold_write(true);
    assert!(Producer::try_push(&mut rb, 42).is_ok());
    assert_eq!(Producer::try_push(&mut rb, 43), Err(43));
    assert_eq!(Consumer::try_pop(&mut rb), Some(42));
    assert_eq!(Consumer::try_pop(&mut rb), None);
    assert!(rb.write_is_held());
    Producer::close(&mut rb);
    assert!(!rb.write_is_held());
}
