use bucket::Bucket;
use bucket::ValueIndex;

fn values(bucket: &Bucket<i32>) -> Vec<i32> {
    bucket.iter().into_iter().map(|record| **record).collect()
}

#[test]
fn get_returns_the_value_just_inserted() {
    let mut bucket = Bucket::new(4);
    for v in [7, 8, 9] {
        let handle = bucket.insert(v);
        assert_eq!(*bucket.get(&handle), v);
    }
}

#[test]
fn every_record_is_found_at_the_position_its_cell_holds() {
    let mut bucket = Bucket::new(3);
    let handles: Vec<ValueIndex> = (0..7).map(|v| bucket.insert(v)).collect();
    let mut handles = handles.into_iter();
    // Remove 0, 1 and 2: each removal moves the last record into the gap.
    for _ in 0..3 {
        assert!(bucket.remove(handles.next().unwrap()).is_some());
    }
    assert_eq!(values(&bucket), vec![6, 5, 4, 3]);
    for record in bucket.iter() {
        let handle = record.index();
        assert_eq!(bucket.get(&handle), *record);
    }
    // The handles issued at insertion still resolve to their own values.
    for (handle, v) in handles.zip(3..7) {
        assert_eq!(*bucket.get(&handle), v);
    }
}

#[test]
fn removal_repairs_the_handle_of_the_moved_value() {
    let mut bucket = Bucket::new(2);
    let one = bucket.insert(1);
    let two = bucket.insert(2);
    assert_eq!(bucket.remove(one), Some(1));
    assert_eq!(*bucket.get(&two), 2);
    assert_eq!(values(&bucket), vec![2]);
    assert_eq!(bucket.remove(two), Some(2));
    assert!(bucket.is_empty());
}

#[test]
fn removing_the_last_record_moves_nothing() {
    let mut bucket = Bucket::new(4);
    let a = bucket.insert(10);
    let b = bucket.insert(20);
    let c = bucket.insert(30);
    assert_eq!(bucket.remove(c), Some(30));
    assert_eq!(values(&bucket), vec![10, 20]);
    assert_eq!(*bucket.get(&a), 10);
    assert_eq!(*bucket.get(&b), 20);
}

#[test]
fn removing_from_the_middle_moves_the_last_record_there() {
    let mut bucket = Bucket::new(4);
    let a = bucket.insert(10);
    let b = bucket.insert(20);
    let c = bucket.insert(30);
    let d = bucket.insert(40);
    assert_eq!(bucket.remove(b), Some(20));
    assert_eq!(values(&bucket), vec![10, 40, 30]);
    assert_eq!(*bucket.get(&a), 10);
    assert_eq!(*bucket.get(&c), 30);
    assert_eq!(*bucket.get(&d), 40);
}

#[test]
fn a_cloned_handle_shares_the_cell() {
    let mut bucket = Bucket::new(4);
    let a = bucket.insert(1);
    let _b = bucket.insert(2);
    let c = bucket.insert(3);
    let copy = c.clone();
    // Moves 3 from position 2 to position 0, after the copy was made.
    assert_eq!(bucket.remove(a), Some(1));
    assert_eq!(*bucket.get(&copy), 3);
    assert_eq!(*bucket.get(&c), 3);
    assert_eq!(bucket.remove(copy), Some(3));
    assert_eq!(values(&bucket), vec![2]);
}

#[test]
fn removing_twice_gives_the_value_and_then_nothing() {
    let mut bucket = Bucket::new(4);
    let _a = bucket.insert(1);
    let _b = bucket.insert(2);
    let last = bucket.insert(3);
    let again = last.clone();
    assert_eq!(bucket.remove(last), Some(3));
    assert_eq!(bucket.remove(again), None);
    assert_eq!(bucket.len(), 2);
    assert_eq!(bucket.capacity(), 4);
    assert_eq!(values(&bucket), vec![1, 2]);
}

#[test]
fn a_stale_handle_whose_position_is_occupied_removes_the_value_there() {
    let mut bucket = Bucket::new(4);
    let first = bucket.insert(1);
    let second = bucket.insert(2);
    let again = first.clone();
    assert_eq!(bucket.remove(first), Some(1));
    // Position 0 now holds the value that was moved there.
    assert_eq!(bucket.remove(again), Some(2));
    assert!(bucket.is_empty());
    assert_eq!(bucket.remove(second), None);
}

#[test]
fn a_stale_handle_stays_stale_after_later_insertions() {
    let mut bucket = Bucket::new(2);
    let a = bucket.insert(1);
    let _b = bucket.insert(2);
    let c = bucket.insert(3);
    let stale = c.clone();
    assert_eq!(bucket.remove(c), Some(3));
    assert_eq!(bucket.remove(stale.clone()), None);
    let d = bucket.insert(4);
    // The stale handle still holds position 2, where 4 is stored now.
    assert_eq!(bucket.remove(stale), Some(4));
    assert_eq!(bucket.remove(d), None);
    assert_eq!(*bucket.get(&a), 1);
}

#[test]
fn remove_unchecked_returns_the_value_of_a_live_handle() {
    let mut bucket = Bucket::new(2);
    let a = bucket.insert(5);
    let b = bucket.insert(6);
    let c = bucket.insert(7);
    assert_eq!(bucket.remove_unchecked(a), 5);
    assert_eq!(values(&bucket), vec![7, 6]);
    assert_eq!(bucket.remove_unchecked(c), 7);
    assert_eq!(bucket.remove_unchecked(b), 6);
    assert!(bucket.is_empty());
    assert_eq!(bucket.capacity(), 2);
}

#[test]
fn iteration_yields_the_live_values_in_storage_order() {
    let mut bucket = Bucket::new(2);
    assert!(bucket.iter().is_empty());
    let handles: Vec<ValueIndex> = (1..=5).map(|v| bucket.insert(v)).collect();
    assert_eq!(values(&bucket), vec![1, 2, 3, 4, 5]);
    // A second call starts over.
    assert_eq!(values(&bucket), vec![1, 2, 3, 4, 5]);
    let mut handles = handles.into_iter();
    assert_eq!(bucket.remove(handles.next().unwrap()), Some(1));
    assert_eq!(values(&bucket), vec![5, 2, 3, 4]);
    assert_eq!(bucket.remove(handles.next().unwrap()), Some(2));
    assert_eq!(values(&bucket), vec![5, 4, 3]);
}

#[test]
fn a_handle_made_from_an_iterated_record_removes_that_record() {
    let mut bucket = Bucket::new(3);
    for v in [11, 22, 33] {
        bucket.insert(v);
    }
    let handle = bucket.iter()[1].index();
    assert_eq!(bucket.remove(handle), Some(22));
    assert_eq!(values(&bucket), vec![11, 33]);
}

#[test]
fn values_need_not_be_copyable() {
    let mut bucket = Bucket::new(1);
    let a = bucket.insert(String::from("a"));
    let b = bucket.insert(String::from("b"));
    assert_eq!(bucket.get(&b), "b");
    assert_eq!(bucket.remove(a), Some(String::from("a")));
    assert_eq!(bucket.get(&b), "b");
}

#[test]
fn remove_at_takes_the_value_at_an_occupied_position() {
    let mut bucket = Bucket::new(2);
    let a = bucket.insert(10);
    let b = bucket.insert(20);
    let c = bucket.insert(30);
    assert_eq!(bucket.remove_at(0), Some(10));
    assert_eq!(values(&bucket), vec![30, 20]);
    assert_eq!(*bucket.get(&c), 30);
    assert_eq!(*bucket.get(&b), 20);
    assert_eq!(bucket.remove_at(1), Some(20));
    assert_eq!(values(&bucket), vec![30]);
    assert_eq!(*bucket.get(&c), 30);
    // The handle of the value removed first still holds position 0.
    assert_eq!(bucket.remove(a), Some(30));
    assert!(bucket.is_empty());
}

#[test]
fn remove_at_leaves_the_bucket_alone_when_the_position_is_not_occupied() {
    let mut bucket = Bucket::new(2);
    assert_eq!(bucket.remove_at(0), None);
    bucket.insert(10);
    bucket.insert(20);
    bucket.insert(30);
    assert_eq!(bucket.remove_at(3), None);
    assert_eq!(bucket.remove_at(usize::MAX), None);
    assert_eq!(values(&bucket), vec![10, 20, 30]);
    assert_eq!(bucket.capacity(), 4);
}

#[test]
fn a_long_run_of_insertions_and_removals_keeps_every_handle_valid() {
    let mut bucket = Bucket::new(4);
    let mut live: Vec<(ValueIndex, i32)> = Vec::new();
    let mut state: u64 = 0x2545_F491_4F6C_DD1D;
    for step in 0..3000 {
        state ^= state << 13;
        state ^= state >> 7;
        state ^= state << 17;
        if live.is_empty() || state % 5 < 3 {
            live.push((bucket.insert(step), step));
        } else {
            let chosen = (state >> 16) as usize % live.len();
            let (handle, value) = live.swap_remove(chosen);
            assert_eq!(bucket.remove(handle), Some(value));
        }
        assert_eq!(bucket.len(), live.len());
        let blocks = std::cmp::max(1, (live.len() + 3) / 4);
        assert_eq!(bucket.capacity(), 4 * blocks);
        for (handle, value) in &live {
            assert_eq!(bucket.get(handle), value);
        }
        let mut stored = values(&bucket);
        let mut expected: Vec<i32> = live.iter().map(|(_, value)| *value).collect();
        stored.sort();
        expected.sort();
        assert_eq!(stored, expected);
    }
    for (handle, value) in live {
        assert_eq!(bucket.remove_unchecked(handle), value);
    }
    assert!(bucket.is_empty());
    assert_eq!(bucket.capacity(), 4);
}

#[test]
fn a_borrowed_record_dereferences_to_its_value() {
    let mut bucket = Bucket::new(2);
    bucket.insert(5);
    bucket.insert(6);
    let other = 9;
    let mut records = bucket.iter();
    assert_eq!(**records[0], 5);
    assert_eq!(**records[1], 6);
    // Pointing the borrowed view elsewhere does not touch the bucket.
    *records[0] = &other;
    assert_eq!(**records[0], 9);
    assert_eq!(values(&bucket), vec![5, 6]);
    assert_eq!(*bucket.get(&records[0].index()), 5);
}
