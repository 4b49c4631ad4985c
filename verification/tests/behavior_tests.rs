use tiny_vec::TinyVec;

#[test]
fn spill_happens_exactly_when_capacity_is_exceeded() {
    let mut tv = TinyVec::<i32, 4>::new();
    for i in 0..4 {
        tv.push(i);
        assert!(!tv.has_spilled());
    }
    tv.push(4);
    assert!(tv.has_spilled());
}

#[test]
fn spill_is_never_reverted_by_pops() {
    let mut tv = TinyVec::<i32, 2>::new();
    tv.push(1);
    tv.push(2);
    tv.push(3);
    assert!(tv.has_spilled());
    while tv.pop().is_some() {}
    assert!(tv.is_empty());
    assert!(tv.has_spilled());
    tv.push(7);
    assert!(tv.has_spilled());
    assert_eq!(tv.get(0), Some(&7));
}

#[test]
fn zero_capacity_spills_on_first_push() {
    let mut tv = TinyVec::<i32, 0>::new();
    assert!(!tv.has_spilled());
    tv.push(10);
    assert!(tv.has_spilled());
    assert_eq!(tv.len(), 1);
    assert_eq!(tv.pop(), Some(10));
    assert_eq!(tv.pop(), None);
}

#[test]
fn len_counts_pushes_minus_pops_floored_at_zero() {
    let mut tv = TinyVec::<i32, 3>::new();
    assert_eq!(tv.len(), 0);
    assert!(tv.is_empty());
    tv.pop();
    assert_eq!(tv.len(), 0);
    tv.push(1);
    tv.push(2);
    assert_eq!(tv.len(), 2);
    tv.pop();
    assert_eq!(tv.len(), 1);
    tv.pop();
    tv.pop();
    assert_eq!(tv.len(), 0);
    for i in 0..5 {
        tv.push(i);
    }
    assert_eq!(tv.len(), 5);
}

#[test]
fn get_returns_elements_in_push_order_and_none_past_the_end() {
    let mut tv = TinyVec::<i32, 4>::new();
    tv.push(10);
    tv.push(20);
    tv.push(30);
    assert_eq!(tv.get(0), Some(&10));
    assert_eq!(tv.get(1), Some(&20));
    assert_eq!(tv.get(2), Some(&30));
    assert_eq!(tv.get(3), None);
    assert_eq!(tv.get(100), None);
}

#[test]
fn get_mut_out_of_range_is_none() {
    let mut tv = TinyVec::<i32, 4>::new();
    tv.push(1);
    assert!(tv.get_mut(1).is_none());
    assert!(tv.get_mut(17).is_none());
}

#[test]
fn get_mut_writes_through_on_the_heap_too() {
    let mut tv = TinyVec::<i32, 2>::from((0..5).collect::<Vec<i32>>());
    assert!(tv.has_spilled());
    *(tv.get_mut(4).unwrap()) = -1;
    assert_eq!(tv.get(4), Some(&-1));
    assert_eq!(tv.get(3), Some(&3));
}

fn collect_both_ways<const N: usize>(tv: TinyVec<i32, N>) -> (usize, Vec<i32>, Vec<i32>) {
    let n = tv.len();

    let mut borrowed = Vec::new();
    let mut it = tv.iter();
    while let Some(e) = it.next() {
        borrowed.push(*e);
    }

    let mut owned = Vec::new();
    let mut ii = tv.into_iter();
    while let Some(e) = ii.next() {
        owned.push(e);
    }

    (n, borrowed, owned)
}

#[test]
fn iter_and_into_iter_collect_to_the_same_sequence() {
    let spilled = TinyVec::<i32, 3>::from((0..9).collect::<Vec<i32>>());
    let (n, borrowed, owned) = collect_both_ways(spilled);
    assert_eq!(borrowed.len(), n);
    assert_eq!(owned.len(), n);
    assert_eq!(borrowed, owned);

    let inline = TinyVec::<i32, 16>::from((0..9).collect::<Vec<i32>>());
    let (n, borrowed, owned) = collect_both_ways(inline);
    assert_eq!(borrowed.len(), n);
    assert_eq!(owned.len(), n);
    assert_eq!(borrowed, owned);
    assert_eq!(borrowed, (0..9).collect::<Vec<i32>>());
}

#[test]
fn iter_restarts_from_the_beginning() {
    let tv = TinyVec::<i32, 4>::from((5..8).collect::<Vec<i32>>());
    let mut first = tv.iter();
    assert_eq!(first.next(), Some(&5));
    assert_eq!(first.next(), Some(&6));
    let mut second = tv.iter();
    assert_eq!(second.next(), Some(&5));
}

#[test]
fn scenario_range_construction() {
    let tv = TinyVec::<i32, 4>::from((0..8).collect::<Vec<i32>>());
    assert_eq!(tv.len(), 8);
    assert!(tv.has_spilled());
    let mut it = tv.iter();
    let mut idx = 0;
    while let Some(elm) = it.next() {
        assert_eq!(idx, *elm);
        idx += 1;
    }
    assert_eq!(idx, 8);
}

#[test]
fn equality_ignores_capacity_and_storage_mode() {
    let a = TinyVec::<i32, 4>::from((0..8).collect::<Vec<i32>>());
    let b = TinyVec::<i32, 12>::from((0..8).collect::<Vec<i32>>());
    assert!(a.has_spilled());
    assert!(!b.has_spilled());
    assert!(a == b);
    assert!(b == a);
}

#[test]
fn unequal_lengths_and_unequal_elements_compare_unequal() {
    let a = TinyVec::<i32, 4>::from(vec![1, 2, 3]);
    let b = TinyVec::<i32, 4>::from(vec![1, 2]);
    let c = TinyVec::<i32, 8>::from(vec![1, 2, 4]);
    assert!(a != b);
    assert!(a != c);
    let empty_a = TinyVec::<i32, 2>::new();
    let empty_b = TinyVec::<i32, 6>::new();
    assert!(empty_a == empty_b);
}

#[test]
fn extend_is_repeated_push() {
    let mut by_extend = TinyVec::<i32, 4>::new();
    by_extend.push(-7);
    by_extend.extend(vec![8, 9, 10, 11]);

    let mut by_push = TinyVec::<i32, 4>::new();
    for x in [-7, 8, 9, 10, 11] {
        by_push.push(x);
    }

    assert!(by_extend.has_spilled());
    assert_eq!(by_extend.len(), 5);
    assert_eq!(by_extend, by_push);

    let mut untouched = TinyVec::<i32, 4>::from(vec![1]);
    untouched.extend(Vec::new());
    assert_eq!(untouched.len(), 1);
    assert!(!untouched.has_spilled());
}

#[test]
fn default_is_a_new_empty_instance() {
    let tv: TinyVec<i32, 4> = Default::default();
    assert!(tv.is_empty());
    assert_eq!(tv.len(), 0);
    assert!(!tv.has_spilled());
    assert_eq!(tv, TinyVec::<i32, 4>::new());
}

#[test]
fn clone_preserves_contents() {
    let tv = TinyVec::<i32, 4>::from(vec![3, 1, 4, 1, 5]);
    let copy = tv.clone();
    assert_eq!(copy.len(), 5);
    assert_eq!(tv, copy);
}

#[test]
fn into_iter_is_single_pass_and_exhausts() {
    let tv = TinyVec::<i32, 4>::from(vec![1, 2]);
    let mut it = tv.into_iter();
    assert_eq!(it.next(), Some(1));
    assert_eq!(it.next(), Some(2));
    assert_eq!(it.next(), None);
    assert_eq!(it.next(), None);
}

#[test]
fn works_with_non_copy_elements() {
    let mut tv = TinyVec::<String, 2>::new();
    tv.push(String::from("a"));
    tv.push(String::from("b"));
    tv.push(String::from("c"));
    assert!(tv.has_spilled());
    assert_eq!(tv.get(2).map(|s| s.as_str()), Some("c"));
    assert_eq!(tv.pop(), Some(String::from("c")));
    let other = TinyVec::<String, 8>::from(vec![String::from("a"), String::from("b")]);
    assert_eq!(tv, other);
}
