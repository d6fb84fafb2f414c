use alarm_mux::fixed_size_queue::FixedSizeQueue;

#[test]
fn test1() {
    const N: usize = 3;
    let mut queue = FixedSizeQueue::<u32, N>::new();

    println!("{:?}", queue);

    assert_eq!(queue.pop(), None);
    assert_eq!(queue.pop(), None);

    queue.push(1);
    println!("{:?}", queue);

    assert_eq!(queue.pop(), Some(1));
    assert_eq!(queue.pop(), None);
    queue.push(1);
    println!("{:?}", queue);

    queue.push(3);
    println!("{:?}", queue);

    queue.push(2);

    println!("{:?}", queue);

    assert_eq!(queue.pop(), Some(3));
    assert_eq!(queue.pop(), Some(2));
    assert_eq!(queue.pop(), Some(1));
    assert_eq!(queue.pop(), None);

    for _ in 0..N {
        queue.push(1);
    }
    queue.push(1);
    for _ in 0..N {
        assert_eq!(queue.pop(), Some(1));
    }
    assert_eq!(queue.pop(), None);
}

#[test]
fn pops_come_in_falling_order() {
    let mut queue = FixedSizeQueue::<u32, 8>::new();
    for item in [3, 9, 1, 9, 4, 0] {
        queue.push(item);
    }
    assert_eq!(queue.peek(), Some(&9));
    for expected in [9, 9, 4, 3, 1, 0] {
        assert_eq!(queue.pop(), Some(expected));
    }
    assert_eq!(queue.pop(), None);
    assert_eq!(queue.peek(), None);
}

#[test]
fn in_a_full_queue_a_larger_item_takes_the_place_of_the_largest() {
    let mut queue = FixedSizeQueue::<u32, 3>::new();
    queue.push(1);
    queue.push(2);
    queue.push(3);
    queue.push(5);
    assert_eq!(queue.peek(), Some(&5));
    assert_eq!(queue.pop(), Some(5));
    assert_eq!(queue.pop(), Some(2));
    assert_eq!(queue.pop(), Some(1));
    assert_eq!(queue.pop(), None);
}

#[test]
fn in_a_full_queue_an_item_that_is_not_larger_is_dropped() {
    let mut queue = FixedSizeQueue::<u32, 3>::new();
    queue.push(1);
    queue.push(2);
    queue.push(3);
    queue.push(3);
    queue.push(0);
    assert_eq!(queue.pop(), Some(3));
    assert_eq!(queue.pop(), Some(2));
    assert_eq!(queue.pop(), Some(1));
    assert_eq!(queue.pop(), None);
}

#[test]
fn a_max_queue_without_slots_holds_nothing() {
    let mut queue = FixedSizeQueue::<u32, 0>::new();
    queue.push(1);
    assert_eq!(queue.peek(), None);
    assert_eq!(queue.pop(), None);
}
