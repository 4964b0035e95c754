use linked_stack::stack::List;

#[test]
fn push_and_pop() {
    let mut l: List<i32> = List::new();
    assert_eq!(None, l.pop());

    l.push(1);
    l.push(2);
    l.push(3);
    assert_eq!(Some(3), l.pop());
    assert_eq!(Some(2), l.pop());

    l.push(4);
    l.push(5);
    assert_eq!(Some(5), l.pop());
    assert_eq!(Some(4), l.pop());
    assert_eq!(Some(1), l.pop());
    assert_eq!(None, l.pop());
}

#[test]
fn peek() {
    let mut l: List<i32> = List::new();

    l.push(1);
    assert_eq!(Some(&1), l.peek());
    l.peek_mut().map(|p| {
        *p = 42;
    });
    assert_eq!(Some(&42), l.peek());
    assert_eq!(Some(42), l.pop());
}

#[test]
fn into_iter() {
    let mut l: List<i32> = List::new();
    l.push(1);
    l.push(2);
    l.push(3);
    let mut i: i32 = 3;
    let mut it = l.into_iter();
    while let Some(e) = it.next() {
        assert_eq!(i, e);
        i -= 1;
    }
}

#[test]
fn into_iter_ref() {
    let mut l: List<i32> = List::new();
    l.push(1);
    l.push(2);
    l.push(3);
    let mut i: i32 = 3;
    let mut it = l.iter();
    while let Some(e) = it.next() {
        assert_eq!(&i, e);
        i -= 1;
    }
    // l was only borrowed by the traversal, so it is intact.
    assert_eq!(Some(3), l.pop());
    assert_eq!(Some(2), l.pop());
    assert_eq!(Some(1), l.pop());
    assert_eq!(None, l.pop());
}

#[test]
fn into_iter_mut() {
    let mut l: List<i32> = List::new();
    l.push(1);
    l.push(2);
    l.push(3);
    let mut i: i32 = 3;
    let mut it = l.iter_mut();
    while let Some(e) = it.next() {
        assert_eq!(&i, e);
        *e = i * 10;
        i -= 1;
    }
    assert_eq!(Some(30), l.pop());
    assert_eq!(Some(20), l.pop());
    assert_eq!(Some(10), l.pop());
    assert_eq!(None, l.pop());
}

#[test]
fn empty_stack_has_no_value() {
    let mut l: List<u64> = List::new();
    assert_eq!(None, l.pop());
    assert!(l.peek().is_none());
    assert!(l.peek_mut().is_none());
    assert_eq!(None, l.pop());
}

#[test]
fn pop_order_is_reverse_push_order() {
    let mut l: List<u64> = List::new();
    l.push(10);
    l.push(20);
    l.push(30);
    assert_eq!(Some(30), l.pop());
    assert_eq!(Some(20), l.pop());
    assert_eq!(Some(10), l.pop());
    assert_eq!(None, l.pop());
}

#[test]
fn peek_leaves_stack_unchanged() {
    let mut l: List<i32> = List::new();
    l.push(7);
    l.push(8);
    assert_eq!(Some(&8), l.peek());
    assert_eq!(Some(&8), l.peek());
    assert_eq!(Some(8), l.pop());
    assert_eq!(Some(7), l.pop());
    assert_eq!(None, l.pop());
}

#[test]
fn consuming_iteration_exhausts() {
    let mut l: List<i32> = List::new();
    l.push(1);
    l.push(2);
    let mut it = l.into_iter();
    assert_eq!(Some(2), it.next());
    assert_eq!(Some(1), it.next());
    assert_eq!(None, it.next());
    assert_eq!(None, it.next());
}

#[test]
fn mutable_iteration_partial_write() {
    let mut l: List<i32> = List::new();
    l.push(1);
    l.push(2);
    l.push(3);
    {
        let mut it = l.iter_mut();
        if let Some(e) = it.next() {
            *e = 99;
        }
    }
    assert_eq!(Some(99), l.pop());
    assert_eq!(Some(2), l.pop());
    assert_eq!(Some(1), l.pop());
    assert_eq!(None, l.pop());
}

#[test]
fn drop_long_chain_is_iterative() {
    let mut l: List<u32> = List::new();
    let mut i: u32 = 0;
    while i < 1_000_000 {
        l.push(i);
        i += 1;
    }
    // The iterative destructor must free a million-node chain without
    // overflowing the call stack.
    drop(l);
}
