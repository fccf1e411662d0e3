use sophon_wasm::common::stack::{Error, StackWithLimit};

#[test]
fn stack_limit_enforced() {
    let mut stack: StackWithLimit<u32> = StackWithLimit::with_limit(2);
    assert!(stack.is_empty());
    stack.push(1).unwrap();
    stack.push(2).unwrap();
    assert_eq!(stack.push(3), Err(Error::Overflow));
    assert_eq!(stack.len(), 2);
    assert_eq!(stack.limit(), 2);
}

#[test]
fn stack_order_and_get() {
    let mut stack: StackWithLimit<u32> = StackWithLimit::with_data(vec![1, 2, 3], 8);
    assert_eq!(*stack.top().unwrap(), 3);
    assert_eq!(*stack.get(0).unwrap(), 3);
    assert_eq!(*stack.get(2).unwrap(), 1);
    assert_eq!(stack.get(3).err(), Some(Error::Underflow));
    assert_eq!(stack.pop().unwrap(), 3);
    assert_eq!(stack.pop().unwrap(), 2);
    assert_eq!(stack.pop().unwrap(), 1);
    assert_eq!(stack.pop().err(), Some(Error::Underflow));
}

#[test]
fn stack_push_penultimate() {
    let mut stack: StackWithLimit<u32> = StackWithLimit::with_data(vec![1, 2], 8);
    stack.push_penultimate(9).unwrap();
    assert_eq!(stack.values(), &vec![1, 9, 2]);

    let mut empty: StackWithLimit<u32> = StackWithLimit::with_limit(8);
    assert_eq!(empty.push_penultimate(9), Err(Error::Underflow));
}

#[test]
fn stack_resize_shrinks() {
    let mut stack: StackWithLimit<u32> = StackWithLimit::with_data(vec![1, 2, 3, 4], 8);
    stack.resize(2);
    assert_eq!(stack.values(), &vec![1, 2]);
}
