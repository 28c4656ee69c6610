use std::cell::Cell;
use std::rc::Rc;

use nyarray::array::Array;
use nyarray::array::InsertError;
use nyarray::array::from_elem;

/// A heap-owning value whose drop bumps a shared counter.
struct CountedBox<T> {
    _inner: Box<T>,
    counter: Rc<Cell<u32>>,
}

impl<T> CountedBox<T> {
    fn new(inner: T, counter: &Rc<Cell<u32>>) -> Self {
        Self { _inner: Box::new(inner), counter: Rc::clone(counter) }
    }
}

impl<T> Drop for CountedBox<T> {
    fn drop(&mut self) {
        self.counter.set(self.counter.get() + 1);
    }
}

fn contents<const N: usize, T: Clone>(a: &Array<N, T>) -> Vec<T> {
    let mut out = Vec::new();
    let mut i = 0;
    while i < a.len() {
        out.push(a.get(i).clone());
        i += 1;
    }
    out
}

#[test]
fn test_drop() {
    let num = Rc::new(Cell::new(0u32));

    let array = Array::<4, _>::from_parts(vec![
        CountedBox::new(1, &num),
        CountedBox::new(2, &num),
        CountedBox::new(3, &num),
    ]);

    drop(array);

    assert_eq!(num.get(), 3);

    let array = Array::<4, _>::from_parts(vec![
        CountedBox::new(1, &num),
        CountedBox::new(2, &num),
        CountedBox::new(3, &num),
    ]);
    let mut iter = array.into_iter();
    iter.next();

    drop(iter);

    assert_eq!(num.get(), 6);
}

#[test]
fn test_iter() {
    let array = Array::<4, _>::from_parts(vec![Box::new(1)]);
    let mut collected: Array<4, Box<i32>> = Array::new();
    collected.push(array.get(0).clone());
    let _ = collected;
}

#[test]
fn test_push_pop_matches_vec_model() {
    let mut a = Array::<8, i32>::new();
    let mut model: Vec<i32> = Vec::new();
    let ops: [i32; 12] = [1, 2, -1, 3, 4, -1, -1, 5, 6, 7, -1, 8];
    for &op in ops.iter() {
        if op >= 0 {
            a.push(op);
            model.push(op);
        } else {
            assert_eq!(a.pop(), model.pop());
        }
        assert_eq!(contents(&a), model);
    }
}

#[test]
fn test_insert_remove_round_trip() {
    let mut a = Array::<6, i32>::from_parts(vec![1, 2, 3]);
    a.insert(1, 9);
    assert_eq!(contents(&a), vec![1, 9, 2, 3]);
    let v = a.remove(1);
    assert_eq!(v, 9);
    assert_eq!(contents(&a), vec![1, 2, 3]);
}

#[test]
fn test_insert_positions() {
    let mut a = Array::<6, i32>::from_parts(vec![1, 2, 3]);
    a.insert(2, 10);
    assert_eq!(contents(&a), vec![1, 2, 10, 3]);
    a.insert(0, 20);
    assert_eq!(contents(&a), vec![20, 1, 2, 10, 3]);
    a.insert(5, 30);
    assert_eq!(contents(&a), vec![20, 1, 2, 10, 3, 30]);
}

#[test]
fn test_swap_insert() {
    let mut a = Array::<6, i32>::from_parts(vec![1, 2, 3]);
    a.swap_insert(2, 10);
    assert_eq!(contents(&a), vec![1, 2, 10, 3]);
    a.swap_insert(0, 20);
    assert_eq!(contents(&a), vec![20, 2, 10, 3, 1]);
    a.swap_insert(5, 30);
    assert_eq!(contents(&a), vec![20, 2, 10, 3, 1, 30]);
}

#[test]
fn test_remove_positions() {
    let mut a = Array::<6, i32>::from_parts(vec![1, 2, 3, 4, 5, 6]);
    assert_eq!(a.remove(0), 1);
    assert_eq!(contents(&a), vec![2, 3, 4, 5, 6]);
    assert_eq!(a.remove(2), 4);
    assert_eq!(contents(&a), vec![2, 3, 5, 6]);
    assert_eq!(a.remove(3), 6);
    assert_eq!(contents(&a), vec![2, 3, 5]);
}

#[test]
fn test_swap_remove_moves_tail() {
    let mut a = Array::<6, i32>::from_parts(vec![1, 2, 3, 4, 5, 6]);
    assert_eq!(a.swap_remove(0), 1);
    assert_eq!(contents(&a), vec![6, 2, 3, 4, 5]);
    assert_eq!(a.swap_remove(2), 3);
    assert_eq!(contents(&a), vec![6, 2, 5, 4]);
    // removing the tail itself is a plain shortening
    assert_eq!(a.swap_remove(3), 4);
    assert_eq!(contents(&a), vec![6, 2, 5]);
}

#[test]
fn test_scenario_insert_then_swap_remove() {
    let mut a = Array::<4, i32>::new();
    a.push(1);
    a.push(2);
    a.push(3);
    a.insert(1, 9);
    assert_eq!(contents(&a), vec![1, 9, 2, 3]);
    assert_eq!(a.swap_remove(0), 1);
    assert_eq!(contents(&a), vec![3, 9, 2]);
}

#[test]
fn test_push_checked_reports_capacity() {
    let mut a = Array::<2, i32>::new();
    assert_eq!(a.push_checked(1), Ok(()));
    assert_eq!(a.push_checked(2), Ok(()));
    assert_eq!(a.push_checked(3), Err(3));
    assert_eq!(contents(&a), vec![1, 2]);
}

#[test]
fn test_insert_checked_reports_bounds_and_capacity() {
    let mut a = Array::<2, i32>::from_parts(vec![1]);
    assert_eq!(a.insert_checked(5, 9), Err(InsertError::OutOfBounds(9)));
    assert_eq!(a.insert_checked(0, 0), Ok(()));
    assert_eq!(a.insert_checked(1, 7), Err(InsertError::AtCapacity(7)));
    // when the index is out of bounds on a full buffer, the bounds report wins
    assert_eq!(a.insert_checked(3, 8), Err(InsertError::OutOfBounds(8)));
    assert_eq!(contents(&a), vec![0, 1]);
}

#[test]
fn test_swap_insert_checked_reports_bounds_and_capacity() {
    let mut a = Array::<2, i32>::from_parts(vec![1]);
    assert_eq!(a.swap_insert_checked(5, 9), Err(InsertError::OutOfBounds(9)));
    assert_eq!(a.swap_insert_checked(0, 0), Ok(()));
    assert_eq!(a.swap_insert_checked(0, 7), Err(InsertError::AtCapacity(7)));
    assert_eq!(a.swap_insert_checked(3, 8), Err(InsertError::OutOfBounds(8)));
    assert_eq!(contents(&a), vec![0, 1]);
}

#[test]
fn test_remove_checked_out_of_bounds() {
    let mut a = Array::<4, i32>::from_parts(vec![1, 2]);
    assert_eq!(a.remove_checked(2), None);
    assert_eq!(a.swap_remove_checked(2), None);
    assert_eq!(contents(&a), vec![1, 2]);
}

#[test]
fn test_pop_empty() {
    let mut a = Array::<4, i32>::new();
    assert_eq!(a.pop(), None);
    a.push(1);
    assert_eq!(a.pop(), Some(1));
    assert_eq!(a.pop(), None);
}

#[test]
fn test_len_capacity_is_empty() {
    let mut a = Array::<16, i32>::new();
    assert_eq!(a.capacity(), 16);
    assert!(a.is_empty());
    a.push(1);
    a.push(2);
    a.push(3);
    assert_eq!(a.len(), 3);
    assert_eq!(a.capacity(), 16);
    assert!(!a.is_empty());
}

#[test]
fn test_clear_drops_everything() {
    let num = Rc::new(Cell::new(0u32));
    let mut a = Array::<4, _>::from_parts(vec![
        CountedBox::new(1, &num),
        CountedBox::new(2, &num),
    ]);
    a.clear();
    assert_eq!(num.get(), 2);
    assert!(a.is_empty());
}

#[test]
fn test_get_and_set_at() {
    let mut a = Array::<4, i32>::from_parts(vec![5, 6, 7]);
    assert_eq!(*a.get(0), 5);
    assert_eq!(*a.get(2), 7);
    a.set_at(0, 9);
    assert_eq!(contents(&a), vec![9, 6, 7]);
}

#[test]
fn test_from_elem_clones() {
    let a: Array<8, i32> = from_elem(7, 5);
    assert_eq!(a.len(), 5);
    assert_eq!(contents(&a), vec![7, 7, 7, 7, 7]);
}

#[test]
fn test_into_iter_orders() {
    let a = Array::<4, i32>::from_parts(vec![1, 2, 3]);
    let mut it = a.into_iter();
    assert_eq!(it.next(), Some(1));
    assert_eq!(it.next_back(), Some(3));
    assert_eq!(it.next(), Some(2));
    assert_eq!(it.next(), None);
    assert_eq!(it.next_back(), None);
}

#[test]
fn test_parts_round_trip() {
    let a = Array::<4, i32>::from_parts(vec![1, 2, 3]);
    let (buf, len) = a.into_parts_len();
    assert_eq!(len, 3);
    let a = Array::<4, i32>::from_parts_len(buf, len);
    assert_eq!(contents(&a), vec![1, 2, 3]);
}

#[test]
fn test_default_is_empty() {
    let a: Array<4, i32> = Default::default();
    assert!(a.is_empty());
    assert_eq!(a.capacity(), 4);
}
