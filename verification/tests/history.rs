use gameoflife::cell::Cell;
use gameoflife::history::Stack;

#[test]
fn pop_on_empty_returns_nothing() {
    let mut s = Stack::new(3);
    assert_eq!(s.pop(), None);
}

#[test]
fn pop_returns_most_recent_first() {
    let mut s = Stack::new(3);
    s.push(vec![Cell::Alive]);
    s.push(vec![Cell::Dead, Cell::Dead]);
    assert_eq!(s.pop(), Some(vec![Cell::Dead, Cell::Dead]));
    assert_eq!(s.pop(), Some(vec![Cell::Alive]));
    assert_eq!(s.pop(), None);
}

#[test]
fn push_beyond_capacity_evicts_oldest() {
    let mut s = Stack::new(3);
    s.push(vec![Cell::Alive]);
    s.push(vec![Cell::Alive, Cell::Alive]);
    s.push(vec![Cell::Alive, Cell::Alive, Cell::Alive]);
    s.push(vec![Cell::Dead]);
    assert_eq!(s.pop(), Some(vec![Cell::Dead]));
    assert_eq!(s.pop(), Some(vec![Cell::Alive, Cell::Alive, Cell::Alive]));
    assert_eq!(s.pop(), Some(vec![Cell::Alive, Cell::Alive]));
    // The single-cell snapshot was the oldest of the four and is gone.
    assert_eq!(s.pop(), None);
}

#[test]
fn capacity_one_keeps_only_the_latest() {
    let mut s = Stack::new(1);
    s.push(vec![Cell::Alive]);
    s.push(vec![Cell::Dead]);
    assert_eq!(s.pop(), Some(vec![Cell::Dead]));
    assert_eq!(s.pop(), None);
}
