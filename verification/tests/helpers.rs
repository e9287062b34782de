use shared_state::arith;
use shared_state::list::List;
use shared_state::xorshift::{randomized_vec, XOR64};

#[test]
fn arithmetic_helpers() {
    assert_eq!(arith::mul(5, 20), 100);
    assert_eq!(arith::add(10, 20), 30);
    assert_eq!(arith::mul(10, 20), 200);
    assert_eq!(arith::square(2), 4);
    assert_eq!(arith::square(0), 0);
}

#[test]
fn xorshift_stream_is_deterministic() {
    let mut g = XOR64::new(1234);
    assert_eq!(g.next(), 8748532835468666347);
    assert_eq!(g.next(), 794800303514884576);
    assert_eq!(g.next(), 6751338397553402067);
    let mut h = XOR64::new(1234);
    assert_eq!(h.next(), 8748532835468666347);
}

#[test]
fn different_seeds_give_different_streams() {
    let mut g = XOR64::new(1);
    let mut h = XOR64::new(2);
    assert_ne!(g.next(), h.next());
}

#[test]
fn randomized_vec_interleaves_one_stream() {
    let (v1, v2) = randomized_vec(3);
    assert_eq!(v1.len(), 3);
    assert_eq!(v2.len(), 3);
    let mut g = XOR64::new(1234);
    for i in 0..3 {
        assert_eq!(v1[i], g.next());
        assert_eq!(v2[i], g.next());
    }
}

#[test]
fn randomized_vec_empty() {
    let (v1, v2) = randomized_vec(0);
    assert!(v1.is_empty());
    assert!(v2.is_empty());
}

#[test]
fn list_cons_and_iter_front_to_back() {
    let list: List<u32> = List::new().cons(1).cons(2).cons(3);
    let mut it = list.iter();
    assert_eq!(it.next(), Some(&3));
    assert_eq!(it.next(), Some(&2));
    assert_eq!(it.next(), Some(&1));
    assert_eq!(it.next(), None);
    // The list is borrowed, not consumed: a second walk sees the same.
    let mut it2 = list.iter();
    assert_eq!(it2.next(), Some(&3));
}

#[test]
fn empty_list_iter_is_done() {
    let list: List<u8> = List::new();
    let mut it = list.iter();
    assert_eq!(it.next(), None);
    assert_eq!(it.next(), None);
}
