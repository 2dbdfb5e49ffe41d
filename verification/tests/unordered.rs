use circle_wrap::circle::{Tangent, TangentPoint};
use circle_wrap::unordered::UnorderedEq;

#[test]
fn ordered_eq() {
    assert!(vec![0, 1].unordered_eq(&vec![0, 1]));
}

#[test]
fn unordered_eq() {
    assert!(vec![2, 1, 0].unordered_eq(&vec![0, 1, 2]));
}

#[test]
fn not_eq() {
    assert!(!vec![0, 1, 2].unordered_eq(&vec![3, 4, 5]));
}

#[test]
fn wrong_len_not_eq() {
    assert!(!vec![0, 1].unordered_eq(&vec![0, 1, 2]));
    assert!(!vec![0, 1, 2].unordered_eq(&vec![0, 1]));
}

#[test]
fn empty_eq() {
    let vec_1: Vec<usize> = vec![];
    let vec_2: Vec<usize> = vec![];
    assert!(vec_1.unordered_eq(&vec_2));
}

#[test]
fn repeated_elements_respect_multiplicity() {
    assert!(vec![1, 1, 2].unordered_eq(&vec![2, 1, 1]));
    assert!(!vec![1, 1, 2].unordered_eq(&vec![1, 2, 2]));
}

#[test]
fn unordered_eq_on_tangent_slots() {
    let p = |id: i32, x: f32, y: f32| TangentPoint {
        circle_id: id,
        x: x.to_bits(),
        y: y.to_bits(),
    };
    let t1 = Tangent(p(0, 0.0, -1.0), p(1, 1.5, -1.0));
    let t2 = Tangent(p(0, 0.0, 1.0), p(1, 1.5, 1.0));
    let four: Vec<Option<Tangent>> = vec![Some(t1), Some(t2), None, None];
    let swapped: Vec<Option<Tangent>> = vec![None, Some(t2), None, Some(t1)];
    let other: Vec<Option<Tangent>> = vec![Some(t1), Some(t1), None, None];
    assert!(four.unordered_eq(&swapped));
    assert!(!four.unordered_eq(&other));
}
