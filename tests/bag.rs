use tetris::{shuffled_batch, Bag, ShapeKind};

const KINDS: [ShapeKind; 7] = [
    ShapeKind::I,
    ShapeKind::O,
    ShapeKind::T,
    ShapeKind::S,
    ShapeKind::Z,
    ShapeKind::J,
    ShapeKind::L,
];

fn is_full_set(kinds: &[ShapeKind]) -> bool {
    kinds.len() == 7 && KINDS.iter().all(|k| kinds.iter().filter(|d| *d == k).count() == 1)
}

#[test]
fn shuffled_batch_holds_each_kind_once() {
    for _ in 0..20 {
        assert!(is_full_set(&shuffled_batch()));
    }
}

#[test]
fn draws_come_from_the_end_of_the_batch() {
    let batch = KINDS.to_vec();
    let mut bag = Bag::from_batch(batch);
    assert_eq!(bag.peek(), ShapeKind::L);
    let mut drawn = Vec::new();
    for _ in 0..7 {
        let next = bag.peek();
        let k = bag.draw();
        assert_eq!(k, next);
        drawn.push(k);
    }
    let mut expected = KINDS.to_vec();
    expected.reverse();
    assert_eq!(drawn, expected);
}

#[test]
fn every_batch_of_seven_draws_is_fair() {
    let mut bag = Bag::new();
    let mut drawn = Vec::new();
    for _ in 0..70 {
        drawn.push(bag.draw());
    }
    for chunk in drawn.chunks(7) {
        assert!(is_full_set(chunk));
    }
}

#[test]
fn refill_goes_under_the_last_kind() {
    let mut bag = Bag::from_batch(KINDS.to_vec());
    for _ in 0..6 {
        bag.draw();
    }
    assert_eq!(bag.peek(), ShapeKind::I);
    bag.refill(vec![
        ShapeKind::Z,
        ShapeKind::S,
        ShapeKind::O,
        ShapeKind::I,
        ShapeKind::T,
        ShapeKind::L,
        ShapeKind::J,
    ]);
    assert_eq!(bag.draw(), ShapeKind::I);
    assert_eq!(bag.draw(), ShapeKind::J);
    assert_eq!(bag.draw(), ShapeKind::L);
}
