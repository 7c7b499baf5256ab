use bvc_market::{Good, GoodError, GoodKind};

#[test]
fn split_takes_exactly_the_asked_amount() {
    let mut g = Good::new(GoodKind::Usd, 100);
    let part = g.split(30).unwrap();
    assert_eq!(part.get_kind(), GoodKind::Usd);
    assert_eq!(part.get_qty(), 30);
    assert_eq!(g.get_kind(), GoodKind::Usd);
    assert_eq!(g.get_qty(), 70);
}

#[test]
fn split_of_everything_leaves_zero() {
    let mut g = Good::new(GoodKind::Yen, 5);
    let part = g.split(5).unwrap();
    assert_eq!(part.get_qty(), 5);
    assert_eq!(g.get_qty(), 0);
}

#[test]
fn split_more_than_held_fails_and_changes_nothing() {
    let mut g = Good::new(GoodKind::Yuan, 10);
    let r = g.split(11);
    assert_eq!(r, Err(GoodError::InsufficientAmount));
    assert_eq!(g.get_qty(), 10);
}

#[test]
fn merge_adds_the_amount() {
    let mut g = Good::new(GoodKind::Eur, 40);
    let other = Good::new(GoodKind::Eur, 2);
    assert_eq!(g.merge(other), Ok(()));
    assert_eq!(g.get_qty(), 42);
}

#[test]
fn merge_of_another_kind_fails_and_changes_nothing() {
    let mut g = Good::new(GoodKind::Eur, 40);
    let other = Good::new(GoodKind::Usd, 2);
    assert_eq!(g.merge(other), Err(GoodError::KindMismatch));
    assert_eq!(g.get_qty(), 40);
}

#[test]
fn split_then_merge_restores_the_amount() {
    let mut g = Good::new(GoodKind::Usd, 100);
    let part = g.split(30).unwrap();
    assert_eq!(g.merge(part), Ok(()));
    assert_eq!(g.get_qty(), 100);
}
