use speakrs::compound::{ConsKey, HCons, HNil};
use speakrs::key::{Prefixed, UuidKey};

#[test]
fn test_display() {
    assert_eq!(ConsKey::new((0, 1, 2)).to_display_string(), "(0, 1, 2)");
    assert_eq!(ConsKey::new((2,)).to_display_string(), "(2)");
    assert_eq!(
        ConsKey::new((5, 4, 3, 4, 5)).to_display_string(),
        "(5, 4, 3, 4, 5)"
    );
}

type UnitKey = UuidKey<()>;

#[test]
fn test_prefix() {
    let head = UnitKey::new_now();
    let second = UnitKey::new_now();
    let key = ConsKey::new((head, second, UnitKey::new_now(), UnitKey::new_now()));

    let one: ConsKey<HCons<UnitKey, HNil>> = Prefixed::prefix(&key);
    assert_eq!(one, ConsKey::of(head));
    let two: ConsKey<HCons<UnitKey, HCons<UnitKey, HNil>>> = Prefixed::prefix(&key);
    assert_eq!(two, ConsKey::new((head, second)));
}

#[test]
fn display_of_negative_and_uuid_keys() {
    assert_eq!(ConsKey::new((-3i64, 7u64)).to_display_string(), "(-3, 7)");
    let k = UnitKey::new_now();
    let shown = ConsKey::new((k,)).to_display_string();
    assert_eq!(shown, format!("({})", k.to_display_string()));
    assert_eq!(k.to_display_string().len(), 36);
}
