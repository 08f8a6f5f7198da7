use wright::ir::{BinaryOp, ModifyOp, Position, UnaryOp};

#[test]
fn positions_are_one_based_and_validated() {
    assert!(Position::new(1, 1).is_valid());
    assert!(Position::new(10, 24).is_valid());
    assert!(!Position::new(0, 1).is_valid());
    assert!(!Position::new(1, 0).is_valid());
}

#[test]
fn binary_operators_round_trip_through_their_spelling() {
    for op in [BinaryOp::Add, BinaryOp::Subtract, BinaryOp::And, BinaryOp::NotEqual] {
        assert_eq!(BinaryOp::parse(op.as_str()), Some(op));
    }
    assert_eq!(BinaryOp::parse("+"), Some(BinaryOp::Add));
    assert_eq!(BinaryOp::parse("<=>"), None);
}

#[test]
fn unary_operators_round_trip_through_their_spelling() {
    for op in [UnaryOp::Not, UnaryOp::Negate] {
        assert_eq!(UnaryOp::parse(op.as_str()), Some(op));
    }
    assert_eq!(UnaryOp::parse("~"), None);
}

#[test]
fn modify_operators_have_canonical_spellings() {
    assert_eq!(ModifyOp::Add.as_str(), "Add");
    assert_eq!(ModifyOp::RemoveFromArray.as_str(), "RemoveFromArray");
}
