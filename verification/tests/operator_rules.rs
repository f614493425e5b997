use lib::bytecode::{BinCompcode, BinLogiccode, BinOpcode, UnaryOpcode};
use lib::parser::OperatorRule;

#[test]
fn arithmetic_rules_map_to_binops() {
    assert_eq!(BinOpcode::try_from(&OperatorRule::Add), Ok(BinOpcode::Add));
    assert_eq!(BinOpcode::try_from(&OperatorRule::Pow), Ok(BinOpcode::Exp));
    assert_eq!(BinOpcode::try_from(&OperatorRule::Pipe), Ok(BinOpcode::BitwiseOr));
    assert_eq!(BinOpcode::try_from(&OperatorRule::Ampersant), Ok(BinOpcode::BitwiseAnd));
    assert_eq!(BinOpcode::try_from(&OperatorRule::Modulo), Ok(BinOpcode::Mod));
    assert_eq!(BinOpcode::try_from(&OperatorRule::Xor), Err(()));
    assert_eq!(BinOpcode::try_from(&OperatorRule::Eq), Err(()));
}

#[test]
fn comparison_rules_map_to_bincomps() {
    assert_eq!(BinCompcode::try_from(&OperatorRule::Lte), Ok(BinCompcode::Leq));
    assert_eq!(BinCompcode::try_from(&OperatorRule::NotIn), Ok(BinCompcode::PasDans));
    assert_eq!(BinCompcode::try_from(&OperatorRule::Neq), Ok(BinCompcode::NotEq));
    assert_eq!(BinCompcode::try_from(&OperatorRule::Add), Err(()));
}

#[test]
fn unary_and_logic_rules() {
    assert_eq!(UnaryOpcode::try_from(&OperatorRule::Not), Ok(UnaryOpcode::Pas));
    assert_eq!(UnaryOpcode::try_from(&OperatorRule::Neg), Ok(UnaryOpcode::Negate));
    assert_eq!(UnaryOpcode::try_from(&OperatorRule::Sub), Err(()));
    assert_eq!(BinLogiccode::try_from(&OperatorRule::NonNull), Ok(BinLogiccode::NonNul));
    assert_eq!(BinLogiccode::try_from(&OperatorRule::Or), Ok(BinLogiccode::Ou));
    assert_eq!(BinLogiccode::try_from(&OperatorRule::Ternary), Err(()));
}
