use lib::bytecode::{
    instructions_to_string, instructions_to_string_debug, BinCompcode, BinOpcode, InstructionError,
    Instructions, Opcode,
};
use lib::compiler::Compiler;
use lib::obj::UpvalueSpec;
use lib::value::TypeSpec;
use lib::value::Type;

#[test]
fn opcode_bytes_round_trip() {
    assert_eq!(Opcode::Constant.to_byte(), 2);
    assert_eq!(Opcode::ForNext.to_byte(), 33);
    assert!(matches!(Opcode::try_from_byte(16), Ok(Opcode::Jump)));
    assert!(matches!(Opcode::try_from_byte(34), Err(InstructionError::InvalidOpcode(34))));
    assert_eq!(Opcode::JumpIfFalse.name(), "JUMP_IF_FALSE");
    assert_eq!(Opcode::JumpTest.nargs(), 2);
    assert_eq!(Opcode::Return.nargs(), 0);
}

#[test]
fn binop_codes() {
    assert!(matches!(BinOpcode::try_from_byte(3), Some(BinOpcode::Add)));
    assert!(BinOpcode::try_from_byte(13).is_none());
    assert_eq!(BinOpcode::Add.debug_name(), "Add");
    assert!(matches!(BinCompcode::try_from_byte(2), Some(BinCompcode::Lth)));
    assert!(BinCompcode::try_from_byte(8).is_none());
}

#[test]
fn emit_and_pop() {
    let mut code = Instructions::new();
    code.emit_const(4);
    code.emit_pop();
    assert_eq!(code.inner(), &vec![2u16, 4, 1]);
    assert!(code.last_op_is(Opcode::Pop));
    code.pop();
    assert_eq!(code.inner(), &vec![2u16, 4]);
    assert!(code.last_op_is(Opcode::Constant));
    code.pop_if_op_is(Opcode::Pop);
    assert_eq!(code.len_inner(), 2);
    code.pop_if_op_is(Opcode::Constant);
    assert_eq!(code.len_inner(), 0);
}

#[test]
fn emit_at_cursor() {
    let mut code = Instructions::new();
    code.emit_return();
    code.set_cursor(0);
    code.emit_dup();
    code.remove_cursor();
    assert_eq!(code.inner(), &vec![0u16, 19]);
}

#[test]
fn jumps_are_offset() {
    let mut code = Instructions::new();
    code.emit_jump(-3);
    code.emit_jump_test(2, true);
    assert_eq!(code.inner(), &vec![16u16, 252, 18, 257, 1]);
    code.raw_patch(1, 260);
    assert_eq!(code.inner()[1], 260);
}

#[test]
fn listing_of_instructions() {
    let mut code = Instructions::new();
    code.emit_const(0);
    code.emit_jump_if_false(2);
    code.emit_binop(BinOpcode::Add);
    code.emit_return();
    let lines = instructions_to_string(code.inner());
    assert_eq!(
        lines,
        vec![
            "1. CONST         0".to_string(),
            "2. JUMP_IF_FALSE 257 2".to_string(),
            "3. BINOP         3   (Add)".to_string(),
            "4. RETURN".to_string(),
        ]
    );
}

#[test]
fn detailed_listing_of_instructions() {
    let mut c = Compiler::new("", "test.as".to_string());
    c.declare_local("x", TypeSpec::from_type(Type::Entier), false);
    c.add_upvalue(true, 3);
    let mut code = Instructions::new();
    code.emit_const(0);
    code.emit_get_local(0);
    code.emit_get_upvalue(0);
    code.emit_jump(1);
    code.emit_bincomp(BinCompcode::Eq);
    let texts = vec!["42".to_string()];
    let lines = instructions_to_string_debug(code.inner(), &c, &texts);
    assert_eq!(
        lines,
        vec![
            "1. CONST     0 42".to_string(),
            "2. GET_LOCAL 0 \"x\"".to_string(),
            "3. GET_UPVAL 0 Local(3)".to_string(),
            "4. JUMP      1".to_string(),
            "5. BINCOMP   0 Eq".to_string(),
        ]
    );
    assert!(matches!(c.upvalues[0], UpvalueSpec::Local(3)));
}

#[test]
fn try_call_arguments_follow_the_documented_order() {
    let mut i = Instructions::new();
    i.emit_try_call(5, 2);
    assert_eq!(i.inner(), &vec![Opcode::TryCall.to_byte(), 5, 2]);
    assert!(i.last_op_is(Opcode::TryCall));
}

#[test]
fn pop_undoes_a_single_emit() {
    let mut i = Instructions::new();
    i.emit_const(3);
    let before = i.inner().clone();
    i.emit_try_call(7, 1);
    i.pop();
    assert_eq!(i.inner(), &before);
    assert!(i.last_op_is(Opcode::Constant));
    i.emit_jump_test(4, true);
    i.pop();
    assert_eq!(i.inner(), &before);
    let mut empty = Instructions::new();
    empty.pop();
    assert!(empty.inner().is_empty());
}
