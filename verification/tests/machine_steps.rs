use std::sync::Arc;

use lib::builtins::{abs_of, run_builtin};
use lib::bytecode::{instructions_to_string_debug, BinCompcode, BinOpcode, Instructions, Opcode};
use lib::compiler::Compiler;
use lib::err::RuntimeError;
use lib::obj::{Builtin, Function, NativeFunction, UpvalueLocation, UpvalueSpec, Value};
use lib::value::{ASField, ASFunction, ASModule, ClosureInst, ClosureProto, Type};
use lib::vm::{Action, ModuleLookup, NativeCall, VM};

fn closure(code: &Instructions, constants: Vec<Value>) -> Arc<ClosureInst> {
    let mut f = ASFunction::new_anonymous(0);
    f.code = code.inner().clone();
    f.constants = constants;
    Arc::new(ClosureInst::new(Arc::new(f), vec![]))
}

fn machine(code: &Instructions, constants: Vec<Value>, stack: Vec<Value>) -> VM {
    let mut vm = VM::new("main.as".to_string());
    vm.call_fn(0, Value::Function(Function::ClosureInst(closure(code, constants)))).unwrap();
    for v in stack {
        vm.stack.push(v);
    }
    vm
}

#[test]
fn truth_and_negation() {
    let mut code = Instructions::new();
    code.emit_not();
    let mut vm = machine(&code, vec![], vec![Value::Texte(String::new())]);
    vm.execute_instruction().unwrap();
    assert!(matches!(vm.stack[0], Value::Booleen(true)));
    let mut vm = machine(&code, vec![], vec![Value::Decimal("0.0".to_string())]);
    vm.execute_instruction().unwrap();
    assert!(matches!(vm.stack[0], Value::Booleen(true)));
    let mut vm = machine(&code, vec![], vec![Value::Entier(3)]);
    vm.execute_instruction().unwrap();
    assert!(matches!(vm.stack[0], Value::Booleen(false)));

    let mut neg = Instructions::new();
    neg.emit_neg();
    let mut vm = machine(&neg, vec![], vec![Value::Entier(7)]);
    vm.execute_instruction().unwrap();
    assert!(matches!(vm.stack[0], Value::Entier(-7)));
    let mut vm = machine(&neg, vec![], vec![Value::Decimal("1.5".to_string())]);
    match vm.execute_instruction() {
        Ok(Some(Action::Operate { op: Opcode::Neg, operands, .. })) => assert_eq!(operands.len(), 1),
        _ => panic!("a handed-over negation was expected"),
    }
}

#[test]
fn binary_operations() {
    let mut add = Instructions::new();
    add.emit_binop(BinOpcode::Add);
    let mut vm = machine(&add, vec![], vec![Value::Entier(2), Value::Entier(40)]);
    vm.execute_instruction().unwrap();
    assert_eq!(vm.stack.len(), 1);
    assert!(matches!(vm.stack[0], Value::Entier(42)));
    let mut vm = machine(&add, vec![], vec![Value::Texte("ab".to_string()), Value::Texte("cd".to_string())]);
    vm.execute_instruction().unwrap();
    assert!(matches!(&vm.stack[0], Value::Texte(t) if t == "abcd"));
    let mut vm = machine(&add, vec![], vec![Value::Entier(2), Value::Decimal("1.5".to_string())]);
    match vm.execute_instruction() {
        Ok(Some(Action::Operate { op: Opcode::BinOp, arg: 3, operands })) => assert_eq!(operands.len(), 2),
        _ => panic!("a handed-over operation was expected"),
    }
    assert!(vm.stack.is_empty());
    let mut vm = machine(&add, vec![], vec![Value::Entier(2)]);
    assert!(matches!(vm.execute_instruction(), Err(RuntimeError::RuntimeError(m)) if m == "Missing rhs in 3"));

    let mut xor = Instructions::new();
    xor.emit_binop(BinOpcode::BitwiseXor);
    let mut vm = machine(&xor, vec![], vec![Value::Entier(6), Value::Entier(3)]);
    vm.execute_instruction().unwrap();
    assert!(matches!(vm.stack[0], Value::Entier(5)));

    let mut lt = Instructions::new();
    lt.emit_bincomp(BinCompcode::Lth);
    let mut vm = machine(&lt, vec![], vec![Value::Entier(1), Value::Entier(2)]);
    vm.execute_instruction().unwrap();
    assert!(matches!(vm.stack[0], Value::Booleen(true)));
    let mut eq = Instructions::new();
    eq.emit_bincomp(BinCompcode::Eq);
    let mut vm = machine(&eq, vec![], vec![Value::Texte("a".to_string()), Value::Texte("a".to_string())]);
    vm.execute_instruction().unwrap();
    assert!(matches!(vm.stack[0], Value::Booleen(true)));
}

#[test]
fn conditional_jumps() {
    let mut code = Instructions::new();
    code.emit_jump_if_false(3);
    let mut vm = machine(&code, vec![], vec![Value::Booleen(false)]);
    vm.execute_instruction().unwrap();
    assert!(vm.stack.is_empty());
    // the jump lands past the end of the code
    assert!(matches!(vm.execute_instruction(), Err(RuntimeError::RuntimeError(m)) if m == "IP out of range"));

    let mut test = Instructions::new();
    test.emit_jump_test(0, true);
    test.emit_pop();
    let mut vm = machine(&test, vec![], vec![Value::Entier(1)]);
    vm.execute_instruction().unwrap();
    assert_eq!(vm.stack.len(), 1);
    let mut vm = machine(&test, vec![], vec![Value::Nul]);
    vm.execute_instruction().unwrap();
    assert!(vm.stack.is_empty());
}

#[test]
fn returning_closes_captured_variables_and_gives_the_result() {
    let mut ret = Instructions::new();
    ret.emit_return();
    let mut vm = machine(&ret, vec![], vec![Value::Entier(5)]);
    let mut inner = ASFunction::new(Some("g".to_string()), 0);
    inner.upvalue_specs.push(UpvalueSpec::Local(0));
    let inst = vm.resolve_proto_closure_upvalues(Arc::new(ClosureProto::new(Arc::new(inner)))).unwrap();
    let id = inst.upvalues[0];
    assert!(matches!(vm.upvalue(id).unwrap().location, UpvalueLocation::Open(0)));
    assert!(matches!(vm.execute_instruction(), Ok(Some(Action::Finished))));
    assert!(matches!(&vm.upvalue(id).unwrap().location, UpvalueLocation::Closed(Value::Entier(5))));

    let mut callee = Instructions::new();
    callee.emit_const(0);
    callee.emit_return();
    let mut vm = machine(&ret, vec![], vec![Value::Nul]);
    vm.call_fn(0, Value::Function(Function::ClosureInst(closure(&callee, vec![Value::Entier(42)])))).unwrap();
    vm.execute_instruction().unwrap();
    assert!(vm.execute_instruction().unwrap().is_none());
    assert_eq!(vm.depth(), 1);
    assert_eq!(vm.stack.len(), 1);
    assert!(matches!(vm.stack[0], Value::Entier(42)));
}

#[test]
fn setting_a_captured_variable() {
    let mut code = Instructions::new();
    code.emit_set_upvalue(0);
    let mut vm = machine(&Instructions::new(), vec![], vec![Value::Entier(1)]);
    let mut inner = ASFunction::new(Some("g".to_string()), 0);
    inner.upvalue_specs.push(UpvalueSpec::Local(0));
    inner.code = code.inner().clone();
    let inst = vm.resolve_proto_closure_upvalues(Arc::new(ClosureProto::new(Arc::new(inner)))).unwrap();
    vm.call_fn(0, Value::Function(Function::ClosureInst(inst))).unwrap();
    vm.stack.push(Value::Entier(9));
    vm.execute_instruction().unwrap();
    assert_eq!(vm.stack.len(), 1);
    assert!(matches!(vm.stack[0], Value::Entier(9)));
}

#[test]
fn modules_are_looked_up_and_kept() {
    let vm = VM::new("main.as".to_string());
    assert!(matches!(vm.lookup_module("Math.as"), ModuleLookup::Standard(n) if n == "Math"));
    assert!(matches!(vm.lookup_module("outils"), ModuleLookup::File(n) if n == "outils"));
    let mut code = Instructions::new();
    code.emit_load_module(0);
    let mut vm = machine(&code, vec![Value::Texte("Math".to_string())], vec![]);
    match vm.execute_instruction() {
        Ok(Some(Action::LoadModule { name, standard: true })) => assert_eq!(name, "Math"),
        _ => panic!("a module load was expected"),
    }
    vm.finish_load_module("Math.as", Arc::new(ASModule::new("Math", vec![])));
    assert!(matches!(vm.lookup_module("Math"), ModuleLookup::Loaded(_)));
    let mut bad = machine(&code, vec![Value::Entier(1)], vec![]);
    assert!(matches!(bad.execute_instruction(), Err(RuntimeError::ValueError(m)) if m == "le nom d'un module doit être un texte"));
}

#[test]
fn reading_fields() {
    let mut code = Instructions::new();
    code.emit_get_attr(0);
    let module = ASModule::new("M", vec![("pi".to_string(), ASField::new(true, Type::Entier, Value::Entier(3)))]);
    let mut vm = machine(&code, vec![Value::Texte("pi".to_string())], vec![Value::Module(Arc::new(module))]);
    vm.execute_instruction().unwrap();
    assert!(matches!(vm.stack[0], Value::Entier(3)));
    let mut vm = machine(&code, vec![Value::Texte("x".to_string())], vec![Value::Entier(1)]);
    assert!(matches!(vm.execute_instruction(), Err(RuntimeError::ValueError(m)) if m == "impossible d'accéder à un champs sur une valeur de type 'entier'"));
}

#[test]
fn try_call_hands_the_call_over_and_catches_failures() {
    let mut code = Instructions::new();
    code.emit_try_call(260, 1);
    let f = Value::Function(Function::ClosureInst(closure(&Instructions::new(), vec![])));
    let mut vm = machine(&code, vec![], vec![f, Value::Entier(8)]);
    let (stack_len, frames_len, catch_dist) = match vm.execute_instruction() {
        Ok(Some(Action::TryCall { args, stack_len, frames_len, catch_dist, .. })) => {
            assert_eq!(args.len(), 1);
            assert!(matches!(args[0], Value::Entier(8)));
            (stack_len, frames_len, catch_dist)
        },
        _ => panic!("a try-call was expected"),
    };
    assert_eq!(stack_len, 0);
    assert_eq!(catch_dist, 5);
    vm.finish_try_call(Some(Value::Entier(1)), stack_len, frames_len, catch_dist);
    assert_eq!(vm.stack.len(), 1);
    assert!(matches!(vm.stack[0], Value::Entier(1)));
}

#[test]
fn the_builtin_abs() {
    assert!(matches!(abs_of(&Value::Entier(-4)), Some(Ok(Value::Entier(4)))));
    assert!(abs_of(&Value::Decimal("-1.5".to_string())).is_none());
    assert!(matches!(abs_of(&Value::Texte("a".to_string())), Some(Err(RuntimeError::TypeError(m))) if m == "dans la fonction 'abs', le paramètre 'val' est de type 'entier | décimal', mais l'argument passé est de type 'texte'"));
    let call = NativeCall {
        function: Arc::new(NativeFunction { name: "abs".to_string(), builtin: Builtin::Abs }),
        args: vec![Value::Entier(-2)],
    };
    assert!(matches!(run_builtin(&call), Some(Ok(Value::Entier(2)))));
}

#[test]
fn try_call_listing_shows_count_then_distance() {
    let c = Compiler::new("", "test.as".to_string());
    let mut code = Instructions::new();
    code.emit_try_call(260, 2);
    let lines = instructions_to_string_debug(code.inner(), &c, &vec![]);
    assert_eq!(lines, vec!["1. TRY_CALL 2 5".to_string()]);
}

#[test]
fn the_builtin_type_de() {
    let call = NativeCall {
        function: Arc::new(NativeFunction { name: "typeDe".to_string(), builtin: Builtin::TypeDe }),
        args: vec![Value::Texte("a".to_string())],
    };
    match run_builtin(&call) {
        Some(Ok(Value::TypeObj(t))) => assert_eq!(t.to_string(), "texte"),
        _ => panic!("a type was expected"),
    }
}

fn point() -> Value {
    let field = |name: &str, value: Option<Value>| lib::value::ASFieldInfo {
        name: name.to_string(),
        field_type: lib::value::TypeSpec::from_type(Type::Entier),
        is_const: false,
        is_private: false,
        value,
    };
    Value::Structure(Arc::new(lib::value::ASStructure::new("P".to_string(), vec![field("x", None), field("y", None)])))
}

#[test]
fn building_objects() {
    let mut code = Instructions::new();
    code.emit_new_struct(2);
    let mut vm = machine(&code, vec![], vec![
        point(),
        Value::Entier(2),
        Value::Texte("y".to_string()),
        Value::Entier(1),
        Value::Texte("x".to_string()),
    ]);
    vm.execute_instruction().unwrap();
    assert_eq!(vm.stack.len(), 1);
    match &vm.stack[0] {
        Value::Objet(o) => {
            assert_eq!(o.fields.len(), 2);
            assert_eq!(o.fields[0].0, "x");
            assert!(matches!(o.fields[0].1.value, Value::Entier(1)));
            assert!(matches!(o.fields[1].1.value, Value::Entier(2)));
        },
        _ => panic!("an object was expected"),
    }
    let mut one = Instructions::new();
    one.emit_new_struct(1);
    let mut vm = machine(&one, vec![], vec![point(), Value::Entier(1), Value::Texte("x".to_string())]);
    assert!(matches!(vm.execute_instruction(), Err(RuntimeError::ValueError(m)) if m.contains("certains champs n'ont pas reçu de valeurs: [\"y\"]")));
    let mut vm = machine(&one, vec![], vec![Value::Entier(3), Value::Entier(1), Value::Texte("x".to_string())]);
    assert!(matches!(vm.execute_instruction(), Err(RuntimeError::ValueError(m)) if m.starts_with("impossible de construire une valeur de type 'entier'")));
}
