use std::sync::Arc;

use lib::builtins::{suite, taille_de};
use lib::bytecode::Instructions;
use lib::err::RuntimeError;
use lib::obj::{Builtin, Function, Value};
use lib::value::{ASFunction, ClosureInst};
use lib::vm::{Action, VM};

fn start(vm: &mut VM, code: &Instructions, constants: Vec<Value>) {
    let mut f = ASFunction::new_anonymous(0);
    f.code = code.inner().clone();
    f.constants = constants;
    let closure = Arc::new(ClosureInst::new(Arc::new(f), vec![]));
    vm.call_fn(0, Value::Function(Function::ClosureInst(closure))).unwrap();
}

#[test]
fn instructions_move_values_around() {
    let mut code = Instructions::new();
    code.emit_const(0);
    code.emit_set_global(1);
    code.emit_get_global(1);
    code.emit_dup();
    code.emit_new_list(2);
    code.emit_set_local(0);
    code.emit_get_local(0);
    code.emit_pop();
    code.emit_jump(-16);
    let mut vm = VM::new("main.as".to_string());
    start(&mut vm, &code, vec![Value::Entier(7), Value::Texte("g".to_string())]);
    for _ in 0..9 {
        vm.execute_instruction().unwrap();
    }
    assert!(matches!(vm.get_global("g"), Some(Value::Entier(7))));
    assert_eq!(vm.stack.len(), 1);
    match &vm.stack[0] {
        Value::Liste(l) => {
            assert_eq!(l.len(), 2);
            assert!(matches!(l[0], Value::Entier(7)));
        },
        _ => panic!("a list was expected"),
    }
    vm.execute_instruction().unwrap();
    assert!(matches!(vm.stack[1], Value::Entier(7)));
}

#[test]
fn unknown_globals_and_the_end_of_code_are_errors() {
    let mut code = Instructions::new();
    code.emit_get_global(0);
    let mut vm = VM::new("main.as".to_string());
    start(&mut vm, &code, vec![Value::Texte("inconnu".to_string())]);
    let r = vm.execute_instruction();
    assert!(matches!(r, Err(RuntimeError::RuntimeError(m)) if m == "Variable inconnue \"inconnu\""));
    let mut empty = VM::new("main.as".to_string());
    start(&mut empty, &Instructions::new(), vec![]);
    assert!(matches!(empty.execute_instruction(), Err(RuntimeError::RuntimeError(m)) if m == "IP out of range"));
}

#[test]
fn closures_and_missing_values() {
    let mut code = Instructions::new();
    code.emit_closure(0);
    code.emit_set_local(3);
    code.emit_pop();
    code.emit_set_global(1);
    let proto = Arc::new(lib::value::ClosureProto::new(Arc::new(ASFunction::new_anonymous(0))));
    let mut vm = VM::new("main.as".to_string());
    start(&mut vm, &code, vec![Value::Function(Function::ClosureProto(proto)), Value::Texte("g".to_string())]);
    vm.execute_instruction().unwrap();
    assert!(matches!(vm.stack[0], Value::Function(Function::ClosureInst(_))));
    vm.execute_instruction().unwrap();
    assert_eq!(vm.stack.len(), 4);
    assert!(matches!(vm.stack[0], Value::Nul));
    assert!(matches!(vm.stack[3], Value::Function(Function::ClosureInst(_))));
    vm.execute_instruction().unwrap();
    assert_eq!(vm.stack.len(), 3);
    let mut empty_stack = VM::new("m.as".to_string());
    let mut set = Instructions::new();
    set.emit_set_global(0);
    start(&mut empty_stack, &set, vec![Value::Texte("g".to_string())]);
    assert!(matches!(empty_stack.execute_instruction(), Err(RuntimeError::RuntimeError(m)) if m == "Missing value in SET_LOCAL"));
}

#[test]
fn calls_enter_the_callee() {
    let mut callee_code = Instructions::new();
    callee_code.emit_get_local(0);
    let mut callee = ASFunction::new(Some("id".to_string()), 1);
    callee.code = callee_code.inner().clone();
    let callee = Arc::new(ClosureInst::new(Arc::new(callee), vec![]));
    let mut code = Instructions::new();
    code.emit_const(0);
    code.emit_const(1);
    code.emit_call(1);
    let mut vm = VM::new("main.as".to_string());
    start(&mut vm, &code, vec![Value::Function(Function::ClosureInst(callee)), Value::Entier(5)]);
    for _ in 0..4 {
        vm.execute_instruction().unwrap();
    }
    assert_eq!(vm.stack.len(), 3);
    assert!(matches!(vm.stack[2], Value::Entier(5)));
    let mut wrong = Instructions::new();
    wrong.emit_const(0);
    wrong.emit_call(0);
    let mut vm2 = VM::new("main.as".to_string());
    start(&mut vm2, &wrong, vec![Value::Entier(1)]);
    vm2.execute_instruction().unwrap();
    assert!(matches!(vm2.execute_instruction(), Err(RuntimeError::RuntimeError(m)) if m == "Cannot call value of type: entier"));
}

#[test]
fn a_new_machine_binds_the_builtins() {
    let mut vm = VM::new("main.as".to_string());
    match vm.get_global("afficher") {
        Some(Value::Function(Function::NativeFunction(f))) => {
            assert_eq!(f.name, "afficher");
            assert_eq!(f.builtin, Builtin::Afficher);
        },
        _ => panic!("afficher should be bound"),
    }
    assert!(matches!(vm.get_global("décimal"), Some(Value::Function(Function::NativeFunction(f))) if f.builtin == Builtin::DecimalAccent));
    assert!(matches!(vm.get_global("erreur"), Some(Value::Function(Function::NativeFunction(f))) if f.builtin == Builtin::Erreur));
    assert!(vm.get_global("inconnu").is_none());
}

#[test]
fn a_builtin_call_is_handed_back_with_its_arguments() {
    let mut code = Instructions::new();
    code.emit_get_global(0);
    code.emit_const(1);
    code.emit_const(2);
    code.emit_call(2);
    let mut vm = VM::new("main.as".to_string());
    start(&mut vm, &code, vec![Value::Texte("suite".to_string()), Value::Entier(1), Value::Entier(4)]);
    for _ in 0..3 {
        assert!(vm.execute_instruction().unwrap().is_none());
    }
    let call = match vm.execute_instruction() {
        Ok(Some(Action::Call(c))) => c,
        _ => panic!("a native call was expected"),
    };
    assert_eq!(call.function.builtin, Builtin::Suite);
    assert_eq!(call.args.len(), 2);
    assert!(matches!(call.args[0], Value::Entier(1)));
    assert!(matches!(call.args[1], Value::Entier(4)));
    assert!(vm.stack.is_empty());
}

#[test]
fn reading_an_unset_local_is_an_error() {
    let mut code = Instructions::new();
    code.emit_get_local(3);
    let mut vm = VM::new("main.as".to_string());
    start(&mut vm, &code, vec![]);
    let r = vm.execute_instruction();
    assert!(matches!(r, Err(RuntimeError::RuntimeError(m)) if m == "Variable sans valeur (slot=3)\n"));
}

#[test]
fn size_and_range_builtins() {
    assert!(matches!(taille_de(&Value::Texte("héllo".to_string())), Ok(Value::Entier(6))));
    let l = Value::Liste(Arc::new(vec![Value::Nul, Value::Entier(1), Value::Booleen(true)]));
    assert!(matches!(taille_de(&l), Ok(Value::Entier(3))));
    let r = taille_de(&Value::Entier(3));
    assert!(matches!(r, Err(RuntimeError::TypeError(m)) if m == "dans la fonction 'tailleDe', le paramètre 'obj' est de type 'liste<tout> | texte', mais l'argument passé est de type 'entier'"));
    match suite(&Value::Entier(2), &Value::Entier(5)) {
        Ok(Value::Liste(l)) => {
            assert_eq!(l.len(), 3);
            assert!(matches!(l[0], Value::Entier(2)));
            assert!(matches!(l[2], Value::Entier(4)));
        },
        _ => panic!("a list was expected"),
    }
    assert!(matches!(suite(&Value::Entier(5), &Value::Entier(2)), Ok(Value::Liste(l)) if l.is_empty()));
    assert!(matches!(suite(&Value::Texte("a".to_string()), &Value::Entier(2)), Err(RuntimeError::TypeError(m)) if m.contains("'debut'")));
    assert!(matches!(suite(&Value::Entier(1), &Value::Nul), Err(RuntimeError::TypeError(m)) if m.contains("'fin'")));
}

#[test]
fn reading_hands_back_a_prompt_and_takes_the_line() {
    let mut code = Instructions::new();
    code.emit_read(false);
    let mut vm = VM::new("main.as".to_string());
    start(&mut vm, &code, vec![]);
    match vm.execute_instruction() {
        Ok(Some(Action::Read { prompt: Value::Texte(p) })) => assert_eq!(p, "> "),
        _ => panic!("a read was expected"),
    }
    vm.finish_read("bonjour\n".to_string());
    assert!(matches!(&vm.stack[0], Value::Texte(t) if t == "bonjour"));
    vm.finish_read("é".to_string());
    assert!(matches!(&vm.stack[1], Value::Texte(t) if t.is_empty()));
}

#[test]
fn for_next_steps_through_lists_and_texts() {
    let mut code = Instructions::new();
    code.emit_for_next(0);
    let mut vm = VM::new("main.as".to_string());
    start(&mut vm, &code, vec![]);
    vm.stack.push(Value::Liste(Arc::new(vec![Value::Entier(10), Value::Entier(20)])));
    vm.stack.push(Value::Entier(1));
    assert!(vm.execute_instruction().unwrap().is_none());
    assert_eq!(vm.stack.len(), 3);
    assert!(matches!(vm.stack[1], Value::Entier(2)));
    assert!(matches!(vm.stack[2], Value::Entier(20)));

    let mut done = VM::new("main.as".to_string());
    start(&mut done, &code, vec![]);
    done.stack.push(Value::Texte("ab".to_string()));
    done.stack.push(Value::Entier(2));
    assert!(done.execute_instruction().unwrap().is_none());
    assert_eq!(done.stack.len(), 2);
    assert!(matches!(done.stack[1], Value::Entier(3)));

    let mut text = VM::new("main.as".to_string());
    start(&mut text, &code, vec![]);
    text.stack.push(Value::Texte("ab".to_string()));
    text.stack.push(Value::Entier(1));
    text.execute_instruction().unwrap();
    assert!(matches!(&text.stack[2], Value::Texte(c) if c == "b"));

    let mut bad = VM::new("main.as".to_string());
    start(&mut bad, &code, vec![]);
    bad.stack.push(Value::Entier(4));
    bad.stack.push(Value::Entier(0));
    assert!(matches!(bad.execute_instruction(), Err(RuntimeError::RuntimeError(m)) if m == "impossible d'itérer sur une valeur de type 'entier'"));

    let mut bad_state = VM::new("main.as".to_string());
    start(&mut bad_state, &code, vec![]);
    bad_state.stack.push(Value::Texte("ab".to_string()));
    bad_state.stack.push(Value::Nul);
    assert!(matches!(bad_state.execute_instruction(), Err(RuntimeError::RuntimeError(m)) if m == "il faut que l'état soit une entier, pas 'nul'"));
}

fn get_item_of(obj: Value, slice: Value) -> Value {
    let mut code = Instructions::new();
    code.emit_get_item();
    let mut vm = VM::new("main.as".to_string());
    start(&mut vm, &code, vec![]);
    vm.stack.push(obj);
    vm.stack.push(slice);
    assert!(vm.execute_instruction().unwrap().is_none());
    assert_eq!(vm.stack.len(), 1);
    vm.stack.pop().unwrap()
}

#[test]
fn get_item_indexes_lists_and_texts() {
    let l = || Value::Liste(Arc::new(vec![Value::Entier(10), Value::Entier(20), Value::Entier(30)]));
    assert!(matches!(get_item_of(l(), Value::Entier(-1)), Value::Entier(30)));
    assert!(matches!(get_item_of(l(), Value::Entier(0)), Value::Entier(10)));
    assert!(matches!(get_item_of(Value::Texte("abc".to_string()), Value::Entier(1)), Value::Texte(t) if t == "b"));
    let picks = Value::Liste(Arc::new(vec![Value::Entier(0), Value::Entier(-1), Value::Texte("x".to_string())]));
    match get_item_of(l(), picks) {
        Value::Liste(out) => {
            assert_eq!(out.len(), 2);
            assert!(matches!(out[0], Value::Entier(10)));
            assert!(matches!(out[1], Value::Entier(30)));
        },
        _ => panic!("a list was expected"),
    }
    let chars = Value::Liste(Arc::new(vec![Value::Entier(0), Value::Entier(1)]));
    assert!(matches!(get_item_of(Value::Texte("héllo".to_string()), chars), Value::Texte(t) if t == "hé"));
}
