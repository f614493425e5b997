use std::sync::Arc;

use lib::compiler::{Compiler, CompilerOptions};
use lib::err::CompilationErrorKind;
use lib::obj::{UpvalueSpec, Value};
use lib::value::{ASStructure, Type, TypeSpec};

fn entier() -> TypeSpec {
    TypeSpec::from_type(Type::Entier)
}

#[test]
fn fresh_compiler() {
    let c = Compiler::new("afficher 1", "main.as".to_string());
    assert_eq!(c.input, "afficher 1");
    assert_eq!(c.source_name, "main.as");
    assert!(c.locals.is_empty());
    assert_eq!(c.scope_depth, 0);
    assert!(c.parent.is_none());
    assert_eq!(c.return_type.name, "tout");
    assert!(c.function.name.is_none());
    let options = CompilerOptions { forbidden_ops: vec![lib::bytecode::Opcode::Read] };
    let d = Compiler::new_with_options("", "b.as".to_string(), options);
    assert_eq!(d.options.forbidden_ops.len(), 1);
}

#[test]
fn declared_local_resolves_after_initialization() {
    let mut c = Compiler::new("", "a.as".to_string());
    let slot = c.declare_local("x", entier(), false);
    assert_eq!(slot, 0);
    match c.resolve_local("x", false) {
        Err(CompilationErrorKind::GenericError(m)) => {
            assert_eq!(m, "Impossible de lire la variable 'x', car elle n'a pas été initialisée")
        },
        _ => panic!("an error was expected"),
    }
    assert!(matches!(c.resolve_local("x", true), Ok(Some((0, _)))));
    c.mark_initialized(0);
    assert_eq!(c.locals[0].depth, 0);
    assert!(matches!(c.resolve_local("x", false), Ok(Some((0, _)))));
    let shadow = c.declare_local("x", entier(), true);
    c.mark_initialized(shadow);
    match c.resolve_local("x", false) {
        Ok(Some((i, l))) => {
            assert_eq!(i, 1);
            assert!(l.is_const);
        },
        _ => panic!("the local was expected"),
    }
    assert!(matches!(c.resolve_local("y", false), Ok(None)));
}

#[test]
fn scope_exit_pops_its_locals() {
    let mut c = Compiler::new("", "a.as".to_string());
    let x = c.declare_local("x", entier(), false);
    c.mark_initialized(x);
    c.begin_scope();
    let y = c.declare_local("y", entier(), false);
    c.mark_initialized(y);
    let t = c.declare_inner_local("it");
    assert_eq!(c.locals[t as usize].name, "((it))");
    assert_eq!(c.locals[t as usize].depth, 1);
    c.declare_local_type("T", entier());
    assert_eq!(c.nb_local_scope_vars(), 2);
    c.mark_captured(y as usize);
    let closed = c.end_scope();
    assert_eq!(closed, vec![1]);
    assert_eq!(c.code.inner(), &vec![1u16]);
    assert_eq!(c.locals.len(), 1);
    assert!(c.local_types.is_empty());
    assert_eq!(c.scope_depth, 0);
}

#[test]
fn captured_variables_resolve_through_enclosing_functions() {
    let mut outer = Compiler::new("", "m.as".to_string());
    let a = outer.declare_local("a", entier(), false);
    outer.mark_initialized(a);
    let mut inner = Compiler::new_closure("", Some("f".to_string()), outer, 0, entier());
    assert_eq!(inner.source_name, "m.as");
    match inner.resolve_upval("a") {
        Ok(Some((0, l))) => assert_eq!(l.name, "a"),
        _ => panic!("a captured variable was expected"),
    }
    assert!(matches!(inner.upvalues[0], UpvalueSpec::Local(0)));
    assert!(inner.parent.as_ref().unwrap().locals[0].is_captured);
    assert!(matches!(inner.resolve_upval("a"), Ok(Some((0, _)))));
    assert_eq!(inner.upvalues.len(), 1);
    let mut innermost = Compiler::new_closure("", None, inner, 1, entier());
    assert!(matches!(innermost.resolve_upval("a"), Ok(Some((0, _)))));
    assert!(matches!(innermost.upvalues[0], UpvalueSpec::Upvalue(0)));
    assert!(matches!(innermost.resolve_upval("zz"), Ok(None)));
    let mut top = Compiler::new("", "t.as".to_string());
    assert!(matches!(top.resolve_upval("a"), Ok(None)));
}

#[test]
fn upvalues_are_recorded_once() {
    let mut c = Compiler::new("", "a.as".to_string());
    assert_eq!(c.add_upvalue(true, 2), 0);
    assert_eq!(c.add_upvalue(false, 2), 1);
    assert_eq!(c.add_upvalue(true, 2), 0);
    assert_eq!(c.upvalues.len(), 2);
}

#[test]
fn jumps_are_patched_to_their_targets() {
    let mut c = Compiler::new("", "a.as".to_string());
    let j = c.push_jump_if_false();
    assert_eq!(j, 0);
    assert_eq!(c.jump_stack, vec![1]);
    c.code.emit_pop();
    c.code.emit_pop();
    c.patch_jump(j);
    assert_eq!(c.code.inner(), &vec![17u16, 257, 1, 1]);
    let k = c.push_jump();
    assert_eq!(c.jump_stack[k], 5);
    c.patch_jump_to(k, 0);
    assert_eq!(c.code.inner()[5], 249);
    let t = c.push_jump_test(true);
    assert_eq!(c.jump_stack[t], 7);
    assert_eq!(&c.code.inner()[6..], &[18u16, 255, 1]);
}

#[test]
fn constants_are_shared() {
    let mut c = Compiler::new("", "a.as".to_string());
    assert_eq!(c.get_or_add_const(Value::Entier(5)), 0);
    assert_eq!(c.get_or_add_const(Value::Texte("a".to_string())), 1);
    assert_eq!(c.get_or_add_const(Value::Entier(5)), 0);
    assert_eq!(c.push_const(Value::Texte("a".to_string())), 1);
    assert_eq!(c.code.inner(), &vec![2u16, 1]);
    assert!(matches!(c.get_const(1), Some(Value::Texte(t)) if t == "a"));
    assert!(c.get_const(9).is_none());
    assert_eq!(c.function.constants.len(), 2);
}

#[test]
fn variables_load_from_locals_captures_or_globals() {
    let mut outer = Compiler::new("", "m.as".to_string());
    let a = outer.declare_local("a", entier(), false);
    outer.mark_initialized(a);
    let mut c = Compiler::new_closure("", None, outer, 0, entier());
    let x = c.declare_local("x", entier(), false);
    c.mark_initialized(x);
    c.load_var("x");
    c.load_var("a");
    c.load_var("glob");
    assert_eq!(c.code.inner(), &vec![11u16, 0, 9, 0, 13, 0]);
    assert!(matches!(&c.function.constants[0], Value::Texte(t) if t == "glob"));
}

#[test]
fn type_names_resolve_here_or_outside() {
    let mut outer = Compiler::new("", "m.as".to_string());
    outer.declare_local_type("T", entier());
    let c = Compiler::new_closure("", None, outer, 0, entier());
    assert_eq!(c.get_var_type("T").unwrap().name, "entier");
    assert!(c.get_var_type("U").is_none());
}

#[test]
fn structures_are_found_among_constants() {
    let mut c = Compiler::new("", "m.as".to_string());
    let s = Arc::new(ASStructure::new("Point".to_string(), vec![]));
    c.get_or_add_const(Value::Entier(1));
    c.function.constants.push(Value::Structure(s));
    assert!(matches!(c.get_struct_const("Point"), Ok(Some((_, 1)))));
    assert!(matches!(c.get_struct_const("Autre"), Ok(None)));
    let inner = Compiler::new_closure("", None, c, 0, entier());
    match inner.get_struct_const("Point") {
        Err(CompilationErrorKind::InvalidImplBlock(n)) => assert_eq!(n, "Point"),
        _ => panic!("an error was expected"),
    }
}

#[test]
fn finishing_hands_over_the_code() {
    let mut c = Compiler::new("", "m.as".to_string());
    c.code.emit_return();
    c.add_upvalue(true, 0);
    c.finish();
    assert_eq!(c.function.code, vec![19u16]);
    assert_eq!(c.function.upvalue_count, 1);
}

#[test]
fn empty_function_only_returns() {
    let mut c = Compiler::new("", "m.as".to_string());
    c.add_upvalue(true, 1);
    let proto = c.compile_empty().unwrap();
    assert_eq!(proto.function.code, vec![19u16]);
    assert_eq!(proto.function.upvalue_count, 1);
    assert!(proto.upvalues.is_empty());
}

#[test]
fn modules_export_their_locals() {
    let mut c = Compiler::new("", "m.as".to_string());
    c.declare_local("a", entier(), true);
    c.declare_inner_local("tmp");
    c.declare_local("b", TypeSpec::from_type(Type::Texte), false);
    c.declare_local("a", entier(), false);
    let exports = c.module_exports().unwrap();
    assert_eq!(exports.len(), 3);
    assert_eq!(exports[0].0, "a");
    assert_eq!(exports[0].1.value_idx, 3);
    assert!(exports[0].1.is_const);
    assert_eq!(exports[1].0, "b");
    assert_eq!(exports[1].1.value_idx, 2);
    assert_eq!(exports[1].1.field_type.to_string(), "texte");
    assert!(!exports[2].1.is_const);
    let mut d = Compiler::new("", "n.as".to_string());
    d.declare_local("t", TypeSpec::new_computed("T".to_string(), vec![]), false);
    match d.module_exports() {
        Err(CompilationErrorKind::GenericError(m)) => assert_eq!(m, "Expected base type"),
        _ => panic!("an error was expected"),
    }
}
