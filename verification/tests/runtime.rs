use std::sync::Arc;

use lib::as_modules::ASModuleBuiltin;
use lib::ast::ClasseFieldVis;
use lib::as_obj::ASClasseFieldVis;
use lib::config::{PermissionSet, VMAction, VMConfigBuilder, VMConfigBuilderError};
use lib::data::{Data, Response};
use lib::err::RuntimeError;
use lib::obj::{Function, UpvalueLocation, UpvalueSpec, Value};
use lib::script::get_err_line;
use lib::utils::{Apply, Invert, MapIf, WrapWhere};
use lib::value::{ASField, ASFunction, ASModule, ASObjet, ASStructure, ClosureInst, ClosureProto, Type};
use lib::vm::{CallFrame, VM};

#[test]
fn error_messages() {
    let e = RuntimeError::call_error("f", "trop");
    assert_eq!(e.message(), "Erreur lors de l'appel de la fonction 'f': trop");
    let e = RuntimeError::module_load_error("Math", "absent");
    assert_eq!(e.message(), "Erreur lors du chargement du module Math: absent");
    assert_eq!(RuntimeError::value_error("v").message(), "Erreur de valeur: v");
    assert_eq!(RuntimeError::type_error("t").message(), "Erreur de valeur: t");
    assert_eq!(RuntimeError::assertion_error("a").message(), "Erreur d'affirmation: a");
    assert_eq!(RuntimeError::stackoverflow_error("s").message(), "Explosion de la pile d'appel: s");
    assert_eq!(
        RuntimeError::assign_to_const("x").message(),
        "Impossibe d'affecter la variable 'x' puisque c'est une constante."
    );
    assert_eq!(
        RuntimeError::assign_to_const_field("c").message(),
        "Impossibe d'affecter le champs 'c' puisque c'est une constante."
    );
    assert_eq!(
        RuntimeError::permission_error("eval", "non").message(),
        "Erreur de permission (eval): non"
    );
    assert_eq!(RuntimeError::generic_err("g").message(), "Erreur lors de l'exécution:\ng");
    assert_eq!(
        RuntimeError::invalid_field("Point", "z").message(),
        "Erreur de champs: le champs z n'existe pas dans l'objet Point"
    );
}

#[test]
fn error_messages_with_types() {
    let e = RuntimeError::invalid_struct(Type::Entier);
    assert!(matches!(&e, RuntimeError::ValueError(m)
        if m == "impossible de construire une valeur de type 'entier'. Seule les structures peuvent être construite"));
    let e = RuntimeError::invalid_op("+", Type::Texte, Type::Booleen);
    assert!(matches!(&e, RuntimeError::TypeError(m) if m == "opération '+' non supporté pour les opérandes: texte et booléen"));
    let e = RuntimeError::invalid_arg_type("f", "x", Type::Entier, Type::Nul);
    assert!(matches!(&e, RuntimeError::TypeError(m)
        if m == "dans la fonction 'f', le paramètre 'x' est de type 'entier', mais l'argument passé est de type 'nul'"));
    let missing = vec!["a".to_string(), "b\"c".to_string()];
    let e = RuntimeError::missing_struct_fields("P", &missing);
    assert!(matches!(&e, RuntimeError::ValueError(m)
        if m == "lors de la construction de la structure 'P', certains champs n'ont pas reçu de valeurs: [\"a\", \"b\\\"c\"]. Spécifiez une valeur dans la construction ou ajoutez une valeur par défaut à ces champs"));
}

#[test]
fn module_members_read_what_was_written() {
    let mut m = ASModule::new("Math", vec![
        ("pi".to_string(), ASField::new(true, Type::Entier, Value::Entier(3))),
        ("n".to_string(), ASField::new_with_type_from_value(false, Value::Entier(1))),
    ]);
    assert!(matches!(m.get_member("pi"), Ok(Value::Entier(3))));
    assert!(m.set_member("n", Value::Entier(7)).is_ok());
    assert!(matches!(m.get_member("n"), Ok(Value::Entier(7))));
    assert!(matches!(m.get_member("pi"), Ok(Value::Entier(3))));
    assert!(matches!(m.set_member("pi", Value::Entier(4)), Err(RuntimeError::AssignToConstVar { var_name }) if var_name == "Math.pi"));
    assert!(matches!(m.get_member("e"), Err(RuntimeError::FieldError(msg)) if msg == "le champs e n'existe pas dans l'objet Math"));
    assert!(matches!(m.set_member("e", Value::Nul), Err(RuntimeError::FieldError(_))));
    let shared = ASModule::from_iter("Vide", vec![]);
    assert_eq!(shared.name, "Vide");
}

#[test]
fn object_fields_and_methods() {
    let f = Arc::new(ASFunction::new(Some("parler".to_string()), 1));
    let method = Arc::new(ClosureInst::new(f, vec![]));
    let mut s = ASStructure::new("Chat".to_string(), vec![]);
    s.methods.push(("parler".to_string(), method));
    let s = Arc::new(s);
    let mut o = ASObjet::new(Arc::clone(&s), vec![
        ("nom".to_string(), ASField::new(false, Type::Texte, Value::Texte("Tom".to_string()))),
        ("age".to_string(), ASField::new(true, Type::Entier, Value::Entier(2))),
    ]);
    assert!(o.set_field("nom", Value::Texte("Felix".to_string())).is_ok());
    assert!(matches!(o.set_field("age", Value::Entier(3)), Err(RuntimeError::AssignToConstField { field_name }) if field_name == "age"));
    assert!(matches!(o.set_field("x", Value::Nul), Err(RuntimeError::FieldError(m)) if m == "le champs x n'existe pas dans l'objet Chat"));
    let o = Arc::new(o);
    assert!(matches!(ASObjet::get_field(&o, "nom"), Ok(Value::Texte(t)) if t == "Felix"));
    assert!(matches!(ASObjet::get_field(&o, "parler"), Ok(Value::Function(Function::ClosureMethod(_)))));
    assert!(matches!(ASObjet::get_field(&o, "z"), Err(RuntimeError::FieldError(_))));
    assert_eq!(Value::Objet(o).get_type().to_string(), "Chat");
}

#[test]
fn machine_globals_and_stack() {
    let mut vm = VM::new("main.as".to_string());
    assert_eq!(vm.file(), "main.as");
    assert!(vm.insert_global(("x".to_string(), Value::Entier(1))).is_none());
    assert!(matches!(vm.insert_global(("x".to_string(), Value::Entier(2))), Some(Value::Entier(1))));
    assert!(matches!(vm.get_global("x"), Some(Value::Entier(2))));
    assert!(vm.get_global("y").is_none());
    vm.push(Value::Booleen(true));
    vm.push(Value::Nul);
    assert!(matches!(vm.peek(1), Value::Booleen(true)));
    assert!(matches!(vm.pop(), Some(Value::Nul)));
    assert!(matches!(vm.pop(), Some(Value::Booleen(true))));
    assert!(vm.pop().is_none());
    assert!(vm.check_overflow().is_ok());
}

#[test]
fn calls_check_their_arity() {
    let mut vm = VM::new("main.as".to_string());
    let f = Arc::new(ASFunction::new(Some("f".to_string()), 2));
    let closure = Arc::new(ClosureInst::new(f, vec![]));
    vm.push(Value::Entier(1));
    let r = vm.call_fn(1, Value::Function(Function::ClosureInst(Arc::clone(&closure))));
    assert!(matches!(r, Err(RuntimeError::CallError { func_name, msg })
        if func_name == "f" && msg == "mauvais nombre d'arguments (attendu 2, obtenu 1)"));
    vm.push(Value::Entier(2));
    assert!(vm.call_fn(2, Value::Function(Function::ClosureInst(closure))).is_ok());
    let r = vm.call_fn(0, Value::Entier(3));
    assert!(matches!(r, Err(RuntimeError::RuntimeError(m)) if m == "Cannot call value of type: entier"));
    let anon = Arc::new(ASFunction::new_anonymous(0));
    let r = vm.call_fn(1, Value::Function(Function::ClosureInst(Arc::new(ClosureInst::new(anon, vec![])))));
    assert!(matches!(r, Err(RuntimeError::CallError { func_name, .. }) if func_name == "anonyme"));
}

#[test]
fn closures_capture_open_slots() {
    let mut vm = VM::new("main.as".to_string());
    let main_fn = Arc::new(ASFunction::new_anonymous(0));
    vm.push(Value::Entier(10));
    assert!(vm.call_fn(0, Value::Function(Function::ClosureInst(Arc::new(ClosureInst::new(main_fn, vec![]))))).is_ok());
    let mut inner = ASFunction::new(Some("g".to_string()), 0);
    inner.upvalue_specs.push(UpvalueSpec::Local(0));
    inner.upvalue_specs.push(UpvalueSpec::Local(0));
    let proto = Arc::new(ClosureProto::new(Arc::new(inner)));
    let inst = vm.resolve_proto_closure_upvalues(Arc::clone(&proto)).unwrap();
    assert_eq!(inst.upvalues.len(), 2);
    assert!(matches!(vm.upvalue(inst.upvalues[0]).unwrap().location, UpvalueLocation::Open(1)));
    assert_eq!(inst.upvalues[0], inst.upvalues[1]);
    let mut bad = ASFunction::new(None, 0);
    bad.upvalue_specs.push(UpvalueSpec::Upvalue(4));
    let r = vm.resolve_proto_closure_upvalues(Arc::new(ClosureProto::new(Arc::new(bad))));
    assert!(matches!(r, Err(RuntimeError::RuntimeError(m)) if m == "parent upvalue index out of range"));
    let mut empty = VM::new("x.as".to_string());
    let r = empty.resolve_proto_closure_upvalues(proto);
    assert!(matches!(r, Err(RuntimeError::RuntimeError(m)) if m == "no frame"));
    let _frame = CallFrame { closure: inst, ip: 0, base: 0 };
}

#[test]
fn call_stack_overflows_at_its_limit() {
    let mut vm = VM::new("main.as".to_string());
    let f = Arc::new(ASFunction::new_anonymous(0));
    let closure = Arc::new(ClosureInst::new(f, vec![]));
    let mut last = Ok(None);
    for _ in 0..2000 {
        last = vm.call_fn(0, Value::Function(Function::ClosureInst(Arc::clone(&closure))));
        if last.is_err() {
            break;
        }
    }
    assert!(matches!(last, Err(RuntimeError::StackOverflow(m)) if m == "la pile d'appel a dépassé la limite autorisée (2000)"));
}

#[test]
fn permission_sets() {
    let inc = PermissionSet::Include(vec![VMAction::Eval]);
    assert!(inc.includes(&VMAction::Eval));
    assert!(!inc.includes(&VMAction::ReadFile));
    let exc = PermissionSet::Exclude(vec![VMAction::Eval]);
    assert!(!exc.includes(&VMAction::Eval));
    assert!(exc.includes(&VMAction::ReadFile));
    let modules = PermissionSet::Include(vec!["Math".to_string()]);
    assert!(modules.includes(&"Math".to_string()));
    assert!(!modules.includes(&"ES".to_string()));
}

#[test]
fn permission_names() {
    assert!(matches!(VMAction::from_str("lireEntréeStd"), Ok(VMAction::ReadStdin)));
    assert!(matches!(VMAction::from_str("ecrireFichier"), Ok(VMAction::WriteFile)));
    assert!(matches!(VMAction::from_str("éval"), Ok(VMAction::Eval)));
    assert!(matches!(VMAction::from_str("voler"), Err(RuntimeError::RuntimeError(m)) if m == "Valeur de permission inconnue: 'voler'"));
}

#[test]
fn configuration_builder() {
    let mut b = VMConfigBuilder::new();
    assert!(matches!(b.build(), Err(VMConfigBuilderError::UninitializedField(f)) if f == "permissions"));
    b.include_permissions(vec![VMAction::ReadStdin]);
    b.include_permissions(vec![VMAction::Eval]);
    b.allowed_modules(Some(PermissionSet::Exclude(vec!["ES".to_string()])));
    let c = b.build().unwrap();
    let p = c.permissions.unwrap();
    assert!(p.includes(&VMAction::ReadStdin));
    assert!(p.includes(&VMAction::Eval));
    assert!(!p.includes(&VMAction::WriteFile));
    assert!(!c.allowed_modules.unwrap().includes(&"ES".to_string()));
    assert!(c.compiler_options.forbidden_ops.is_empty());
    assert!(c.module_searcher.is_none());
    let mut e = VMConfigBuilder::new();
    e.exclude_permissions(vec![VMAction::WriteFile]).exclude_permissions(vec![VMAction::Eval]);
    let p = e.build().unwrap().permissions.unwrap();
    assert!(!p.includes(&VMAction::Eval));
    assert!(p.includes(&VMAction::ReadFile));
}

#[test]
fn builtin_module_names() {
    assert_eq!(ASModuleBuiltin::Builtin.name(), "builtin");
    assert_eq!(ASModuleBuiltin::Temps.name(), "Temps");
    assert!(matches!(ASModuleBuiltin::try_from_name("Math"), Ok(ASModuleBuiltin::Math)));
    assert!(matches!(ASModuleBuiltin::try_from_name("math"), Err(n) if n == "math"));
    for m in [ASModuleBuiltin::Liste, ASModuleBuiltin::Texte, ASModuleBuiltin::Voiture, ASModuleBuiltin::Test] {
        assert_eq!(ASModuleBuiltin::try_from_name(&m.name()), Ok(m));
    }
}

#[test]
fn host_messages() {
    assert!(Data::Erreur { texte: "x".to_string(), ligne: 3 }.is_erreur());
    assert!(!Data::Afficher("x".to_string()).is_erreur());
    assert!(!Data::Demander { prompt: None }.is_erreur());
    let _ = Response::Text("ok".to_string());
    assert!(matches!(ClasseFieldVis::Privee.into_field_vis(), ASClasseFieldVis::Privee));
}

#[test]
fn option_and_result_combinators() {
    let a: Option<Result<i32, String>> = Some(Ok(1));
    assert_eq!(a.invert(), Ok(Some(1)));
    let b: Option<Result<i32, String>> = None;
    assert_eq!(b.invert(), Ok(None));
    let c: Result<Option<i32>, String> = Err("e".to_string());
    assert_eq!(c.invert(), Some(Err("e".to_string())));
    let d: Result<Option<i32>, String> = Ok(Some(4));
    assert_eq!(d.invert().invert(), Ok(Some(4)));
    assert_eq!(5.wrap_where(|x| *x > 3), Some(5));
    assert_eq!(2.wrap_where(|x| *x > 3), None);
    assert_eq!(5.map_if(|x| if *x > 3 { Some(0) } else { None }), 0);
    assert_eq!(2.map_if(|x| if *x > 3 { Some(0) } else { None }), 2);
    assert_eq!(3.apply(|x| x * 2), 6);
}

#[test]
fn error_lines() {
    let script = "var a = 1\nafficher b;\nfin\n".to_string();
    assert_eq!(get_err_line(&script, 19, 20), ("afficher b;".to_string(), 2));
    assert_eq!(get_err_line(&script, 2, 3), ("var a = 1".to_string(), 1));
    let accents = "é = 2;\nx".to_string();
    assert_eq!(get_err_line(&accents, 0, 2), ("é = 2;".to_string(), 1));
}

#[test]
fn error_lines_are_trimmed_of_unicode_whitespace() {
    let script = "\u{3000}\t a = 1 \u{a0}\nb".to_string();
    assert_eq!(get_err_line(&script, 5, 6), ("a = 1".to_string(), 1));
}
