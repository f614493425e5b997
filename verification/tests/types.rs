use lib::as_obj::{ASType, ASVar};
use lib::err::CompilationErrorKind;
use lib::value::{ArgParam, StructType, Type, TypeSpec, TypeSpecValue};

fn astypes(ts: Vec<ASType>) -> Vec<String> {
    ts.iter().map(|t| t.to_string()).collect()
}

#[test]
fn type_names() {
    assert_eq!(Type::Decimal.to_string(), "décimal");
    assert_eq!(Type::liste_tout().to_string(), "liste<tout>");
    assert_eq!(Type::Module("Math".to_string()).to_string(), "module 'Math'");
    assert_eq!(Type::Array(vec![Type::Entier, Type::Texte]).to_string(), "[entier, texte]");
    assert_eq!(Type::nombre().to_string(), "entier | décimal");
}

#[test]
fn union_sorts_flattens_and_dedups() {
    let u = Type::union(vec![Type::Texte, Type::nombre(), Type::Entier]);
    assert_eq!(u.to_string(), "décimal | entier | texte");
    let single = Type::union(vec![Type::Booleen]);
    assert_eq!(single.to_string(), "booléen");
    assert_eq!(Type::union_of(Type::Nul, Type::Entier).to_string(), "entier | nul");
}

#[test]
fn type_matching() {
    assert!(Type::type_match(&Type::Decimal, &Type::Entier));
    assert!(!Type::type_match(&Type::Entier, &Type::Decimal));
    assert!(Type::type_match(&Type::tout(), &Type::Nul));
    assert!(!Type::type_match(&Type::tout(), &Type::Rien));
    assert!(Type::type_match(&Type::Tout, &Type::Texte));
    assert!(!Type::type_match(&Type::Tout, &Type::Nul));
    assert!(Type::type_match(&Type::optional(Type::Texte), &Type::Nul));
    assert!(Type::type_match(&Type::nombre(), &Type::Entier));
    assert!(Type::type_match(&Type::liste_tout(), &Type::Liste(Box::new(Type::Entier))));
    assert!(Type::type_match(
        &Type::Liste(Box::new(Type::Entier)),
        &Type::Array(vec![Type::Entier, Type::Entier])
    ));
    assert!(!Type::type_match(
        &Type::Array(vec![Type::Entier]),
        &Type::Array(vec![Type::Entier, Type::Entier])
    ));
    let t = Type::Struct(StructType::new("Point".to_string(), vec![("x".to_string(), Type::Entier)]));
    assert!(Type::type_match(&t, &t.copy()));
}

#[test]
fn type_predicates() {
    assert!(Type::tout().is_tout());
    assert!(Type::union(vec![Type::Entier, Type::Tout]).is_tout());
    assert!(!Type::Entier.is_tout());
    assert!(Type::Texte.is_primitif());
    assert!(!Type::Fonction.is_primitif());
    assert_eq!(Type::from_option(None).to_string(), "tout?");
    assert!(Type::iterable().eq(&Type::iterable()));
    assert!(Type::iterable().eq(&Type::iterable_ordonne()));
    assert!(!Type::iterable().eq(&Type::nombre()));
}

#[test]
fn type_arguments() {
    let r = Type::liste_tout().with_type_args(vec![Type::Entier, Type::Texte]);
    assert_eq!(r.unwrap().to_string(), "liste<entier | texte>");
    match Type::Entier.with_type_args(vec![Type::Texte]) {
        Err(CompilationErrorKind::GenericError(m)) => assert_eq!(m, "Le type entier ne prend pas d'arguments"),
        _ => panic!("an error was expected"),
    }
}

#[test]
fn type_annotations() {
    let spec = TypeSpec::from_type(Type::liste_tout());
    assert_eq!(spec.name, "liste<tout>");
    let arg = TypeSpec::from_type(Type::Entier);
    let computed = spec.compute(vec![arg]).unwrap();
    assert_eq!(computed.to_string(), "liste<entier>");
    let generic = TypeSpec::new_computed("T".to_string(), vec![ArgParam { name: "a".to_string(), default_value: None }]);
    assert!(matches!(generic.value, TypeSpecValue::Computed { .. }));
    match generic.as_base_type() {
        Err(CompilationErrorKind::GenericError(m)) => assert_eq!(m, "Expected base type"),
        _ => panic!("an error was expected"),
    }
    let plain = TypeSpec::from_type(Type::liste_tout());
    let bad = TypeSpec::new_computed("T".to_string(), vec![]);
    match plain.compute(vec![bad]) {
        Err(CompilationErrorKind::GenericError(m)) => assert_eq!(m, "Expected base type"),
        _ => panic!("an error was expected"),
    }
}

#[test]
fn interpreter_types() {
    assert_eq!(ASType::nombre().to_string(), "entier | décimal");
    assert_eq!(ASType::iterable_ordonne().to_string(), "liste | texte | structure | objet");
    let u = ASType::union(vec![ASType::Texte, ASType::nombre()]);
    assert_eq!(u.to_string(), "texte | entier | décimal");
    assert_eq!(ASType::union(vec![ASType::Dict]).to_string(), "dict");
    assert_eq!(ASType::union_of(ASType::Nul, ASType::Liste).to_string(), "nul | liste");
    assert_eq!(ASType::any().to_string(), "tout?");
    assert_eq!(ASType::Array(vec![ASType::Entier, ASType::Objet("Chat".to_string())]).to_string(), "[entier, Chat]");
    assert_eq!(astypes(vec![ASType::from_str("décimal"), ASType::from_str("rien"), ASType::from_str("Chat")]), vec!["décimal", "nul", "Chat"]);
    assert_eq!(ASType::from_str("objet").to_string(), "objet | dict | structure");
}

#[test]
fn interpreter_type_matching() {
    assert!(ASType::type_match(&ASType::any(), &ASType::Nul));
    assert!(!ASType::type_match(&ASType::any(), &ASType::Rien));
    assert!(ASType::type_match(&ASType::Decimal, &ASType::Entier));
    assert!(!ASType::type_match(&ASType::Entier, &ASType::Decimal));
    assert!(ASType::type_match(&ASType::Objet("Chat".to_string()), &ASType::ClasseInst));
    assert!(ASType::type_match(&ASType::Liste, &ASType::Array(vec![ASType::Texte])));
    assert!(ASType::type_match(&ASType::nombre(), &ASType::Decimal));
    assert!(!ASType::type_match(
        &ASType::Array(vec![ASType::Texte]),
        &ASType::Array(vec![ASType::Entier])
    ));
    assert!(ASType::any().is_tout());
    assert!(ASType::Optional(Box::new(ASType::Entier)).is_primitif());
    assert!(!ASType::Liste.is_primitif());
}

#[test]
fn interpreter_variables() {
    let v = ASVar::new("x".to_string(), None, true);
    assert_eq!(v.get_name(), "x");
    assert_eq!(v.get_type().to_string(), "tout?");
    assert!(v.is_const());
    assert!(v.type_match(&ASType::Texte));
    let w = ASVar::new("n".to_string(), Some(ASType::Entier), false);
    assert!(!w.is_const());
    assert!(!w.type_match(&ASType::Texte));
    assert!(w.type_match(&ASType::Entier));
}

#[test]
fn a_variable_equals_a_text_by_its_name() {
    let v = ASVar::new("x".to_string(), None, false);
    assert!(v.eq_name(&"x".to_string()));
    assert!(!v.eq_name(&"y".to_string()));
    let w = v.clone();
    assert!(w.eq(&v));
    assert_eq!(w.get_name(), "x");
    let c = ASVar::new("x".to_string(), None, true);
    assert!(!c.eq(&v));
}
