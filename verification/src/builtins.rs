//! The functions that every program finds bound as globals.
use vstd::prelude::*;

use std::sync::Arc;

use crate::err::{invalid_arg_type_msg, RuntimeError};
use crate::obj::{value_type, Builtin, Function, NativeFunction, Value};
use crate::value::{last_named, lemma_last_named, type_matches, type_str, Type, TypeV};
use crate::vm::NativeCall;
use vstd::string::StringSliceAdditionalSpecFns;
use vstd::utf8::encode_utf8;

verus! {

/// The name a builtin is bound under.
pub open spec fn builtin_name(b: Builtin) -> Seq<char> {
    match b {
        Builtin::Afficher => "afficher"@,
        Builtin::AfficherErr => "afficherErr"@,
        Builtin::TypeDe => "typeDe"@,
        Builtin::TailleDe => "tailleDe"@,
        Builtin::Suite => "suite"@,
        Builtin::Abs => "abs"@,
        Builtin::Entier => "entier"@,
        Builtin::DecimalAccent => "décimal"@,
        Builtin::Decimal => "decimal"@,
        Builtin::Texte => "texte"@,
        Builtin::Erreur => "erreur"@,
    }
}

/// Every builtin, once each.
pub open spec fn all_builtins() -> Seq<Builtin> {
    seq![
        Builtin::Afficher,
        Builtin::AfficherErr,
        Builtin::TypeDe,
        Builtin::TailleDe,
        Builtin::Suite,
        Builtin::Abs,
        Builtin::Entier,
        Builtin::DecimalAccent,
        Builtin::Decimal,
        Builtin::Texte,
        Builtin::Erreur,
    ]
}

/// The global entry of the builtin `b`: its name bound to the native
/// function of that name.
pub open spec fn is_builtin_entry(e: (String, Value), b: Builtin) -> bool {
    &&& e.0@ == builtin_name(b)
    &&& e.1 matches Value::Function(Function::NativeFunction(f)) && f.name@ == builtin_name(b) && f.builtin == b
}

/// `g` binds exactly the builtins: one entry for each, in the order of
/// [`all_builtins`].
pub open spec fn builtin_globals(g: Seq<(String, Value)>) -> bool {
    &&& g.len() == all_builtins().len()
    &&& forall|i: int| 0 <= i < g.len() ==> is_builtin_entry(#[trigger] g[i], all_builtins()[i])
}

/// The builtin bound under `n`, if any.
pub open spec fn builtin_named(n: Seq<char>) -> Option<Builtin> {
    if exists|b: Builtin| builtin_name(b) == n {
        Some(choose|b: Builtin| builtin_name(b) == n)
    } else {
        None
    }
}

/// Distinct builtins have distinct names.
pub proof fn lemma_builtin_names_distinct(a: Builtin, b: Builtin)
    ensures
        builtin_name(a) == builtin_name(b) ==> a == b,
{
    reveal_strlit("afficher");
    reveal_strlit("afficherErr");
    reveal_strlit("typeDe");
    reveal_strlit("tailleDe");
    reveal_strlit("suite");
    reveal_strlit("abs");
    reveal_strlit("entier");
    reveal_strlit("décimal");
    reveal_strlit("decimal");
    reveal_strlit("texte");
    reveal_strlit("erreur");
    if builtin_name(a) == builtin_name(b) && a != b {
        assert(builtin_name(a).len() == builtin_name(b).len());
        assert(forall|i: int| 0 <= i < builtin_name(a).len() ==> builtin_name(a)[i] == builtin_name(b)[i]);
        assert(builtin_name(a)[0] == builtin_name(b)[0]);
        assert(builtin_name(a)[1] == builtin_name(b)[1]);
        assert(builtin_name(a)[5] == builtin_name(b)[5]);
    }
}

/// In the builtin globals, a name is bound exactly when it is a builtin's
/// name, and it is bound to that builtin.
pub proof fn lemma_builtin_lookup(g: Seq<(String, Value)>, n: Seq<char>)
    requires
        builtin_globals(g),
    ensures
        (last_named(g, n) >= 0) == (builtin_named(n) is Some),
        last_named(g, n) >= 0 ==> is_builtin_entry(g[last_named(g, n)], builtin_named(n)->0),
{
    lemma_last_named(g, n);
    let k = last_named(g, n);
    if k >= 0 {
        assert(is_builtin_entry(g[k], all_builtins()[k]));
        let b = all_builtins()[k];
        assert(builtin_name(b) == n);
        let c = choose|c: Builtin| builtin_name(c) == n;
        lemma_builtin_names_distinct(b, c);
    } else {
        if exists|b: Builtin| builtin_name(b) == n {
            let b = choose|b: Builtin| builtin_name(b) == n;
            let i: int = match b {
                Builtin::Afficher => 0,
                Builtin::AfficherErr => 1,
                Builtin::TypeDe => 2,
                Builtin::TailleDe => 3,
                Builtin::Suite => 4,
                Builtin::Abs => 5,
                Builtin::Entier => 6,
                Builtin::DecimalAccent => 7,
                Builtin::Decimal => 8,
                Builtin::Texte => 9,
                Builtin::Erreur => 10,
            };
            assert(all_builtins()[i] == b);
            assert(is_builtin_entry(g[i], b));
            assert(g[i].0@ == n);
        }
    }
}

/// The global entry of one builtin.
fn builtin_entry(b: Builtin, name: &str) -> (r: (String, Value))
    requires
        name@ == builtin_name(b),
    ensures
        is_builtin_entry(r, b),
{
    let f = NativeFunction { name: name.to_string(), builtin: b };
    (name.to_string(), Value::Function(Function::NativeFunction(Arc::new(f))))
}

/// The builtins as global entries, one for each, in the order of
/// [`all_builtins`].
pub fn builtin_table() -> (r: Vec<(String, Value)>)
    ensures
        builtin_globals(r@),
{
    let mut r: Vec<(String, Value)> = Vec::new();
    r.push(builtin_entry(Builtin::Afficher, "afficher"));
    r.push(builtin_entry(Builtin::AfficherErr, "afficherErr"));
    r.push(builtin_entry(Builtin::TypeDe, "typeDe"));
    r.push(builtin_entry(Builtin::TailleDe, "tailleDe"));
    r.push(builtin_entry(Builtin::Suite, "suite"));
    r.push(builtin_entry(Builtin::Abs, "abs"));
    r.push(builtin_entry(Builtin::Entier, "entier"));
    r.push(builtin_entry(Builtin::DecimalAccent, "décimal"));
    r.push(builtin_entry(Builtin::Decimal, "decimal"));
    r.push(builtin_entry(Builtin::Texte, "texte"));
    r.push(builtin_entry(Builtin::Erreur, "erreur"));
    assert forall|i: int| 0 <= i < r@.len() implies is_builtin_entry(#[trigger] r@[i], all_builtins()[i]) by {
        assert(all_builtins()[i] == seq![
            Builtin::Afficher,
            Builtin::AfficherErr,
            Builtin::TypeDe,
            Builtin::TailleDe,
            Builtin::Suite,
            Builtin::Abs,
            Builtin::Entier,
            Builtin::DecimalAccent,
            Builtin::Decimal,
            Builtin::Texte,
            Builtin::Erreur,
        ][i]);
    }
    r
}

/// The type `tailleDe` takes: a list or a text.
pub open spec fn sized_type() -> TypeV {
    TypeV::Union(seq![TypeV::Liste(Box::new(TypeV::Tout)), TypeV::Texte])
}

/// Exactly lists and texts have a size.
pub proof fn lemma_sized_values(v: Value)
    ensures
        type_matches(sized_type(), value_type(v)) <==> (v is Texte || v is Liste),
{
    let ts = seq![TypeV::Liste(Box::new(TypeV::Tout)), TypeV::Texte];
    let o = value_type(v);
    assert(ts.subrange(0, 1) =~= seq![TypeV::Liste(Box::new(TypeV::Tout))]);
    assert(ts.subrange(0, 1).subrange(0, 0) =~= Seq::<TypeV>::empty());
    assert(crate::value::any_matches(ts, o) == (crate::value::any_matches(ts.subrange(0, 1), o) || type_matches(TypeV::Texte, o)));
    assert(crate::value::any_matches(ts.subrange(0, 1), o) == (crate::value::any_matches(ts.subrange(0, 1).subrange(0, 0), o) || type_matches(TypeV::Liste(Box::new(TypeV::Tout)), o)));
    if v is Liste {
        assert(type_matches(TypeV::Liste(Box::new(TypeV::Tout)), o));
    }
}

/// `tailleDe(obj)`: the number of bytes of a text, the number of items of a
/// list; any other value is refused as an argument of the wrong type.
pub fn taille_de(obj: &Value) -> (r: Result<Value, RuntimeError>)
    ensures
        call_outcome_taille(*obj, r),
{
    proof {
        lemma_sized_values(*obj);
    }
    let expected = Type::iterable();
    let got = obj.get_type();
    if !Type::type_match(&expected, &got) {
        return Err(RuntimeError::invalid_arg_type("tailleDe", "obj", expected, got));
    }
    match obj {
        Value::Texte(t) => Ok(Value::Entier(t.as_str().len() as i64)),
        Value::Liste(l) => Ok(Value::Entier(l.len() as i64)),
        _ => {
            proof {
                lemma_sized_values(*obj);
            }
            assert(false);
            Ok(Value::Nul)
        },
    }
}

/// The integers from `debut` up to `fin`, `fin` excluded.
pub open spec fn int_range(debut: i64, fin: i64) -> Seq<Value> {
    Seq::new(if fin > debut { (fin - debut) as nat } else { 0 }, |k: int| Value::Entier((debut + k) as i64))
}

/// `suite(debut, fin)`: the list of the integers from `debut` up to `fin`,
/// `fin` excluded; both must be integers.
pub fn suite(debut: &Value, fin: &Value) -> (r: Result<Value, RuntimeError>)
    ensures
        call_outcome_suite(*debut, *fin, r),
{
    let d = match debut {
        Value::Entier(d) => *d,
        _ => {
            return Err(RuntimeError::invalid_arg_type("suite", "debut", Type::Entier, debut.get_type()));
        },
    };
    let f = match fin {
        Value::Entier(f) => *f,
        _ => {
            return Err(RuntimeError::invalid_arg_type("suite", "fin", Type::Entier, fin.get_type()));
        },
    };
    let mut items: Vec<Value> = Vec::new();
    let mut i: i64 = d;
    while i < f
        invariant
            d <= i,
            f > d ==> i <= f,
            f <= d ==> i == d,
            items@ == int_range(d, i),
        decreases f - i,
    {
        items.push(Value::Entier(i));
        i = i + 1;
        assert(items@ =~= int_range(d, i));
    }
    assert(items@ =~= int_range(d, f)) by {
        if f <= d {
            assert(int_range(d, i) =~= int_range(d, f));
        }
    }
    Ok(Value::Liste(Arc::new(items)))
}

/// Runs a builtin that needs neither input nor output, nor decimals, nor the
/// display of a value: `tailleDe`, `suite`, `abs` of an integer and
/// `typeDe` of a value other than `nul`. Any other call gives `None`, for the
/// program driving the machine to run.
pub fn run_builtin(call: &NativeCall) -> (r: Option<Result<Value, RuntimeError>>)
    requires
        call.function.builtin is TailleDe ==> call.args@.len() >= 1,
        call.function.builtin is Suite ==> call.args@.len() >= 2,
        call.function.builtin is Abs ==> call.args@.len() >= 1 && (call.args@[0] matches Value::Entier(i) ==> i
            != i64::MIN),
        call.function.builtin is TypeDe ==> call.args@.len() >= 1,
    ensures
        call.function.builtin is TailleDe ==> (r matches Some(res) && call_outcome_taille(call.args@[0], res)),
        call.function.builtin is Suite ==> (r matches Some(res) && call_outcome_suite(call.args@[0], call.args@[1], res)),
        call.function.builtin is Abs ==> call_outcome_abs(call.args@[0], r),
        call.function.builtin is TypeDe ==> if call.args@[0] is Nul {
            r is None
        } else {
            r matches Some(Ok(Value::TypeObj(t))) && t@ == value_type(call.args@[0])
        },
        !(call.function.builtin is TailleDe || call.function.builtin is Suite || call.function.builtin is Abs
            || call.function.builtin is TypeDe) ==> r is None,
{
    match call.function.builtin {
        Builtin::TailleDe => Some(taille_de(&call.args[0])),
        Builtin::Suite => Some(suite(&call.args[0], &call.args[1])),
        Builtin::Abs => abs_of(&call.args[0]),
        Builtin::TypeDe => match &call.args[0] {
            Value::Nul => None,
            v => Some(Ok(Value::TypeObj(Arc::new(v.get_type())))),
        },
        _ => None,
    }
}

/// What `tailleDe` gives for `obj`.
pub open spec fn call_outcome_taille(obj: Value, r: Result<Value, RuntimeError>) -> bool {
    match obj {
        Value::Texte(t) => r == Ok::<Value, RuntimeError>(Value::Entier(encode_utf8(t@).len() as usize as i64)),
        Value::Liste(l) => r == Ok::<Value, RuntimeError>(Value::Entier(l@.len() as i64)),
        _ => r matches Err(RuntimeError::TypeError(m)) && m@ == invalid_arg_type_msg(
            "tailleDe"@,
            "obj"@,
            type_str(sized_type()),
            type_str(value_type(obj)),
        ),
    }
}

/// What `suite` gives for `debut` and `fin`.
pub open spec fn call_outcome_suite(debut: Value, fin: Value, r: Result<Value, RuntimeError>) -> bool {
    &&& !(debut is Entier) ==> (r matches Err(RuntimeError::TypeError(m)) && m@ == invalid_arg_type_msg(
        "suite"@,
        "debut"@,
        type_str(TypeV::Entier),
        type_str(value_type(debut)),
    ))
    &&& debut is Entier && !(fin is Entier) ==> (r matches Err(RuntimeError::TypeError(m)) && m@
        == invalid_arg_type_msg("suite"@, "fin"@, type_str(TypeV::Entier), type_str(value_type(fin))))
    &&& debut is Entier && fin is Entier ==> (r matches Ok(Value::Liste(l)) && l@ == int_range(
        debut->Entier_0,
        fin->Entier_0,
    ))
}

/// The type `abs` takes: a number.
pub open spec fn number_type() -> TypeV {
    TypeV::Union(seq![TypeV::Entier, TypeV::Decimal])
}

/// Exactly integers and decimals are numbers.
pub proof fn lemma_number_values(v: Value)
    ensures
        type_matches(number_type(), value_type(v)) <==> (v is Entier || v is Decimal),
{
    let ts = seq![TypeV::Entier, TypeV::Decimal];
    let o = value_type(v);
    assert(ts.subrange(0, 1) =~= seq![TypeV::Entier]);
    assert(ts.subrange(0, 1).subrange(0, 0) =~= Seq::<TypeV>::empty());
    assert(crate::value::any_matches(ts, o) == (crate::value::any_matches(ts.subrange(0, 1), o) || type_matches(TypeV::Decimal, o)));
    assert(crate::value::any_matches(ts.subrange(0, 1), o) == (crate::value::any_matches(ts.subrange(0, 1).subrange(0, 0), o) || type_matches(TypeV::Entier, o)));
}

/// What `abs` gives for `val`, where the library computes it: the absolute
/// value of an integer, or the error of an argument that is not a number.
/// A decimal is left to the program driving the machine.
pub open spec fn call_outcome_abs(val: Value, r: Option<Result<Value, RuntimeError>>) -> bool {
    match val {
        Value::Entier(i) => r == Some(Ok::<Value, RuntimeError>(Value::Entier((if i < 0 { -i } else { i as int }) as i64))),
        Value::Decimal(_) => r is None,
        _ => r matches Some(Err(RuntimeError::TypeError(m))) && m@ == invalid_arg_type_msg(
            "abs"@,
            "val"@,
            type_str(number_type()),
            type_str(value_type(val)),
        ),
    }
}

/// `abs(val)`.
pub fn abs_of(val: &Value) -> (r: Option<Result<Value, RuntimeError>>)
    requires
        *val matches Value::Entier(i) ==> i != i64::MIN,
    ensures
        call_outcome_abs(*val, r),
{
    proof {
        lemma_number_values(*val);
    }
    let expected = Type::nombre();
    let got = val.get_type();
    if !Type::type_match(&expected, &got) {
        return Some(Err(RuntimeError::invalid_arg_type("abs", "val", expected, got)));
    }
    match val {
        Value::Entier(i) => Some(Ok(Value::Entier(if *i < 0 { -*i } else { *i }))),
        _ => None,
    }
}

} // verus!
