//! Runtime values and the captured variables of closures.
use vstd::prelude::*;

use std::sync::Arc;

use crate::value::{
    ASModule, ASObjet, ASStructure, ClosureInst, ClosureMethod, ClosureProto, Type, TypeV,
};

verus! {

/// Where a closure finds one of its captured variables: a local slot of the
/// enclosing function, or a captured variable of the enclosing function.
#[derive(Debug, Clone, Copy, PartialEq, Eq, Structural)]
pub enum UpvalueSpec {
    Local(usize),
    Upvalue(usize),
}

/// A captured variable: still on the stack at a slot, or closed over a value.
#[derive(Debug)]
pub enum UpvalueLocation {
    Open(usize),
    Closed(Value),
}

#[derive(Debug)]
pub struct Upvalue {
    pub location: UpvalueLocation,
}

/// A captured variable, by its place among the machine's captured
/// variables: closures that capture the same variable hold the same place.
pub type UpvalueId = usize;

/// The functions that every program finds bound as globals.
#[derive(Debug, Clone, Copy, PartialEq, Eq, Structural)]
pub enum Builtin {
    /// `afficher(*valeurs)`: shows its arguments on one line.
    Afficher,
    /// `afficherErr(msg)`: shows a message on the error output.
    AfficherErr,
    /// `typeDe(obj)`: the type of a value.
    TypeDe,
    /// `tailleDe(obj)`: the size of a text or a list.
    TailleDe,
    /// `suite(debut, fin)`: the integers from `debut` up to `fin`, excluded.
    Suite,
    /// `abs(val)`: the absolute value of a number.
    Abs,
    /// `entier(val)`: a number or a text as an integer.
    Entier,
    /// `décimal(val)`: a number or a text as a decimal.
    DecimalAccent,
    /// `decimal(val)`: the same as `décimal`.
    Decimal,
    /// `texte(val)`: a value as text.
    Texte,
    /// `erreur(msg)`: fails with a message.
    Erreur,
}

/// A function provided by the machine itself rather than compiled from a
/// script.
#[derive(Debug)]
pub struct NativeFunction {
    pub name: String,
    pub builtin: Builtin,
}

/// A callable value.
#[derive(Debug)]
pub enum Function {
    ClosureProto(Arc<ClosureProto>),
    ClosureInst(Arc<ClosureInst>),
    ClosureMethod(Arc<ClosureMethod>),
    NativeFunction(Arc<NativeFunction>),
}

/// A runtime value. A decimal number is held as the text it is written with:
/// the library does no arithmetic on it.
#[derive(Debug)]
pub enum Value {
    Nul,
    Entier(i64),
    Decimal(String),
    Booleen(bool),
    Texte(String),
    Liste(Arc<Vec<Value>>),
    Function(Function),
    Module(Arc<ASModule>),
    Objet(Arc<ASObjet>),
    Structure(Arc<ASStructure>),
    /// A type, as a value.
    TypeObj(Arc<Type>),
}

impl Function {
    /// A copy of this function value, sharing what it points to.
    pub fn copy(&self) -> (r: Function)
        ensures
            r == *self,
    {
        match self {
            Function::ClosureProto(c) => Function::ClosureProto(Arc::clone(c)),
            Function::ClosureInst(c) => Function::ClosureInst(Arc::clone(c)),
            Function::ClosureMethod(c) => Function::ClosureMethod(Arc::clone(c)),
            Function::NativeFunction(f) => Function::NativeFunction(Arc::clone(f)),
        }
    }
}

/// The type of a value.
pub open spec fn value_type(v: Value) -> TypeV {
    match v {
        Value::Nul => TypeV::Nul,
        Value::Entier(_) => TypeV::Entier,
        Value::Decimal(_) => TypeV::Decimal,
        Value::Booleen(_) => TypeV::Booleen,
        Value::Texte(_) => TypeV::Texte,
        Value::Liste(_) => TypeV::Liste(Box::new(TypeV::Tout)),
        Value::Function(_) => TypeV::Fonction,
        Value::Module(m) => TypeV::Module(m.name@),
        Value::Objet(o) => TypeV::Objet(o.structure.name@),
        Value::Structure(_) => TypeV::Type,
        Value::TypeObj(_) => TypeV::Type,
    }
}

/// Whether the constant pool may hold `a` once for both: literals of one
/// type that are equal. Other values are never merged.
pub open spec fn same_constant(a: Value, b: Value) -> bool {
    match (a, b) {
        (Value::Nul, Value::Nul) => true,
        (Value::Entier(x), Value::Entier(y)) => x == y,
        (Value::Decimal(x), Value::Decimal(y)) => x@ == y@,
        (Value::Booleen(x), Value::Booleen(y)) => x == y,
        (Value::Texte(x), Value::Texte(y)) => x@ == y@,
        _ => false,
    }
}

impl Value {
    /// Whether the constant pool may hold this value once for both.
    pub fn same_constant(&self, other: &Value) -> (r: bool)
        ensures
            r == same_constant(*self, *other),
    {
        match (self, other) {
            (Value::Nul, Value::Nul) => true,
            (Value::Entier(x), Value::Entier(y)) => *x == *y,
            (Value::Decimal(x), Value::Decimal(y)) => *x == *y,
            (Value::Booleen(x), Value::Booleen(y)) => *x == *y,
            (Value::Texte(x), Value::Texte(y)) => *x == *y,
            _ => false,
        }
    }

    /// A copy of this value, sharing what it points to (lists, modules,
    /// objects, structures, functions).
    pub fn copy(&self) -> (r: Value)
        ensures
            r == *self,
    {
        match self {
            Value::Nul => Value::Nul,
            Value::Entier(i) => Value::Entier(*i),
            Value::Decimal(s) => Value::Decimal(s.clone()),
            Value::Booleen(b) => Value::Booleen(*b),
            Value::Texte(s) => Value::Texte(s.clone()),
            Value::Liste(l) => Value::Liste(Arc::clone(l)),
            Value::Function(f) => Value::Function(f.copy()),
            Value::Module(m) => Value::Module(Arc::clone(m)),
            Value::Objet(o) => Value::Objet(Arc::clone(o)),
            Value::Structure(s) => Value::Structure(Arc::clone(s)),
            Value::TypeObj(t) => Value::TypeObj(Arc::clone(t)),
        }
    }

    /// The type of this value.
    pub fn get_type(&self) -> (t: Type)
        ensures
            t@ == value_type(*self),
    {
        match self {
            Value::Nul => Type::Nul,
            Value::Entier(_) => Type::Entier,
            Value::Decimal(_) => Type::Decimal,
            Value::Booleen(_) => Type::Booleen,
            Value::Texte(_) => Type::Texte,
            Value::Liste(_) => Type::liste_tout(),
            Value::Function(_) => Type::Fonction,
            Value::Module(m) => Type::Module(m.name.clone()),
            Value::Objet(o) => Type::Objet(o.structure.name.clone()),
            Value::Structure(_) => Type::Type,
            Value::TypeObj(_) => Type::Type,
        }
    }
}

/// Two values share a slot of the constant pool only when they are the same
/// literal: booleans and integers that are equal, texts and decimals written
/// alike, or two `nul`; lists, functions, modules, objects, structures and
/// types never do. Every literal may share a slot with itself.
pub proof fn lemma_shared_constants_are_equal(a: Value, b: Value)
    ensures
        same_constant(a, b) && a is Booleen ==> a == b,
        same_constant(a, b) && a is Entier ==> a == b,
        same_constant(a, b) && a is Nul ==> b is Nul,
        same_constant(a, b) && a is Texte ==> b is Texte && a->Texte_0@ == b->Texte_0@,
        same_constant(a, b) && a is Decimal ==> b is Decimal && a->Decimal_0@ == b->Decimal_0@,
        same_constant(a, b) ==> !(a is Liste || a is Function || a is Module || a is Objet || a is Structure
            || a is TypeObj),
        (a is Nul || a is Entier || a is Booleen || a is Texte || a is Decimal) ==> same_constant(a, a),
{
}

/// The type of a value names its own kind: only an integer has the type
/// `entier`, only a decimal `décimal`, only a boolean `booléen`, only a text
/// `texte`, only `nul` the type `nul`, only a function `fonction`; and the
/// integer and decimal types are written `entier` and `décimal`.
pub proof fn lemma_value_type_names_its_kind(v: Value)
    ensures
        (value_type(v) == TypeV::Entier) == (v is Entier),
        (value_type(v) == TypeV::Decimal) == (v is Decimal),
        (value_type(v) == TypeV::Booleen) == (v is Booleen),
        (value_type(v) == TypeV::Texte) == (v is Texte),
        (value_type(v) == TypeV::Nul) == (v is Nul),
        (value_type(v) == TypeV::Fonction) == (v is Function),
        crate::value::type_str(TypeV::Decimal) == "décimal"@,
        crate::value::type_str(TypeV::Entier) == "entier"@,
{
}

} // verus!
