//! Static types of the compiler and the runtime values that carry them.
use vstd::prelude::*;

use std::sync::Arc;

use crate::err::{invalid_field_msg, CompilationErrorKind, RuntimeError};
use crate::obj::{value_type, UpvalueId, Function, UpvalueSpec, Value};
use crate::text::{
    join, lemma_seq_le_trans, lemma_seq_less_order, seq_less, str_eq, string_less, string_views,
};

verus! {

/// A static type of the language.
#[derive(Debug)]
pub enum Type {
    /// Every type but [`Type::Rien`] and [`Type::Nul`].
    Tout,
    /// What a function that returns nothing returns.
    Rien,
    /// The absence of a value.
    Nul,
    Entier,
    Decimal,
    Booleen,
    Texte,
    Liste(Box<Type>),
    Fonction,
    Module(String),
    Objet(String),
    Struct(StructType),
    Union(Vec<Type>),
    Array(Vec<Type>),
    Optional(Box<Type>),
    Type,
}

/// A structure type: its name and the types of its fields. A name listed
/// twice stands for its last entry.
#[derive(Debug)]
pub struct StructType {
    pub name: String,
    pub fields: Vec<(String, Type)>,
}

/// The mathematical value of a [`Type`]: names as character sequences and the
/// fields of a structure as a map.
pub enum TypeV {
    Tout,
    Rien,
    Nul,
    Entier,
    Decimal,
    Booleen,
    Texte,
    Liste(Box<TypeV>),
    Fonction,
    Module(Seq<char>),
    Objet(Seq<char>),
    Struct(Seq<char>, Map<Seq<char>, TypeV>),
    Union(Seq<TypeV>),
    Array(Seq<TypeV>),
    Optional(Box<TypeV>),
    Type,
}

/// The value of a type.
pub open spec fn type_view(t: Type) -> TypeV
    decreases t,
{
    match t {
        Type::Tout => TypeV::Tout,
        Type::Rien => TypeV::Rien,
        Type::Nul => TypeV::Nul,
        Type::Entier => TypeV::Entier,
        Type::Decimal => TypeV::Decimal,
        Type::Booleen => TypeV::Booleen,
        Type::Texte => TypeV::Texte,
        Type::Liste(b) => TypeV::Liste(Box::new(type_view(*b))),
        Type::Fonction => TypeV::Fonction,
        Type::Module(s) => TypeV::Module(s@),
        Type::Objet(s) => TypeV::Objet(s@),
        Type::Struct(st) => TypeV::Struct(st.name@, fields_view(st.fields@)),
        Type::Union(ts) => TypeV::Union(types_view(ts@)),
        Type::Array(ts) => TypeV::Array(types_view(ts@)),
        Type::Optional(b) => TypeV::Optional(Box::new(type_view(*b))),
        Type::Type => TypeV::Type,
    }
}

/// The values of a sequence of types.
pub open spec fn types_view(ts: Seq<Type>) -> Seq<TypeV>
    decreases ts,
{
    if ts.len() == 0 {
        Seq::empty()
    } else {
        types_view(ts.subrange(0, ts.len() - 1)).push(type_view(ts[ts.len() - 1]))
    }
}

/// The fields of a structure as a map; a later entry overrides an earlier one.
pub open spec fn fields_view(fs: Seq<(String, Type)>) -> Map<Seq<char>, TypeV>
    decreases fs,
{
    if fs.len() == 0 {
        Map::empty()
    } else {
        let last = fs[fs.len() - 1];
        fields_view(fs.subrange(0, fs.len() - 1)).insert(last.0@, type_view(last.1))
    }
}

impl View for Type {
    type V = TypeV;

    open spec fn view(&self) -> TypeV {
        type_view(*self)
    }
}

/// The view of a sequence of types is taken element by element.
pub proof fn lemma_types_view(ts: Seq<Type>)
    ensures
        types_view(ts).len() == ts.len(),
        forall|i: int| 0 <= i < ts.len() ==> #[trigger] types_view(ts)[i] == type_view(ts[i]),
    decreases ts.len(),
{
    if ts.len() > 0 {
        let p = ts.subrange(0, ts.len() - 1);
        lemma_types_view(p);
        assert forall|i: int| 0 <= i < ts.len() implies #[trigger] types_view(ts)[i] == type_view(ts[i]) by {
            if i < ts.len() - 1 {
                assert(p[i] == ts[i]);
            }
        }
    }
}

/// Index of the last entry of `fs` named `k`, if any.
pub open spec fn last_index(fs: Seq<(String, Type)>, k: Seq<char>) -> int
    decreases fs.len(),
{
    if fs.len() == 0 {
        -1
    } else if fs[fs.len() - 1].0@ == k {
        fs.len() - 1
    } else {
        last_index(fs.subrange(0, fs.len() - 1), k)
    }
}

/// A name is a field exactly when some entry carries it, and its type is the
/// one of its last entry.
pub proof fn lemma_fields_view(fs: Seq<(String, Type)>, k: Seq<char>)
    ensures
        -1 <= last_index(fs, k) < fs.len(),
        fields_view(fs).dom().contains(k) <==> last_index(fs, k) >= 0,
        last_index(fs, k) >= 0 ==> fs[last_index(fs, k)].0@ == k && fields_view(fs)[k] == type_view(
            fs[last_index(fs, k)].1,
        ),
        last_index(fs, k) >= 0 ==> forall|j: int| last_index(fs, k) < j < fs.len() ==> fs[j].0@ != k,
        last_index(fs, k) < 0 ==> forall|j: int| 0 <= j < fs.len() ==> fs[j].0@ != k,
    decreases fs.len(),
{
    if fs.len() > 0 {
        let p = fs.subrange(0, fs.len() - 1);
        lemma_fields_view(p, k);
        if fs[fs.len() - 1].0@ != k {
            assert forall|j: int| last_index(fs, k) < j < fs.len() && last_index(fs, k) >= 0 implies fs[j].0@ != k by {
                if j < fs.len() - 1 {
                    assert(p[j] == fs[j]);
                }
            }
            assert forall|j: int| 0 <= j < fs.len() && last_index(fs, k) < 0 implies fs[j].0@ != k by {
                if j < fs.len() - 1 {
                    assert(p[j] == fs[j]);
                }
            }
        }
    }
}


/// Two field lists that agree entry by entry (names and type values) have the
/// same map.
pub proof fn lemma_fields_view_congruent(a: Seq<(String, Type)>, b: Seq<(String, Type)>)
    requires
        a.len() == b.len(),
        forall|i: int| 0 <= i < a.len() ==> (#[trigger] a[i]).0@ == b[i].0@ && type_view(a[i].1) == type_view(b[i].1),
    ensures
        fields_view(a) == fields_view(b),
    decreases a.len(),
{
    if a.len() > 0 {
        let pa = a.subrange(0, a.len() - 1);
        let pb = b.subrange(0, b.len() - 1);
        assert forall|i: int| 0 <= i < pa.len() implies (#[trigger] pa[i]).0@ == pb[i].0@ && type_view(pa[i].1) == type_view(pb[i].1) by {
            assert(pa[i] == a[i]);
            assert(pb[i] == b[i]);
        }
        lemma_fields_view_congruent(pa, pb);
        let la = a[a.len() - 1];
        let lb = b[b.len() - 1];
        assert(la.0@ == lb.0@ && type_view(la.1) == type_view(lb.1));
    }
}

/// Two type lists that agree element by element have the same value.
pub proof fn lemma_types_view_congruent(a: Seq<Type>, b: Seq<Type>)
    requires
        a.len() == b.len(),
        forall|i: int| 0 <= i < a.len() ==> type_view(#[trigger] a[i]) == type_view(b[i]),
    ensures
        types_view(a) == types_view(b),
{
    lemma_types_view(a);
    lemma_types_view(b);
    assert(types_view(a) =~= types_view(b));
}

impl Type {
    /// A copy of this type.
    pub fn copy(&self) -> (r: Type)
        ensures
            r@ == self@,
        decreases self,
    {
        match self {
            Type::Tout => Type::Tout,
            Type::Rien => Type::Rien,
            Type::Nul => Type::Nul,
            Type::Entier => Type::Entier,
            Type::Decimal => Type::Decimal,
            Type::Booleen => Type::Booleen,
            Type::Texte => Type::Texte,
            Type::Liste(b) => Type::Liste(Box::new((**b).copy())),
            Type::Fonction => Type::Fonction,
            Type::Module(s) => Type::Module(s.clone()),
            Type::Objet(s) => Type::Objet(s.clone()),
            Type::Struct(st) => Type::Struct(StructType { name: st.name.clone(), fields: copy_fields(&st.fields) }),
            Type::Union(ts) => Type::Union(copy_types(ts)),
            Type::Array(ts) => Type::Array(copy_types(ts)),
            Type::Optional(b) => Type::Optional(Box::new((**b).copy())),
            Type::Type => Type::Type,
        }
    }

    /// Whether the two types are equal (`==`).
    pub fn eq(&self, other: &Type) -> (r: bool)
        ensures
            r == (self@ == other@),
        decreases self,
    {
        match (self, other) {
            (Type::Tout, Type::Tout) => true,
            (Type::Rien, Type::Rien) => true,
            (Type::Nul, Type::Nul) => true,
            (Type::Entier, Type::Entier) => true,
            (Type::Decimal, Type::Decimal) => true,
            (Type::Booleen, Type::Booleen) => true,
            (Type::Texte, Type::Texte) => true,
            (Type::Liste(a), Type::Liste(b)) => (**a).eq(&**b),
            (Type::Fonction, Type::Fonction) => true,
            (Type::Module(a), Type::Module(b)) => *a == *b,
            (Type::Objet(a), Type::Objet(b)) => *a == *b,
            (Type::Struct(a), Type::Struct(b)) => {
                let same_name = a.name == b.name;
                same_name && fields_eq(&a.fields, &b.fields)
            },
            (Type::Union(a), Type::Union(b)) => types_eq(a, b),
            (Type::Array(a), Type::Array(b)) => types_eq(a, b),
            (Type::Optional(a), Type::Optional(b)) => (**a).eq(&**b),
            (Type::Type, Type::Type) => true,
            _ => false,
        }
    }
}

fn copy_types(ts: &Vec<Type>) -> (r: Vec<Type>)
    ensures
        r@.len() == ts@.len(),
        forall|i: int| 0 <= i < ts@.len() ==> type_view(#[trigger] r@[i]) == type_view(ts@[i]),
        types_view(r@) == types_view(ts@),
    decreases ts,
{
    let mut r: Vec<Type> = Vec::new();
    let mut i: usize = 0;
    while i < ts.len()
        invariant
            i <= ts@.len(),
            r@.len() == i,
            forall|j: int| 0 <= j < i ==> type_view(#[trigger] r@[j]) == type_view(ts@[j]),
        decreases ts@.len() - i,
    {
        proof { broadcast use vstd::std_specs::vec::axiom_vec_index_decreases; }
        assert(decreases_to!(ts => ts[i as int]));
        let c = ts[i].copy();
        r.push(c);
        i = i + 1;
    }
    proof { lemma_types_view_congruent(r@, ts@); }
    r
}

fn copy_fields(fs: &Vec<(String, Type)>) -> (r: Vec<(String, Type)>)
    ensures
        r@.len() == fs@.len(),
        forall|i: int| 0 <= i < fs@.len() ==> (#[trigger] r@[i]).0 == fs@[i].0 && type_view(r@[i].1) == type_view(fs@[i].1),
        fields_view(r@) == fields_view(fs@),
    decreases fs,
{
    let mut r: Vec<(String, Type)> = Vec::new();
    let mut i: usize = 0;
    while i < fs.len()
        invariant
            i <= fs@.len(),
            r@.len() == i,
            forall|j: int| 0 <= j < i ==> (#[trigger] r@[j]).0 == fs@[j].0 && type_view(r@[j].1) == type_view(fs@[j].1),
        decreases fs@.len() - i,
    {
        proof { broadcast use vstd::std_specs::vec::axiom_vec_index_decreases; }
        assert(decreases_to!(fs => fs[i as int].1));
        let k = fs[i].0.clone();
        let t = fs[i].1.copy();
        r.push((k, t));
        i = i + 1;
    }
    proof { lemma_fields_view_congruent(r@, fs@); }
    r
}

fn types_eq(a: &Vec<Type>, b: &Vec<Type>) -> (r: bool)
    ensures
        r == (types_view(a@) == types_view(b@)),
    decreases a,
{
    proof {
        lemma_types_view(a@);
        lemma_types_view(b@);
    }
    if a.len() != b.len() {
        return false;
    }
    let mut i: usize = 0;
    while i < a.len()
        invariant
            a@.len() == b@.len(),
            i <= a@.len(),
            types_view(a@).len() == a@.len(),
            types_view(b@).len() == b@.len(),
            forall|j: int| 0 <= j < a@.len() ==> #[trigger] types_view(a@)[j] == type_view(a@[j]),
            forall|j: int| 0 <= j < b@.len() ==> #[trigger] types_view(b@)[j] == type_view(b@[j]),
            forall|j: int| 0 <= j < i ==> type_view(#[trigger] a@[j]) == type_view(b@[j]),
        decreases a@.len() - i,
    {
        proof { broadcast use vstd::std_specs::vec::axiom_vec_index_decreases; }
        assert(decreases_to!(a => a[i as int]));
        if !a[i].eq(&b[i]) {
            assert(types_view(a@)[i as int] != types_view(b@)[i as int]);
            return false;
        }
        i = i + 1;
    }
    assert(types_view(a@) =~= types_view(b@));
    true
}

/// The index of the last entry of `fs` named `k`.
fn last_index_exec(fs: &Vec<(String, Type)>, k: &String) -> (r: Option<usize>)
    ensures
        match r {
            Some(i) => i == last_index(fs@, k@),
            None => last_index(fs@, k@) < 0,
        },
{
    let mut i = fs.len();
    assert(fs@.subrange(0, i as int) =~= fs@);
    while i > 0
        invariant
            i <= fs@.len(),
            last_index(fs@, k@) == last_index(fs@.subrange(0, i as int), k@),
        decreases i,
    {
        let ghost p = fs@.subrange(0, i as int);
        assert(p.subrange(0, p.len() - 1) =~= fs@.subrange(0, i - 1));
        if fs[i - 1].0 == *k {
            return Some(i - 1);
        }
        i = i - 1;
    }
    None
}

fn fields_eq(a: &Vec<(String, Type)>, b: &Vec<(String, Type)>) -> (r: bool)
    ensures
        r == (fields_view(a@) == fields_view(b@)),
    decreases a,
{
    let ghost ma = fields_view(a@);
    let ghost mb = fields_view(b@);
    let mut i: usize = 0;
    while i < a.len()
        invariant
            i <= a@.len(),
            ma == fields_view(a@),
            mb == fields_view(b@),
            forall|j: int|
                0 <= j < i ==> mb.dom().contains((#[trigger] a@[j]).0@) && ma[a@[j].0@] == mb[a@[j].0@],
        decreases a@.len() - i,
    {
        let k = &a[i].0;
        proof {
            lemma_fields_view(a@, k@);
            lemma_fields_view(b@, k@);
        }
        let ia = match last_index_exec(a, k) {
            Some(x) => x,
            None => { return false; },
        };
        let ib = match last_index_exec(b, k) {
            Some(x) => x,
            None => { return false; },
        };
        proof { broadcast use vstd::std_specs::vec::axiom_vec_index_decreases; }
        assert(decreases_to!(a => a[ia as int].1));
        if !a[ia].1.eq(&b[ib].1) {
            return false;
        }
        i = i + 1;
    }
    let mut j: usize = 0;
    while j < b.len()
        invariant
            j <= b@.len(),
            ma == fields_view(a@),
            mb == fields_view(b@),
            forall|x: int|
                0 <= x < a@.len() ==> mb.dom().contains((#[trigger] a@[x]).0@) && ma[a@[x].0@] == mb[a@[x].0@],
            forall|x: int| 0 <= x < j ==> ma.dom().contains((#[trigger] b@[x]).0@),
        decreases b@.len() - j,
    {
        let k = &b[j].0;
        proof {
            lemma_fields_view(a@, k@);
            lemma_fields_view(b@, k@);
        }
        if last_index_exec(a, k).is_none() {
            return false;
        }
        j = j + 1;
    }
    proof {
        assert forall|k: Seq<char>| ma.dom().contains(k) implies mb.dom().contains(k) && ma[k] == mb[k] by {
            lemma_fields_view(a@, k);
            let x = last_index(a@, k);
            assert(a@[x].0@ == k);
        }
        assert forall|k: Seq<char>| mb.dom().contains(k) implies ma.dom().contains(k) by {
            lemma_fields_view(b@, k);
            let x = last_index(b@, k);
            assert(b@[x].0@ == k);
        }
        assert forall|k: Seq<char>| #[trigger] ma.dom().contains(k) == mb.dom().contains(k) by {
            lemma_fields_view(a@, k);
            lemma_fields_view(b@, k);
            if ma.dom().contains(k) {
                let x = last_index(a@, k);
                assert(a@[x].0@ == k);
            }
            if mb.dom().contains(k) {
                let x = last_index(b@, k);
                assert(b@[x].0@ == k);
            }
        }
        assert(ma.dom() =~= mb.dom());
        assert(ma =~= mb);
    }
    true
}


/// How a type is written (its `Display` form).
pub open spec fn type_str(t: TypeV) -> Seq<char>
    decreases t,
{
    match t {
        TypeV::Tout => "tout"@,
        TypeV::Rien => "rien"@,
        TypeV::Nul => "nul"@,
        TypeV::Optional(b) => type_str(*b) + "?"@,
        TypeV::Entier => "entier"@,
        TypeV::Decimal => "décimal"@,
        TypeV::Booleen => "booléen"@,
        TypeV::Texte => "texte"@,
        TypeV::Liste(b) => "liste<"@ + type_str(*b) + ">"@,
        TypeV::Fonction => "fonction"@,
        TypeV::Union(ts) => join(types_str(ts), " | "@),
        TypeV::Array(ts) => "["@ + join(types_str(ts), ", "@) + "]"@,
        TypeV::Type => "type"@,
        TypeV::Module(n) => "module '"@ + n + "'"@,
        TypeV::Objet(n) => n,
        TypeV::Struct(n, _) => n,
    }
}

/// How each type of a sequence is written.
pub open spec fn types_str(ts: Seq<TypeV>) -> Seq<Seq<char>>
    decreases ts,
{
    if ts.len() == 0 {
        Seq::empty()
    } else {
        types_str(ts.subrange(0, ts.len() - 1)).push(type_str(ts[ts.len() - 1]))
    }
}

pub proof fn lemma_types_str(ts: Seq<TypeV>)
    ensures
        types_str(ts).len() == ts.len(),
        forall|i: int| 0 <= i < ts.len() ==> #[trigger] types_str(ts)[i] == type_str(ts[i]),
    decreases ts.len(),
{
    if ts.len() > 0 {
        let p = ts.subrange(0, ts.len() - 1);
        lemma_types_str(p);
        assert forall|i: int| 0 <= i < ts.len() implies #[trigger] types_str(ts)[i] == type_str(ts[i]) by {
            if i < ts.len() - 1 {
                assert(p[i] == ts[i]);
            }
        }
    }
}

impl Type {
    /// How this type is written (its `Display` form).
    pub fn to_string(&self) -> (s: String)
        ensures
            s@ == type_str(self@),
        decreases self,
    {
        match self {
            Type::Tout => String::from_str("tout"),
            Type::Rien => String::from_str("rien"),
            Type::Nul => String::from_str("nul"),
            Type::Optional(b) => {
                let mut s = (**b).to_string();
                s.append("?");
                s
            },
            Type::Entier => String::from_str("entier"),
            Type::Decimal => String::from_str("décimal"),
            Type::Booleen => String::from_str("booléen"),
            Type::Texte => String::from_str("texte"),
            Type::Liste(b) => {
                let mut s = String::from_str("liste<");
                let inner = (**b).to_string();
                s.append(inner.as_str());
                s.append(">");
                s
            },
            Type::Fonction => String::from_str("fonction"),
            Type::Union(ts) => {
                let parts = types_to_strings(ts);
                crate::text::join_strings(&parts, " | ")
            },
            Type::Array(ts) => {
                let parts = types_to_strings(ts);
                let mut s = String::from_str("[");
                let inner = crate::text::join_strings(&parts, ", ");
                s.append(inner.as_str());
                s.append("]");
                s
            },
            Type::Type => String::from_str("type"),
            Type::Module(n) => {
                let mut s = String::from_str("module '");
                s.append(n.as_str());
                s.append("'");
                s
            },
            Type::Objet(n) => n.clone(),
            Type::Struct(st) => st.name.clone(),
        }
    }
}

fn types_to_strings(ts: &Vec<Type>) -> (r: Vec<String>)
    ensures
        string_views(r@) == types_str(types_view(ts@)),
    decreases ts,
{
    proof {
        lemma_types_view(ts@);
        lemma_types_str(types_view(ts@));
    }
    let ghost target = types_str(types_view(ts@));
    let mut r: Vec<String> = Vec::new();
    let mut i: usize = 0;
    while i < ts.len()
        invariant
            i <= ts@.len(),
            r@.len() == i,
            target == types_str(types_view(ts@)),
            target.len() == ts@.len(),
            forall|j: int| 0 <= j < ts@.len() ==> #[trigger] target[j] == type_str(type_view(ts@[j])),
            forall|j: int| 0 <= j < i ==> (#[trigger] r@[j])@ == target[j],
        decreases ts@.len() - i,
    {
        proof { broadcast use vstd::std_specs::vec::axiom_vec_index_decreases; }
        assert(decreases_to!(ts => ts[i as int]));
        let t = ts[i].to_string();
        r.push(t);
        i = i + 1;
    }
    assert(string_views(r@) =~= target);
    r
}


/// Size of a type, counting nested types (a measure for recursion).
pub open spec fn tsize(t: TypeV) -> nat
    decreases t,
{
    match t {
        TypeV::Liste(b) => 1 + tsize(*b),
        TypeV::Optional(b) => 1 + tsize(*b),
        TypeV::Union(ts) => 1 + tsizes(ts),
        TypeV::Array(ts) => 1 + tsizes(ts),
        _ => 1,
    }
}

/// Total size of a sequence of types, each counted one more.
pub open spec fn tsizes(ts: Seq<TypeV>) -> nat
    decreases ts,
{
    if ts.len() == 0 {
        0
    } else {
        tsizes(ts.subrange(0, ts.len() - 1)) + tsize(ts[ts.len() - 1]) + 1
    }
}

pub proof fn lemma_tsizes(ts: Seq<TypeV>, i: int)
    requires
        0 <= i < ts.len(),
    ensures
        tsize(ts[i]) < tsizes(ts),
    decreases ts.len(),
{
    if i < ts.len() - 1 {
        let p = ts.subrange(0, ts.len() - 1);
        lemma_tsizes(p, i);
        assert(p[i] == ts[i]);
    }
}

/// Whether a value of type `t2` is accepted where `t1` is expected (and the
/// other way round, but for `décimal` accepting `entier`).
pub open spec fn type_matches(t1: TypeV, t2: TypeV) -> bool
    decreases tsize(t1) + tsize(t2),
{
    if t1 == t2 {
        true
    } else if t1 is Tout {
        !(t2 is Rien) && !(t2 is Nul)
    } else if t2 is Tout {
        !(t1 is Rien) && !(t1 is Nul)
    } else if let TypeV::Optional(t) = t1 {
        t2 is Nul || type_matches(*t, t2)
    } else if let TypeV::Optional(t) = t2 {
        t1 is Nul || type_matches(*t, t1)
    } else if let TypeV::Union(ts) = t1 {
        any_matches(ts, t2)
    } else if let TypeV::Union(ts) = t2 {
        any_matches(ts, t1)
    } else {
        match (t1, t2) {
            (TypeV::Liste(a), TypeV::Liste(b)) => type_matches(*a, *b),
            (TypeV::Liste(t), TypeV::Array(arr)) => all_match(arr, *t),
            (TypeV::Array(arr), TypeV::Liste(t)) => all_match(arr, *t),
            (TypeV::Array(a), TypeV::Array(b)) => a.len() == b.len() && pairwise_match(a, b),
            (TypeV::Decimal, TypeV::Entier) => true,
            _ => false,
        }
    }
}

/// Some type of `ts` matches `o`.
pub open spec fn any_matches(ts: Seq<TypeV>, o: TypeV) -> bool
    decreases tsizes(ts) + tsize(o),
{
    if ts.len() == 0 {
        false
    } else {
        any_matches(ts.subrange(0, ts.len() - 1), o) || type_matches(ts[ts.len() - 1], o)
    }
}

/// Every type of `ts` matches `o`.
pub open spec fn all_match(ts: Seq<TypeV>, o: TypeV) -> bool
    decreases tsizes(ts) + tsize(o),
{
    if ts.len() == 0 {
        true
    } else {
        all_match(ts.subrange(0, ts.len() - 1), o) && type_matches(ts[ts.len() - 1], o)
    }
}

/// The types of `a` match those of `b` rank by rank (for sequences of the
/// same length).
pub open spec fn pairwise_match(a: Seq<TypeV>, b: Seq<TypeV>) -> bool
    decreases tsizes(a) + tsizes(b),
{
    if a.len() == 0 || b.len() == 0 {
        true
    } else {
        pairwise_match(a.subrange(0, a.len() - 1), b.subrange(0, b.len() - 1)) && type_matches(
            a[a.len() - 1],
            b[b.len() - 1],
        )
    }
}

pub proof fn lemma_any_matches(ts: Seq<TypeV>, o: TypeV)
    ensures
        any_matches(ts, o) <==> exists|i: int| 0 <= i < ts.len() && type_matches(#[trigger] ts[i], o),
    decreases ts.len(),
{
    if ts.len() > 0 {
        let p = ts.subrange(0, ts.len() - 1);
        lemma_any_matches(p, o);
        if any_matches(p, o) {
            let i = choose|i: int| 0 <= i < p.len() && type_matches(#[trigger] p[i], o);
            assert(ts[i] == p[i]);
        }
        if exists|i: int| 0 <= i < ts.len() && type_matches(#[trigger] ts[i], o) {
            let i = choose|i: int| 0 <= i < ts.len() && type_matches(#[trigger] ts[i], o);
            if i < ts.len() - 1 {
                assert(ts[i] == p[i]);
            }
        }
    }
}

pub proof fn lemma_all_match(ts: Seq<TypeV>, o: TypeV)
    ensures
        all_match(ts, o) <==> forall|i: int| 0 <= i < ts.len() ==> type_matches(#[trigger] ts[i], o),
    decreases ts.len(),
{
    if ts.len() > 0 {
        let p = ts.subrange(0, ts.len() - 1);
        lemma_all_match(p, o);
        if all_match(ts, o) {
            assert forall|i: int| 0 <= i < ts.len() implies type_matches(#[trigger] ts[i], o) by {
                if i < ts.len() - 1 {
                    assert(ts[i] == p[i]);
                }
            }
        }
        if forall|i: int| 0 <= i < ts.len() ==> type_matches(#[trigger] ts[i], o) {
            assert forall|i: int| 0 <= i < p.len() implies type_matches(#[trigger] p[i], o) by {
                assert(ts[i] == p[i]);
            }
        }
    }
}

pub proof fn lemma_pairwise_match(a: Seq<TypeV>, b: Seq<TypeV>)
    requires
        a.len() == b.len(),
    ensures
        pairwise_match(a, b) <==> forall|i: int| 0 <= i < a.len() ==> type_matches(#[trigger] a[i], b[i]),
    decreases a.len(),
{
    if a.len() > 0 {
        let pa = a.subrange(0, a.len() - 1);
        let pb = b.subrange(0, b.len() - 1);
        lemma_pairwise_match(pa, pb);
        if pairwise_match(a, b) {
            assert forall|i: int| 0 <= i < a.len() implies type_matches(#[trigger] a[i], b[i]) by {
                if i < a.len() - 1 {
                    assert(a[i] == pa[i]);
                    assert(b[i] == pb[i]);
                }
            }
        }
        if forall|i: int| 0 <= i < a.len() ==> type_matches(#[trigger] a[i], b[i]) {
            assert forall|i: int| 0 <= i < pa.len() implies type_matches(#[trigger] pa[i], pb[i]) by {
                assert(a[i] == pa[i]);
                assert(b[i] == pb[i]);
            }
        }
    }
}

impl Type {
    /// Whether a value of type `type2` is accepted where `type1` is expected.
    pub fn type_match(type1: &Type, type2: &Type) -> (r: bool)
        ensures
            r == type_matches(type1@, type2@),
        decreases tsize(type1@) + tsize(type2@),
    {
        if type1.eq(type2) {
            return true;
        }
        if let Type::Tout = type1 {
            return !matches!(type2, Type::Rien) && !matches!(type2, Type::Nul);
        }
        if let Type::Tout = type2 {
            return !matches!(type1, Type::Rien) && !matches!(type1, Type::Nul);
        }
        if let Type::Optional(t) = type1 {
            return matches!(type2, Type::Nul) || Type::type_match(&**t, type2);
        }
        if let Type::Optional(t) = type2 {
            return matches!(type1, Type::Nul) || Type::type_match(&**t, type1);
        }
        if let Type::Union(ts) = type1 {
            return any_type_match(ts, type2);
        }
        if let Type::Union(ts) = type2 {
            return any_type_match(ts, type1);
        }
        match (type1, type2) {
            (Type::Liste(a), Type::Liste(b)) => Type::type_match(&**a, &**b),
            (Type::Liste(t), Type::Array(arr)) => all_type_match(arr, &**t),
            (Type::Array(arr), Type::Liste(t)) => all_type_match(arr, &**t),
            (Type::Array(a), Type::Array(b)) => {
                proof {
                    lemma_types_view(a@);
                    lemma_types_view(b@);
                }
                if a.len() != b.len() {
                    return false;
                }
                proof {
                    lemma_types_view(a@);
                    lemma_types_view(b@);
                    lemma_pairwise_match(types_view(a@), types_view(b@));
                }
                let mut i: usize = 0;
                while i < a.len()
                    invariant
                        a@.len() == b@.len(),
                        i <= a@.len(),
                        type1@ == TypeV::Array(types_view(a@)),
                        type2@ == TypeV::Array(types_view(b@)),
                        types_view(a@).len() == a@.len(),
                        types_view(b@).len() == b@.len(),
                        forall|j: int| 0 <= j < a@.len() ==> #[trigger] types_view(a@)[j] == type_view(a@[j]),
                        forall|j: int| 0 <= j < b@.len() ==> #[trigger] types_view(b@)[j] == type_view(b@[j]),
                        forall|j: int| 0 <= j < i ==> type_matches(type_view(#[trigger] a@[j]), type_view(b@[j])),
                    decreases a@.len() - i,
                {
                    proof {
                        lemma_tsizes(types_view(a@), i as int);
                        lemma_tsizes(types_view(b@), i as int);
                    }
                    if !Type::type_match(&a[i], &b[i]) {
                        assert(!type_matches(types_view(a@)[i as int], types_view(b@)[i as int]));
                        proof { lemma_pairwise_match(types_view(a@), types_view(b@)); }
                        return false;
                    }
                    i = i + 1;
                }
                assert forall|j: int| 0 <= j < a@.len() implies type_matches(#[trigger] types_view(a@)[j], types_view(b@)[j]) by {
                    assert(type_matches(type_view(a@[j]), type_view(b@[j])));
                }
                true
            },
            (Type::Decimal, Type::Entier) => true,
            _ => false,
        }
    }
}

/// Some type of `ts` matches `o`.
fn any_type_match(ts: &Vec<Type>, o: &Type) -> (r: bool)
    ensures
        r == any_matches(types_view(ts@), o@),
    decreases tsizes(types_view(ts@)) + tsize(o@),
{
    proof {
        lemma_types_view(ts@);
        lemma_any_matches(types_view(ts@), o@);
    }
    let ghost tv = types_view(ts@);
    let mut i: usize = 0;
    while i < ts.len()
        invariant
            i <= ts@.len(),
            tv == types_view(ts@),
            tv.len() == ts@.len(),
            forall|j: int| 0 <= j < ts@.len() ==> #[trigger] tv[j] == type_view(ts@[j]),
            forall|j: int| 0 <= j < i ==> !type_matches(#[trigger] tv[j], o@),
        decreases ts@.len() - i,
    {
        proof { lemma_tsizes(tv, i as int); }
        if Type::type_match(&ts[i], o) {
            assert(type_matches(tv[i as int], o@));
            proof { lemma_any_matches(tv, o@); }
            return true;
        }
        i = i + 1;
    }
    false
}

/// Every type of `ts` matches `o`.
fn all_type_match(ts: &Vec<Type>, o: &Type) -> (r: bool)
    ensures
        r == all_match(types_view(ts@), o@),
    decreases tsizes(types_view(ts@)) + tsize(o@),
{
    proof {
        lemma_types_view(ts@);
        lemma_all_match(types_view(ts@), o@);
    }
    let ghost tv = types_view(ts@);
    let mut i: usize = 0;
    while i < ts.len()
        invariant
            i <= ts@.len(),
            tv == types_view(ts@),
            tv.len() == ts@.len(),
            forall|j: int| 0 <= j < ts@.len() ==> #[trigger] tv[j] == type_view(ts@[j]),
            forall|j: int| 0 <= j < i ==> type_matches(#[trigger] tv[j], o@),
        decreases ts@.len() - i,
    {
        proof { lemma_tsizes(tv, i as int); }
        if !Type::type_match(&ts[i], o) {
            assert(!type_matches(tv[i as int], o@));
            proof { lemma_all_match(tv, o@); }
            return false;
        }
        i = i + 1;
    }
    true
}


/// Every type matches itself.
pub proof fn lemma_type_match_reflexive(t: TypeV)
    ensures
        type_matches(t, t),
{
}

/// `tout` takes in every type but `rien` and `nul`.
pub proof fn lemma_tout_takes_all_but_rien_nul(t: TypeV)
    ensures
        type_matches(TypeV::Tout, t) <==> !(t is Rien) && !(t is Nul),
{
}

/// Where `tout?` is expected, a value of every type is accepted but `rien`.
pub proof fn lemma_tout_accepts(t: TypeV)
    ensures
        type_matches(TypeV::Optional(Box::new(TypeV::Tout)), t) <==> !(t is Rien),
{
    if t != TypeV::Optional(Box::new(TypeV::Tout)) {
        assert(type_matches(TypeV::Tout, t) <==> !(t is Rien) && !(t is Nul));
    }
}

/// Where an optional type is expected, `nul` is accepted.
pub proof fn lemma_optional_accepts_nul(t: TypeV)
    ensures
        type_matches(TypeV::Optional(Box::new(t)), TypeV::Nul),
{
}

/// A list of `tout` accepts a list of any type but `rien` and `nul`.
pub proof fn lemma_liste_tout_accepts(t: TypeV)
    ensures
        type_matches(TypeV::Liste(Box::new(TypeV::Tout)), TypeV::Liste(Box::new(t))) <==> !(t is Rien) && !(t is Nul),
{
    if t != TypeV::Tout {
        assert(type_matches(TypeV::Tout, t) <==> !(t is Rien) && !(t is Nul));
    }
}

/// The members of a union list: a union among them stands for its own members.
pub open spec fn flatten(ts: Seq<TypeV>) -> Seq<TypeV>
    decreases ts.len(),
{
    if ts.len() == 0 {
        Seq::empty()
    } else {
        let last = ts.last();
        flatten(ts.drop_last()) + match last {
            TypeV::Union(us) => us,
            _ => seq![last],
        }
    }
}

/// `x` placed into `s` after every type whose name does not sort after its own.
pub open spec fn insert_by_name(s: Seq<TypeV>, x: TypeV) -> Seq<TypeV>
    decreases s.len(),
{
    if s.len() == 0 {
        seq![x]
    } else if seq_less(type_str(x), type_str(s.last())) {
        insert_by_name(s.drop_last(), x).push(s.last())
    } else {
        s.push(x)
    }
}

/// The types sorted by how they are written, equal names keeping their order.
pub open spec fn sort_by_name(s: Seq<TypeV>) -> Seq<TypeV>
    decreases s.len(),
{
    if s.len() == 0 {
        Seq::empty()
    } else {
        insert_by_name(sort_by_name(s.drop_last()), s.last())
    }
}

/// The types with each run of equal neighbours reduced to its first element.
pub open spec fn dedup(s: Seq<TypeV>) -> Seq<TypeV>
    decreases s.len(),
{
    if s.len() <= 1 {
        s
    } else {
        let r = dedup(s.drop_last());
        if s.last() == r.last() {
            r
        } else {
            r.push(s.last())
        }
    }
}

/// The members of the union of `ts`.
pub open spec fn union_members(ts: Seq<TypeV>) -> Seq<TypeV> {
    dedup(sort_by_name(flatten(ts)))
}

/// The union of `ts`: a single type stands for itself.
pub open spec fn spec_union(ts: Seq<TypeV>) -> TypeV {
    if ts.len() == 1 {
        ts[0]
    } else {
        TypeV::Union(union_members(ts))
    }
}

/// Whether a type is or contains `tout`.
pub open spec fn spec_is_tout(t: TypeV) -> bool
    decreases t,
{
    match t {
        TypeV::Union(ts) => ts.contains(TypeV::Tout),
        TypeV::Optional(b) => spec_is_tout(*b),
        _ => t is Tout,
    }
}

/// Inserting at the first position whose following types all sort after `x`
/// (and whose preceding type does not) is `insert_by_name`.
pub proof fn lemma_insert_at(s: Seq<TypeV>, x: TypeV, p: int)
    requires
        0 <= p <= s.len(),
        forall|j: int| p <= j < s.len() ==> seq_less(type_str(x), type_str(#[trigger] s[j])),
        p > 0 ==> !seq_less(type_str(x), type_str(s[p - 1])),
    ensures
        insert_by_name(s, x) == s.take(p).push(x) + s.skip(p),
    decreases s.len(),
{
    if s.len() == 0 {
        assert(s.take(p).push(x) + s.skip(p) =~= seq![x]);
    } else if p == s.len() {
        assert(s.take(p).push(x) + s.skip(p) =~= s.push(x));
    } else {
        let q = s.drop_last();
        assert forall|j: int| p <= j < q.len() implies seq_less(type_str(x), type_str(#[trigger] q[j])) by {
            assert(q[j] == s[j]);
        }
        if p > 0 {
            assert(q[p - 1] == s[p - 1]);
        }
        lemma_insert_at(q, x, p);
        assert(s.take(p).push(x) + s.skip(p) =~= (q.take(p).push(x) + q.skip(p)).push(s.last()));
    }
}

fn insert_sorted(v: &mut Vec<Type>, keys: &mut Vec<String>, x: Type, kx: String)
    requires
        old(keys)@.len() == old(v)@.len(),
        forall|i: int| 0 <= i < old(v)@.len() ==> (#[trigger] old(keys)@[i])@ == type_str(type_view(old(v)@[i])),
        kx@ == type_str(type_view(x)),
    ensures
        final(keys)@.len() == final(v)@.len(),
        forall|i: int| 0 <= i < final(v)@.len() ==> (#[trigger] final(keys)@[i])@ == type_str(type_view(final(v)@[i])),
        types_view(final(v)@) == insert_by_name(types_view(old(v)@), type_view(x)),
{
    let mut p = v.len();
    proof { lemma_types_view(v@); }
    let ghost sv = types_view(v@);
    while p > 0 && string_less(&kx, &keys[p - 1])
        invariant
            p <= v@.len(),
            v@ == old(v)@,
            keys@ == old(keys)@,
            sv == types_view(v@),
            sv.len() == v@.len(),
            keys@.len() == v@.len(),
            forall|i: int| 0 <= i < v@.len() ==> #[trigger] sv[i] == type_view(v@[i]),
            forall|i: int| 0 <= i < v@.len() ==> (#[trigger] keys@[i])@ == type_str(type_view(v@[i])),
            kx@ == type_str(type_view(x)),
            forall|j: int| p <= j < sv.len() ==> seq_less(type_str(type_view(x)), type_str(#[trigger] sv[j])),
        decreases p,
    {
        p = p - 1;
    }
    proof {
        if p > 0 {
            assert(keys@[p - 1]@ == type_str(sv[p - 1]));
        }
        lemma_insert_at(sv, type_view(x), p as int);
    }
    let ghost ov = v@;
    v.insert(p, x);
    keys.insert(p, kx);
    proof {
        lemma_types_view(v@);
        assert(types_view(v@) =~= sv.take(p as int).push(type_view(x)) + sv.skip(p as int)) by {
            assert forall|i: int| 0 <= i < v@.len() implies #[trigger] types_view(v@)[i] == (sv.take(p as int).push(type_view(x)) + sv.skip(p as int))[i] by {
                if i < p {
                    assert(v@[i] == ov[i]);
                } else if i > p {
                    assert(v@[i] == ov[i - 1]);
                }
            }
        }
        assert forall|i: int| 0 <= i < v@.len() implies (#[trigger] keys@[i])@ == type_str(type_view(v@[i])) by {
            if i < p {
                assert(v@[i] == ov[i]);
            } else if i > p {
                assert(v@[i] == ov[i - 1]);
            }
        }
    }
}

impl Type {
    pub fn liste_tout() -> (r: Type)
        ensures
            r@ == TypeV::Liste(Box::new(TypeV::Tout)),
    {
        let r = Type::Liste(Box::new(Type::Tout));
        proof { reveal_with_fuel(type_view, 2); }
        r
    }

    pub fn nombre() -> (r: Type)
        ensures
            r@ == TypeV::Union(seq![TypeV::Entier, TypeV::Decimal]),
    {
        let mut v: Vec<Type> = Vec::new();
        v.push(Type::Entier);
        v.push(Type::Decimal);
        proof { lemma_types_view(v@); }
        assert(types_view(v@) =~= seq![TypeV::Entier, TypeV::Decimal]);
        Type::Union(v)
    }

    pub fn iterable() -> (r: Type)
        ensures
            r@ == TypeV::Union(seq![TypeV::Liste(Box::new(TypeV::Tout)), TypeV::Texte]),
    {
        let mut v: Vec<Type> = Vec::new();
        v.push(Type::liste_tout());
        v.push(Type::Texte);
        proof { lemma_types_view(v@); }
        assert(types_view(v@) =~= seq![TypeV::Liste(Box::new(TypeV::Tout)), TypeV::Texte]);
        Type::Union(v)
    }

    pub fn iterable_ordonne() -> (r: Type)
        ensures
            r@ == TypeV::Union(seq![TypeV::Liste(Box::new(TypeV::Tout)), TypeV::Texte]),
    {
        Type::iterable()
    }

    /// The union of `types`: their members (a union standing for its own),
    /// sorted by how they are written, without repeated neighbours. A single
    /// type is returned as it is.
    pub fn union(types: Vec<Type>) -> (r: Type)
        ensures
            r@ == spec_union(types_view(types@)),
    {
        proof { lemma_types_view(types@); }
        if types.len() == 1 {
            let mut types = types;
            let t = types.pop().unwrap();
            return t;
        }
        // flatten
        let ghost tv = types_view(types@);
        let mut flat: Vec<Type> = Vec::new();
        let mut i: usize = 0;
        while i < types.len()
            invariant
                i <= types@.len(),
                tv == types_view(types@),
                tv.len() == types@.len(),
                forall|j: int| 0 <= j < types@.len() ==> #[trigger] tv[j] == type_view(types@[j]),
                types_view(flat@) == flatten(tv.take(i as int)),
            decreases types@.len() - i,
        {
            let ghost before = flat@;
            proof {
                assert(tv.take(i + 1).drop_last() =~= tv.take(i as int));
                assert(tv.take(i + 1).last() == tv[i as int]);
                lemma_types_view(before);
            }
            match &types[i] {
                Type::Union(us) => {
                    let mut j: usize = 0;
                    proof { lemma_types_view(us@); }
                    while j < us.len()
                        invariant
                            j <= us@.len(),
                            flat@.len() == before.len() + j,
                            forall|k: int| 0 <= k < before.len() ==> #[trigger] flat@[k] == before[k],
                            forall|k: int| 0 <= k < j ==> type_view(#[trigger] flat@[before.len() + k]) == type_view(us@[k]),
                        decreases us@.len() - j,
                    {
                        let c = us[j].copy();
                        flat.push(c);
                        j = j + 1;
                    }
                    proof {
                        lemma_types_view(flat@);
                        lemma_types_view(us@);
                        assert(types_view(flat@) =~= types_view(before) + types_view(us@)) by {
                            assert forall|k: int| 0 <= k < flat@.len() implies #[trigger] types_view(flat@)[k] == (types_view(before) + types_view(us@))[k] by {
                                if k >= before.len() {
                                    assert(type_view(flat@[before.len() + (k - before.len())]) == type_view(us@[k - before.len()]));
                                }
                            }
                        }
                    }
                },
                other => {
                    let c = other.copy();
                    flat.push(c);
                    proof {
                        lemma_types_view(flat@);
                        assert(types_view(flat@) =~= types_view(before) + seq![tv[i as int]]) by {
                            assert forall|k: int| 0 <= k < flat@.len() implies #[trigger] types_view(flat@)[k] == (types_view(before) + seq![tv[i as int]])[k] by {
                                if k < before.len() {
                                    assert(flat@[k] == before[k]);
                                }
                            }
                        }
                    }
                },
            }
            i = i + 1;
        }
        assert(tv.take(types@.len() as int) =~= tv);
        // sort by name, keeping the order of equal names
        let ghost fv = types_view(flat@);
        let mut sorted: Vec<Type> = Vec::new();
        let mut keys: Vec<String> = Vec::new();
        proof { lemma_types_view(flat@); }
        let mut k: usize = 0;
        while k < flat.len()
            invariant
                k <= flat@.len(),
                fv == types_view(flat@),
                fv.len() == flat@.len(),
                forall|j: int| 0 <= j < flat@.len() ==> #[trigger] fv[j] == type_view(flat@[j]),
                keys@.len() == sorted@.len(),
                forall|j: int| 0 <= j < sorted@.len() ==> (#[trigger] keys@[j])@ == type_str(type_view(sorted@[j])),
                types_view(sorted@) == sort_by_name(fv.take(k as int)),
            decreases flat@.len() - k,
        {
            let x = flat[k].copy();
            let kx = x.to_string();
            proof {
                assert(fv.take(k + 1).drop_last() =~= fv.take(k as int));
                assert(fv.take(k + 1).last() == fv[k as int]);
            }
            insert_sorted(&mut sorted, &mut keys, x, kx);
            k = k + 1;
        }
        assert(fv.take(flat@.len() as int) =~= fv);
        // remove repeated neighbours
        let ghost sv = types_view(sorted@);
        proof { lemma_types_view(sorted@); }
        let mut out: Vec<Type> = Vec::new();
        let mut m: usize = 0;
        while m < sorted.len()
            invariant
                m <= sorted@.len(),
                sv == types_view(sorted@),
                sv.len() == sorted@.len(),
                forall|j: int| 0 <= j < sorted@.len() ==> #[trigger] sv[j] == type_view(sorted@[j]),
                types_view(out@) == dedup(sv.take(m as int)),
                m > 0 ==> out@.len() > 0,
            decreases sorted@.len() - m,
        {
            let ghost before = out@;
            proof {
                lemma_types_view(out@);
                assert(sv.take(m + 1).drop_last() =~= sv.take(m as int));
                assert(sv.take(m + 1).last() == sv[m as int]);
            }
            let keep = if out.len() == 0 {
                true
            } else {
                let last = out.len() - 1;
                !sorted[m].eq(&out[last])
            };
            if keep {
                let c = sorted[m].copy();
                out.push(c);
                proof {
                    lemma_types_view(out@);
                    assert(types_view(out@) =~= types_view(before).push(sv[m as int])) by {
                        assert forall|j: int| 0 <= j < out@.len() implies #[trigger] types_view(out@)[j] == types_view(before).push(sv[m as int])[j] by {
                            if j < before.len() {
                                assert(out@[j] == before[j]);
                            }
                        }
                    }
                    if m == 0 {
                        assert(sv.take(1) =~= seq![sv[0]]);
                    }
                }
            } else {
                proof {
                    assert(types_view(before).last() == type_view(before[before.len() - 1]));
                }
            }
            m = m + 1;
        }
        assert(sv.take(sorted@.len() as int) =~= sv);
        Type::Union(out)
    }

    pub fn union_of(type1: Type, type2: Type) -> (r: Type)
        ensures
            r@ == spec_union(seq![type1@, type2@]),
    {
        let mut v: Vec<Type> = Vec::new();
        v.push(type1);
        v.push(type2);
        proof { lemma_types_view(v@); }
        assert(types_view(v@) =~= seq![v@[0]@, v@[1]@]);
        Type::union(v)
    }

    pub fn optional(type1: Type) -> (r: Type)
        ensures
            r@ == TypeV::Optional(Box::new(type1@)),
    {
        Type::Optional(Box::new(type1))
    }

    /// `tout?`: any value, or none.
    pub fn tout() -> (r: Type)
        ensures
            r@ == TypeV::Optional(Box::new(TypeV::Tout)),
    {
        Type::optional(Type::Tout)
    }

    pub fn is_tout(&self) -> (r: bool)
        ensures
            r == spec_is_tout(self@),
        decreases self,
    {
        match self {
            Type::Union(types) => {
                proof { lemma_types_view(types@); }
                let mut i: usize = 0;
                while i < types.len()
                    invariant
                        i <= types@.len(),
                        self@ == TypeV::Union(types_view(types@)),
                        types_view(types@).len() == types@.len(),
                        forall|j: int| 0 <= j < types@.len() ==> #[trigger] types_view(types@)[j] == type_view(types@[j]),
                        forall|j: int| 0 <= j < i ==> !(type_view(#[trigger] types@[j]) is Tout),
                    decreases types@.len() - i,
                {
                    if let Type::Tout = &types[i] {
                        assert(types_view(types@)[i as int] == TypeV::Tout);
                        assert(types_view(types@).contains(TypeV::Tout));
                        return true;
                    }
                    i = i + 1;
                }
                proof {
                    if types_view(types@).contains(TypeV::Tout) {
                        let j = choose|j: int| 0 <= j < types_view(types@).len() && types_view(types@)[j] == TypeV::Tout;
                        assert(type_view(types@[j]) is Tout);
                    }
                }
                false
            },
            Type::Optional(t) => (**t).is_tout(),
            Type::Tout => true,
            _ => false,
        }
    }

    pub fn is_primitif(&self) -> (r: bool)
        ensures
            r == (self@ is Entier || self@ is Decimal || self@ is Texte || self@ is Booleen
                || self@ is Nul || self@ is Optional),
    {
        matches!(
            self,
            Type::Entier | Type::Decimal | Type::Texte | Type::Booleen | Type::Nul | Type::Optional(_)
        )
    }

    /// The type that an absent annotation stands for: `tout?`.
    pub fn from_option(value: Option<Type>) -> (r: Type)
        ensures
            r@ == match value {
                Some(t) => t@,
                None => TypeV::Optional(Box::new(TypeV::Tout)),
            },
    {
        match value {
            Some(t) => t,
            None => Type::tout(),
        }
    }
}

impl StructType {
    pub fn new(name: String, fields: Vec<(String, Type)>) -> (r: StructType)
        ensures
            r.name == name,
            r.fields == fields,
    {
        StructType { name, fields }
    }
}


/// The types come in order of how they are written.
pub open spec fn sorted_by_name(s: Seq<TypeV>) -> bool {
    forall|i: int, j: int|
        0 <= i < j < s.len() ==> !seq_less(type_str(#[trigger] s[j]), type_str(#[trigger] s[i]))
}

/// `y` is `t`, or a member of `t` when `t` is a union.
pub open spec fn member_of(t: TypeV, y: TypeV) -> bool {
    match t {
        TypeV::Union(us) => us.contains(y),
        _ => t == y,
    }
}

proof fn lemma_flatten_contains(ts: Seq<TypeV>, y: TypeV)
    ensures
        flatten(ts).contains(y) <==> exists|i: int| 0 <= i < ts.len() && member_of(#[trigger] ts[i], y),
    decreases ts.len(),
{
    if ts.len() > 0 {
        let p = ts.drop_last();
        lemma_flatten_contains(p, y);
        let tail = match ts.last() {
            TypeV::Union(us) => us,
            _ => seq![ts.last()],
        };
        assert(flatten(ts) == flatten(p) + tail);
        if flatten(ts).contains(y) {
            let k = choose|k: int| 0 <= k < flatten(ts).len() && flatten(ts)[k] == y;
            if k < flatten(p).len() {
                assert(flatten(p)[k] == y);
                let i = choose|i: int| 0 <= i < p.len() && member_of(#[trigger] p[i], y);
                assert(ts[i] == p[i]);
            } else {
                assert(tail[k - flatten(p).len()] == y);
                assert(member_of(ts[ts.len() - 1], y));
            }
        }
        if exists|i: int| 0 <= i < ts.len() && member_of(#[trigger] ts[i], y) {
            let i = choose|i: int| 0 <= i < ts.len() && member_of(#[trigger] ts[i], y);
            if i < ts.len() - 1 {
                assert(p[i] == ts[i]);
                assert(flatten(p).contains(y));
                let k = choose|k: int| 0 <= k < flatten(p).len() && flatten(p)[k] == y;
                assert(flatten(ts)[k] == y);
            } else {
                if ts.last() is Union {
                    assert(tail.contains(y));
                } else {
                    assert(tail[0] == y);
                }
                let k = choose|k: int| 0 <= k < tail.len() && tail[k] == y;
                assert(flatten(ts)[flatten(p).len() + k] == y);
            }
        }
    }
}

proof fn lemma_insert_by_name(s: Seq<TypeV>, x: TypeV)
    requires
        sorted_by_name(s),
    ensures
        sorted_by_name(insert_by_name(s, x)),
        forall|y: TypeV| #[trigger] insert_by_name(s, x).contains(y) <==> (s.contains(y) || y == x),
    decreases s.len(),
{
    let r = insert_by_name(s, x);
    if s.len() == 0 {
        assert forall|y: TypeV| r.contains(y) <==> (s.contains(y) || y == x) by {
            if r.contains(y) {
                assert(r[0] == x);
            }
            if y == x {
                assert(r[0] == y);
            }
        }
    } else if seq_less(type_str(x), type_str(s.last())) {
        let p = s.drop_last();
        let last = s.last();
        assert(sorted_by_name(p)) by {
            assert forall|i: int, j: int| 0 <= i < j < p.len() implies !seq_less(type_str(#[trigger] p[j]), type_str(#[trigger] p[i])) by {
                assert(p[i] == s[i] && p[j] == s[j]);
            }
        }
        lemma_insert_by_name(p, x);
        let q = insert_by_name(p, x);
        assert(r == q.push(last));
        assert forall|i: int| 0 <= i < q.len() implies !seq_less(type_str(last), type_str(#[trigger] q[i])) by {
            assert(q.contains(q[i]));
            if q[i] == x {
                lemma_seq_less_order(type_str(x), type_str(last), type_str(x));
            } else {
                assert(p.contains(q[i]));
                let k = choose|k: int| 0 <= k < p.len() && p[k] == q[i];
                assert(s[k] == p[k]);
                assert(!seq_less(type_str(s[s.len() - 1]), type_str(s[k])));
            }
        }
        assert forall|i: int, j: int| 0 <= i < j < r.len() implies !seq_less(type_str(#[trigger] r[j]), type_str(#[trigger] r[i])) by {
            if j == r.len() - 1 {
                assert(r[j] == last);
                assert(r[i] == q[i]);
            } else {
                assert(r[i] == q[i] && r[j] == q[j]);
            }
        }
        assert forall|y: TypeV| r.contains(y) <==> (s.contains(y) || y == x) by {
            if r.contains(y) {
                let k = choose|k: int| 0 <= k < r.len() && r[k] == y;
                if k < q.len() {
                    assert(q[k] == y);
                    assert(q.contains(y));
                    if y != x {
                        assert(p.contains(y));
                        let m = choose|m: int| 0 <= m < p.len() && p[m] == y;
                        assert(s[m] == y);
                    }
                } else {
                    assert(s[s.len() - 1] == y);
                }
            }
            if s.contains(y) {
                let k = choose|k: int| 0 <= k < s.len() && s[k] == y;
                if k < s.len() - 1 {
                    assert(p[k] == y);
                    assert(p.contains(y));
                    assert(q.contains(y));
                    let m = choose|m: int| 0 <= m < q.len() && q[m] == y;
                    assert(r[m] == y);
                } else {
                    assert(r[r.len() - 1] == y);
                }
            }
            if y == x {
                assert(q.contains(x));
                let m = choose|m: int| 0 <= m < q.len() && q[m] == x;
                assert(r[m] == x);
            }
        }
    } else {
        assert(r == s.push(x));
        assert forall|i: int, j: int| 0 <= i < j < r.len() implies !seq_less(type_str(#[trigger] r[j]), type_str(#[trigger] r[i])) by {
            if j == r.len() - 1 {
                assert(r[j] == x);
                assert(r[i] == s[i]);
                if i < s.len() - 1 {
                    assert(!seq_less(type_str(s[s.len() - 1]), type_str(s[i])));
                    lemma_seq_le_trans(type_str(s[i]), type_str(s[s.len() - 1]), type_str(x));
                }
            } else {
                assert(r[i] == s[i] && r[j] == s[j]);
            }
        }
        assert forall|y: TypeV| r.contains(y) <==> (s.contains(y) || y == x) by {
            if r.contains(y) {
                let k = choose|k: int| 0 <= k < r.len() && r[k] == y;
                if k < s.len() {
                    assert(s[k] == y);
                }
            }
            if s.contains(y) {
                let k = choose|k: int| 0 <= k < s.len() && s[k] == y;
                assert(r[k] == y);
            }
            if y == x {
                assert(r[s.len() as int] == x);
            }
        }
    }
}

proof fn lemma_sort_by_name(s: Seq<TypeV>)
    ensures
        sorted_by_name(sort_by_name(s)),
        forall|y: TypeV| #[trigger] sort_by_name(s).contains(y) <==> s.contains(y),
    decreases s.len(),
{
    if s.len() > 0 {
        let p = s.drop_last();
        lemma_sort_by_name(p);
        lemma_insert_by_name(sort_by_name(p), s.last());
        assert forall|y: TypeV| sort_by_name(s).contains(y) <==> s.contains(y) by {
            if s.contains(y) {
                let k = choose|k: int| 0 <= k < s.len() && s[k] == y;
                if k < s.len() - 1 {
                    assert(p[k] == y);
                }
            }
            if p.contains(y) {
                let k = choose|k: int| 0 <= k < p.len() && p[k] == y;
                assert(s[k] == y);
            }
        }
    } else {
        assert(sort_by_name(s) =~= Seq::empty());
    }
}

proof fn lemma_dedup(s: Seq<TypeV>)
    ensures
        forall|y: TypeV| #[trigger] dedup(s).contains(y) <==> s.contains(y),
        sorted_by_name(s) ==> sorted_by_name(dedup(s)),
        forall|i: int| 0 <= i < dedup(s).len() - 1 ==> #[trigger] dedup(s)[i] != dedup(s)[i + 1],
        s.len() > 0 ==> dedup(s).len() > 0 && dedup(s).last() == s.last(),
    decreases s.len(),
{
    if s.len() > 1 {
        let p = s.drop_last();
        let r = dedup(p);
        lemma_dedup(p);
        let last = s.last();
        if sorted_by_name(s) {
            assert(sorted_by_name(p)) by {
                assert forall|i: int, j: int| 0 <= i < j < p.len() implies !seq_less(type_str(#[trigger] p[j]), type_str(#[trigger] p[i])) by {
                    assert(p[i] == s[i] && p[j] == s[j]);
                }
            }
        }
        if last == r.last() {
            assert forall|y: TypeV| r.contains(y) <==> s.contains(y) by {
                if s.contains(y) {
                    let k = choose|k: int| 0 <= k < s.len() && s[k] == y;
                    if k < s.len() - 1 {
                        assert(p[k] == y);
                    } else {
                        assert(r[r.len() - 1] == y);
                    }
                }
                if p.contains(y) {
                    let k = choose|k: int| 0 <= k < p.len() && p[k] == y;
                    assert(s[k] == y);
                }
            }
        } else {
            let d = r.push(last);
            assert forall|y: TypeV| d.contains(y) <==> s.contains(y) by {
                if s.contains(y) {
                    let k = choose|k: int| 0 <= k < s.len() && s[k] == y;
                    if k < s.len() - 1 {
                        assert(p[k] == y);
                        assert(p.contains(y));
                        assert(r.contains(y));
                        let m = choose|m: int| 0 <= m < r.len() && r[m] == y;
                        assert(d[m] == y);
                    } else {
                        assert(d[d.len() - 1] == y);
                    }
                }
                if d.contains(y) {
                    let k = choose|k: int| 0 <= k < d.len() && d[k] == y;
                    if k < r.len() {
                        assert(r[k] == y);
                        assert(r.contains(y));
                        assert(p.contains(y));
                        let m = choose|m: int| 0 <= m < p.len() && p[m] == y;
                        assert(s[m] == y);
                    } else {
                        assert(s[s.len() - 1] == y);
                    }
                }
            }
            assert forall|i: int| 0 <= i < d.len() - 1 implies #[trigger] d[i] != d[i + 1] by {
                if i < r.len() - 1 {
                    assert(d[i] == r[i] && d[i + 1] == r[i + 1]);
                } else {
                    assert(d[i] == r.last());
                }
            }
            if sorted_by_name(s) {
                assert forall|i: int, j: int| 0 <= i < j < d.len() implies !seq_less(type_str(#[trigger] d[j]), type_str(#[trigger] d[i])) by {
                    if j < r.len() {
                        assert(d[i] == r[i] && d[j] == r[j]);
                    } else {
                        assert(d[i] == r[i]);
                        assert(r.contains(r[i]));
                        let k = choose|k: int| 0 <= k < p.len() && p[k] == r[i];
                        assert(s[k] == p[k]);
                        assert(!seq_less(type_str(s[s.len() - 1]), type_str(s[k])));
                    }
                }
            }
        }
    } else if s.len() == 1 {
        assert forall|y: TypeV| dedup(s).contains(y) <==> s.contains(y) by {}
    }
}

/// Union members: a type is a member of the union of `ts` exactly when it is
/// one of `ts` or a member of a union among `ts`; members come sorted by how
/// they are written, and no two neighbours are equal.
pub proof fn lemma_union_members(ts: Seq<TypeV>)
    ensures
        forall|y: TypeV|
            #[trigger] union_members(ts).contains(y) <==> exists|i: int|
                0 <= i < ts.len() && member_of(#[trigger] ts[i], y),
        sorted_by_name(union_members(ts)),
        forall|i: int|
            0 <= i < union_members(ts).len() - 1 ==> #[trigger] union_members(ts)[i] != union_members(ts)[i + 1],
{
    let f = flatten(ts);
    lemma_sort_by_name(f);
    lemma_dedup(sort_by_name(f));
    assert forall|y: TypeV|
        union_members(ts).contains(y) <==> exists|i: int| 0 <= i < ts.len() && member_of(#[trigger] ts[i], y) by {
        lemma_flatten_contains(ts, y);
    }
}


pub type ArcClosureProto = Arc<ClosureProto>;
pub type ArcClosureInst = Arc<ClosureInst>;
pub type ArcFunction = Arc<ASFunction>;
pub type ArcStructure = Arc<ASStructure>;
pub type ArcObjet = Arc<ASObjet>;
pub type ArcClosureMethod = Arc<ClosureMethod>;
pub type ArcModule = Arc<ASModule>;

/// A member of a module or a field of an object: its value, whether it may be
/// reassigned, and its declared type.
#[derive(Debug)]
pub struct ASField {
    pub value: Value,
    pub is_const: bool,
    pub field_type: Type,
}

impl ASField {
    pub fn new(is_const: bool, field_type: Type, value: Value) -> (r: Self)
        ensures
            r.value == value,
            r.is_const == is_const,
            r.field_type == field_type,
    {
        ASField { value, is_const, field_type }
    }

    /// A field whose declared type is the type of its value.
    pub fn new_with_type_from_value(is_const: bool, value: Value) -> (r: Self)
        ensures
            r.value == value,
            r.is_const == is_const,
            r.field_type@ == value_type(value),
    {
        let field_type = value.get_type();
        ASField { field_type, value, is_const }
    }
}

/// Index of the last entry named `k` among named entries, or -1.
pub open spec fn last_named<T>(entries: Seq<(String, T)>, k: Seq<char>) -> int
    decreases entries.len(),
{
    if entries.len() == 0 {
        -1
    } else if entries[entries.len() - 1].0@ == k {
        entries.len() - 1
    } else {
        last_named(entries.subrange(0, entries.len() - 1), k)
    }
}

pub proof fn lemma_last_named<T>(entries: Seq<(String, T)>, k: Seq<char>)
    ensures
        -1 <= last_named(entries, k) < entries.len(),
        last_named(entries, k) >= 0 ==> entries[last_named(entries, k)].0@ == k,
        forall|j: int| last_named(entries, k) < j < entries.len() ==> (#[trigger] entries[j]).0@ != k,
    decreases entries.len(),
{
    if entries.len() > 0 {
        let p = entries.subrange(0, entries.len() - 1);
        lemma_last_named(p, k);
        assert forall|j: int| last_named(entries, k) < j < entries.len() implies (#[trigger] entries[j]).0@ != k by {
            if j < entries.len() - 1 {
                assert(p[j] == entries[j]);
            }
        }
    }
}

/// Replacing the last entry named `k` by one with the same name leaves every
/// lookup pointing where it did.
pub proof fn lemma_last_named_update<T>(entries: Seq<(String, T)>, i: int, e: (String, T), k: Seq<char>)
    requires
        0 <= i < entries.len(),
        entries[i].0@ == e.0@,
    ensures
        last_named(entries.update(i, e), k) == last_named(entries, k),
    decreases entries.len(),
{
    let u = entries.update(i, e);
    if entries.len() > 0 {
        let p = entries.subrange(0, entries.len() - 1);
        let q = u.subrange(0, u.len() - 1);
        if i < entries.len() - 1 {
            assert(q =~= p.update(i, e));
            lemma_last_named_update(p, i, e, k);
        } else {
            assert(q =~= p);
        }
    }
}

/// After a new entry is appended, its name finds it and other names find
/// what they found before.
pub proof fn lemma_last_named_push<T>(entries: Seq<(String, T)>, e: (String, T), k: Seq<char>)
    ensures
        k == e.0@ ==> last_named(entries.push(e), k) == entries.len(),
        k != e.0@ ==> last_named(entries.push(e), k) == last_named(entries, k),
{
    assert(entries.push(e).subrange(0, entries.len() as int) =~= entries);
}

/// The last entry named `k`.
pub fn find_last_named<T>(entries: &Vec<(String, T)>, k: &str) -> (r: Option<usize>)
    ensures
        r matches Some(i) ==> i < entries@.len() && entries@[i as int].0@ == k@,
        match r {
            Some(i) => i == last_named(entries@, k@),
            None => last_named(entries@, k@) < 0,
        },
{
    let mut i = entries.len();
    assert(entries@.subrange(0, i as int) =~= entries@);
    while i > 0
        invariant
            i <= entries@.len(),
            last_named(entries@, k@) == last_named(entries@.subrange(0, i as int), k@),
        decreases i,
    {
        let ghost p = entries@.subrange(0, i as int);
        assert(p.subrange(0, p.len() - 1) =~= entries@.subrange(0, i - 1));
        if str_eq(entries[i - 1].0.as_str(), k) {
            proof { lemma_last_named(entries@, k@); }
            return Some(i - 1);
        }
        i = i - 1;
    }
    None
}

/// A loaded module: its name and its members. A name listed twice stands for
/// its last entry.
#[derive(Debug)]
pub struct ASModule {
    pub name: String,
    pub members: Vec<(String, ASField)>,
}

impl ASModule {
    pub fn new(name: &str, members: Vec<(String, ASField)>) -> (r: Self)
        ensures
            r.name@ == name@,
            r.members == members,
    {
        ASModule { name: String::from_str(name), members }
    }

    /// A shared module made of the given members.
    pub fn from_iter(name: &str, iter: Vec<(String, ASField)>) -> (r: ArcModule)
        ensures
            r.name@ == name@,
            r.members == iter,
    {
        Arc::new(ASModule::new(name, iter))
    }

    /// The value of member `name`, or an unknown-field error.
    pub fn get_member(&self, name: &str) -> (r: Result<Value, RuntimeError>)
        ensures
            last_named(self.members@, name@) >= 0 ==> r == Ok::<Value, RuntimeError>(
                self.members@[last_named(self.members@, name@)].1.value,
            ),
            last_named(self.members@, name@) < 0 ==> (r matches Err(RuntimeError::FieldError(m))
                && m@ == invalid_field_msg(self.name@, name@)),
    {
        match find_last_named(&self.members, name) {
            Some(i) => Ok(self.members[i].1.value.copy()),
            None => Err(RuntimeError::invalid_field(self.name.as_str(), name)),
        }
    }

    /// Sets member `name` to `val`, unless it is unknown or constant.
    pub fn set_member(&mut self, name: &str, val: Value) -> (r: Result<(), RuntimeError>)
        ensures
            final(self).name == old(self).name,
            ({
                let i = last_named(old(self).members@, name@);
                if i < 0 {
                    &&& r matches Err(RuntimeError::FieldError(m)) && m@ == invalid_field_msg(
                        old(self).name@,
                        name@,
                    )
                    &&& final(self).members == old(self).members
                } else if old(self).members@[i].1.is_const {
                    &&& r matches Err(RuntimeError::AssignToConstVar { var_name }) && var_name@
                        == old(self).name@ + "."@ + name@
                    &&& final(self).members == old(self).members
                } else {
                    &&& r is Ok
                    &&& final(self).members@ == members_after_set(old(self).members@, i, val)
                }
            }),
    {
        let i = match find_last_named(&self.members, name) {
            Some(i) => i,
            None => { return Err(RuntimeError::invalid_field(self.name.as_str(), name)); },
        };
        if self.members[i].1.is_const {
            let mut full = self.name.clone();
            full.append(".");
            full.append(name);
            return Err(RuntimeError::assign_to_const(full.as_str()));
        }
        let (k, old_field) = self.members.remove(i);
        let field = ASField { value: val, is_const: old_field.is_const, field_type: old_field.field_type };
        self.members.insert(i, (k, field));
        Ok(())
    }
}

/// The members once member `name` (found at its last entry `i`) holds `val`.
pub open spec fn members_after_set(members: Seq<(String, ASField)>, i: int, val: Value) -> Seq<(String, ASField)> {
    members.update(i, (members[i].0, ASField { value: val, ..members[i].1 }))
}

/// A member read after it was set gives the value set, and every other
/// member reads as before.
pub proof fn lemma_module_read_after_write(members: Seq<(String, ASField)>, name: Seq<char>, val: Value, other: Seq<char>)
    requires
        last_named(members, name) >= 0,
    ensures
        ({
            let i = last_named(members, name);
            let after = members_after_set(members, i, val);
            &&& last_named(after, name) == i
            &&& after[i].1.value == val
            &&& last_named(after, other) == last_named(members, other)
            &&& other != name && last_named(members, other) >= 0 ==> after[last_named(after, other)]
                == members[last_named(members, other)]
        }),
{
    let i = last_named(members, name);
    lemma_last_named(members, name);
    let e = (members[i].0, ASField { value: val, ..members[i].1 });
    lemma_last_named_update(members, i, e, name);
    lemma_last_named_update(members, i, e, other);
    lemma_last_named(members, other);
}

/// A compiled member of a module: where its value lies once the module's
/// code has run, and how it was declared.
#[derive(Debug)]
pub struct FieldProto {
    pub value_idx: usize,
    pub is_const: bool,
    pub field_type: Type,
}

/// A compiled module: its name, the code that loads it and what it exports.
#[derive(Debug)]
pub struct ModuleProto {
    pub name: String,
    pub load_fn: ClosureProto,
    pub exported_members: Vec<(String, FieldProto)>,
}

/// A structure: its name, its fields and its methods.
#[derive(Debug)]
pub struct ASStructure {
    pub name: String,
    pub fields: Vec<ASFieldInfo>,
    pub methods: Vec<(String, ArcClosureInst)>,
}

impl ASStructure {
    pub fn new(name: String, fields: Vec<ASFieldInfo>) -> (r: Self)
        ensures
            r.name == name,
            r.fields == fields,
            r.methods@.len() == 0,
    {
        ASStructure { name, fields, methods: Vec::new() }
    }
}

/// The declaration of a field of a structure.
#[derive(Debug)]
pub struct ASFieldInfo {
    pub name: String,
    pub field_type: TypeSpec,
    pub is_const: bool,
    pub is_private: bool,
    pub value: Option<Value>,
}

/// A method bound to the object it was read from.
#[derive(Debug)]
pub struct ClosureMethod {
    pub closure: ArcClosureInst,
    pub inst_value: Value,
}

/// An instance of a structure.
#[derive(Debug)]
pub struct ASObjet {
    pub structure: ArcStructure,
    pub fields: Vec<(String, ASField)>,
}

/// Reading `attr` on the object `obj`: its field of that name, else its
/// structure's method of that name bound to the object, else an unknown-field
/// error.
pub open spec fn objet_field(obj: ArcObjet, attr: Seq<char>, r: Result<Value, RuntimeError>) -> bool {
    let fi = last_named(obj.fields@, attr);
    let mi = last_named(obj.structure.methods@, attr);
    if fi >= 0 {
        r == Ok::<Value, RuntimeError>(obj.fields@[fi].1.value)
    } else if mi >= 0 {
        r == Ok::<Value, RuntimeError>(
            Value::Function(
                Function::ClosureMethod(
                    Arc::new(ClosureMethod { closure: obj.structure.methods@[mi].1, inst_value: Value::Objet(obj) }),
                ),
            ),
        )
    } else {
        r matches Err(RuntimeError::FieldError(m)) && m@ == invalid_field_msg(obj.structure.name@, attr)
    }
}

impl ASObjet {
    pub fn new(structure: ArcStructure, fields: Vec<(String, ASField)>) -> (r: Self)
        ensures
            r.structure == structure,
            r.fields == fields,
    {
        ASObjet { structure, fields }
    }

    /// Reads `attr` of `obj`: a field's value, else the method of that name
    /// bound to `obj`, else an unknown-field error naming the structure.
    pub fn get_field(obj: &ArcObjet, attr: &str) -> (r: Result<Value, RuntimeError>)
        ensures
            objet_field(*obj, attr@, r),
    {
        if let Some(i) = find_last_named(&obj.fields, attr) {
            return Ok(obj.fields[i].1.value.copy());
        }
        if let Some(i) = find_last_named(&obj.structure.methods, attr) {
            let closure = Arc::clone(&obj.structure.methods[i].1);
            let method = ClosureMethod { closure, inst_value: Value::Objet(Arc::clone(obj)) };
            return Ok(Value::Function(Function::ClosureMethod(Arc::new(method))));
        }
        Err(RuntimeError::invalid_field(obj.structure.name.as_str(), attr))
    }

    /// Sets field `attr` to `val`, unless it is unknown or constant.
    pub fn set_field(&mut self, attr: &str, val: Value) -> (r: Result<(), RuntimeError>)
        ensures
            final(self).structure == old(self).structure,
            ({
                let i = last_named(old(self).fields@, attr@);
                if i < 0 {
                    &&& r matches Err(RuntimeError::FieldError(m)) && m@ == invalid_field_msg(
                        old(self).structure.name@,
                        attr@,
                    )
                    &&& final(self).fields == old(self).fields
                } else if old(self).fields@[i].1.is_const {
                    &&& r matches Err(RuntimeError::AssignToConstField { field_name }) && field_name@
                        == attr@
                    &&& final(self).fields == old(self).fields
                } else {
                    &&& r is Ok
                    &&& final(self).fields@ == old(self).fields@.update(
                        i,
                        (old(self).fields@[i].0, ASField { value: val, ..old(self).fields@[i].1 }),
                    )
                }
            }),
    {
        let i = match find_last_named(&self.fields, attr) {
            Some(i) => i,
            None => { return Err(RuntimeError::invalid_field(self.structure.name.as_str(), attr)); },
        };
        if self.fields[i].1.is_const {
            return Err(RuntimeError::assign_to_const_field(attr));
        }
        let (k, old_field) = self.fields.remove(i);
        let field = ASField { value: val, is_const: old_field.is_const, field_type: old_field.field_type };
        self.fields.insert(i, (k, field));
        Ok(())
    }
}

/// The code of a function: its bytecode, constant pool, captured variables
/// and number of parameters.
#[derive(Debug)]
pub struct ASFunction {
    pub name: Option<String>,
    pub code: Vec<u16>,
    pub constants: Vec<Value>,
    pub upvalue_count: usize,
    pub upvalue_specs: Vec<UpvalueSpec>,
    pub nb_params: usize,
}

impl ASFunction {
    pub fn new(name: Option<String>, nb_params: usize) -> (r: Self)
        ensures
            r.name == name,
            r.code@.len() == 0,
            r.constants@.len() == 0,
            r.upvalue_count == 0,
            r.upvalue_specs@.len() == 0,
            r.nb_params == nb_params,
    {
        ASFunction {
            name,
            code: Vec::new(),
            constants: Vec::new(),
            upvalue_count: 0,
            upvalue_specs: Vec::new(),
            nb_params,
        }
    }

    pub fn new_anonymous(nb_params: usize) -> (r: Self)
        ensures
            r.name is None,
            r.code@.len() == 0,
            r.constants@.len() == 0,
            r.upvalue_count == 0,
            r.upvalue_specs@.len() == 0,
            r.nb_params == nb_params,
    {
        ASFunction::new(None, nb_params)
    }
}

/// The two states of a closure: a prototype, whose captured variables are not
/// resolved yet, and an instance.
#[derive(Debug)]
pub struct Proto;

#[derive(Debug)]
pub struct Inst;

/// A function with its captured variables.
#[derive(Debug)]
pub struct Closure<T> {
    pub function: Arc<ASFunction>,
    pub upvalues: Vec<UpvalueId>,
    pub phantom: std::marker::PhantomData<T>,
}

pub type ClosureProto = Closure<Proto>;

pub type ClosureInst = Closure<Inst>;

impl Closure<Proto> {
    pub fn new(function: Arc<ASFunction>) -> (r: Self)
        ensures
            r.function == function,
            r.upvalues@.len() == 0,
    {
        Closure { function, upvalues: Vec::new(), phantom: std::marker::PhantomData }
    }
}

impl Closure<Inst> {
    pub fn new(function: Arc<ASFunction>, upvalues: Vec<UpvalueId>) -> (r: Self)
        ensures
            r.function == function,
            r.upvalues == upvalues,
    {
        Closure { function, upvalues, phantom: std::marker::PhantomData }
    }
}


/// A type annotation as the compiler holds it: its name and either a plain
/// type or a type computed from type arguments.
#[derive(Debug)]
pub struct TypeSpec {
    pub name: String,
    pub value: TypeSpecValue,
}

/// A type parameter of a computed type.
#[derive(Debug)]
pub struct ArgParam {
    pub name: String,
    pub default_value: Option<TypeSpec>,
}

/// What a [`TypeSpec`] stands for. A computed type keeps its type
/// parameters; how it is computed is not held.
#[derive(Debug)]
pub enum TypeSpecValue {
    Computed { type_params: Vec<ArgParam> },
    BaseType(Type),
}

/// The message of a type given arguments it does not take.
pub open spec fn no_type_args_msg(t: Seq<char>) -> Seq<char> {
    "Le type "@ + t + " ne prend pas d'arguments"@
}

impl Type {
    /// This type given type arguments: a list becomes a list of the union of
    /// the arguments; other types (objects aside) take no arguments.
    pub fn with_type_args(&self, args: Vec<Type>) -> (r: Result<Type, CompilationErrorKind>)
        requires
            !(self@ is Objet),
        ensures
            self@ is Liste ==> (r matches Ok(t) && t@ == TypeV::Liste(
                Box::new(spec_union(types_view(args@))),
            )),
            !(self@ is Liste) ==> (r matches Err(CompilationErrorKind::GenericError(m)) && m@
                == no_type_args_msg(type_str(self@))),
    {
        match self {
            Type::Liste(_) => Ok(Type::Liste(Box::new(Type::union(args)))),
            _ => {
                let t = self.to_string();
                let mut m = String::from_str("Le type ");
                m.append(t.as_str());
                m.append(" ne prend pas d'arguments");
                Err(CompilationErrorKind::generic_error(m.as_str()))
            },
        }
    }
}

impl TypeSpec {
    /// A computed type with its type parameters.
    pub fn new_computed(name: String, args: Vec<ArgParam>) -> (r: Self)
        ensures
            r.name == name,
            r.value == (TypeSpecValue::Computed { type_params: args }),
    {
        TypeSpec { name, value: TypeSpecValue::Computed { type_params: args } }
    }

    pub fn new_simple(name: String, value: Type) -> (r: Self)
        ensures
            r.name == name,
            r.value == TypeSpecValue::BaseType(value),
    {
        TypeSpec { name, value: TypeSpecValue::BaseType(value) }
    }

    /// The plain type of this annotation, or an error for a computed type.
    pub fn as_base_type(self) -> (r: Result<Type, CompilationErrorKind>)
        ensures
            match self.value {
                TypeSpecValue::BaseType(t) => r == Ok::<Type, CompilationErrorKind>(t),
                TypeSpecValue::Computed { .. } => r matches Err(CompilationErrorKind::GenericError(m))
                    && m@ == "Expected base type"@,
            },
    {
        match self.value {
            TypeSpecValue::Computed { type_params } => Err(
                CompilationErrorKind::generic_error("Expected base type"),
            ),
            TypeSpecValue::BaseType(base_type) => Ok(base_type),
        }
    }

    /// The type this annotation stands for given type arguments, which must
    /// all be plain types.
    pub fn compute(self, args: Vec<TypeSpec>) -> (r: Result<Type, CompilationErrorKind>)
        requires
            self.value is BaseType,
            self.value->BaseType_0@ is Objet ==> exists|i: int|
                0 <= i < args@.len() && (#[trigger] args@[i]).value is Computed,
        ensures
            ({
                let base = self.value->BaseType_0;
                if exists|i: int| 0 <= i < args@.len() && (#[trigger] args@[i]).value is Computed {
                    r matches Err(CompilationErrorKind::GenericError(m)) && m@ == "Expected base type"@
                } else if base@ is Liste {
                    r matches Ok(t) && t@ == TypeV::Liste(
                        Box::new(spec_union(types_view(spec_base_types(args@)))),
                    )
                } else {
                    r matches Err(CompilationErrorKind::GenericError(m)) && m@ == no_type_args_msg(
                        type_str(base@),
                    )
                }
            }),
    {
        let base = match self.value {
            TypeSpecValue::BaseType(b) => b,
            TypeSpecValue::Computed { .. } => {
                return Err(CompilationErrorKind::generic_error("Expected base type"));
            },
        };
        let ghost all = args@;
        let mut rest = args;
        let mut types: Vec<Type> = Vec::new();
        while rest.len() > 0
            invariant
                all == args@,
                base == self.value->BaseType_0,
                types@.len() + rest@.len() == all.len(),
                rest@ == all.skip(types@.len() as int),
                types@ == spec_base_types(all.take(types@.len() as int)),
                forall|i: int| 0 <= i < types@.len() ==> (#[trigger] all[i]).value is BaseType,
            decreases rest.len(),
        {
            let a = rest.remove(0);
            let ghost k: int = types@.len() as int;
            let ghost ga = a;
            assert(all[k] == ga);
            match a.value {
                TypeSpecValue::BaseType(t) => {
                    types.push(t);
                    assert(all.take(k + 1) =~= all.take(k).push(ga));
                    assert(types@ =~= spec_base_types(all.take(types@.len() as int)));
                    assert(rest@ =~= all.skip(types@.len() as int));
                },
                TypeSpecValue::Computed { .. } => {
                    assert(all[k].value is Computed);
                    return Err(CompilationErrorKind::generic_error("Expected base type"));
                },
            }
        }
        assert(all.take(all.len() as int) =~= all);
        base.with_type_args(types)
    }
}

/// The plain types of annotations that are all plain.
pub open spec fn spec_base_types(s: Seq<TypeSpec>) -> Seq<Type> {
    s.map_values(|a: TypeSpec| a.value->BaseType_0)
}

impl TypeSpec {
    /// The annotation of a plain type, named as the type is written.
    pub fn from_type(value: Type) -> (r: TypeSpec)
        ensures
            r.name@ == type_str(value@),
            r.value == TypeSpecValue::BaseType(value),
    {
        let name = value.to_string();
        TypeSpec::new_simple(name, value)
    }
}

/// The mathematical value of a [`TypeSpec`].
pub struct TypeSpecV {
    pub name: Seq<char>,
    pub value: TypeSpecValueV,
}

/// The mathematical value of a [`TypeSpecValue`].
pub enum TypeSpecValueV {
    Computed(Seq<ArgParamV>),
    BaseType(TypeV),
}

/// The mathematical value of an [`ArgParam`].
pub struct ArgParamV {
    pub name: Seq<char>,
    pub default_value: Option<TypeSpecV>,
}

/// The value of a type annotation.
pub open spec fn typespec_view(t: TypeSpec) -> TypeSpecV
    decreases t,
{
    TypeSpecV {
        name: t.name@,
        value: match t.value {
            TypeSpecValue::BaseType(b) => TypeSpecValueV::BaseType(type_view(b)),
            TypeSpecValue::Computed { type_params } => TypeSpecValueV::Computed(
                argparams_view(type_params@),
            ),
        },
    }
}

/// The values of a sequence of type parameters.
pub open spec fn argparams_view(ps: Seq<ArgParam>) -> Seq<ArgParamV>
    decreases ps,
{
    if ps.len() == 0 {
        Seq::empty()
    } else {
        let last = ps[ps.len() - 1];
        argparams_view(ps.subrange(0, ps.len() - 1)).push(
            ArgParamV {
                name: last.name@,
                default_value: match last.default_value {
                    Some(d) => Some(typespec_view(d)),
                    None => None,
                },
            },
        )
    }
}

impl View for TypeSpec {
    type V = TypeSpecV;

    open spec fn view(&self) -> TypeSpecV {
        typespec_view(*self)
    }
}

fn copy_argparams(ps: &Vec<ArgParam>) -> (r: Vec<ArgParam>)
    ensures
        argparams_view(r@) == argparams_view(ps@),
    decreases ps,
{
    let mut r: Vec<ArgParam> = Vec::new();
    let mut i: usize = 0;
    while i < ps.len()
        invariant
            i <= ps@.len(),
            r@.len() == i,
            argparams_view(r@) == argparams_view(ps@.subrange(0, i as int)),
        decreases ps@.len() - i,
    {
        proof { broadcast use vstd::std_specs::vec::axiom_vec_index_decreases; }
        assert(decreases_to!(ps => ps[i as int]));
        let p = &ps[i];
        let d = match &p.default_value {
            Some(t) => {
                assert(decreases_to!(ps => ps[i as int].default_value->0));
                Some(t.copy())
            },
            None => None,
        };
        let ghost before = r@;
        r.push(ArgParam { name: p.name.clone(), default_value: d });
        proof {
            assert(r@.subrange(0, r@.len() - 1) =~= before);
            assert(ps@.subrange(0, i + 1).subrange(0, i as int) =~= ps@.subrange(0, i as int));
        }
        i = i + 1;
    }
    assert(ps@.subrange(0, ps@.len() as int) =~= ps@);
    r
}

impl TypeSpec {
    /// A copy of this annotation.
    pub fn copy(&self) -> (r: TypeSpec)
        ensures
            r@ == self@,
        decreases self,
    {
        let value = match &self.value {
            TypeSpecValue::BaseType(t) => TypeSpecValue::BaseType(t.copy()),
            TypeSpecValue::Computed { type_params } => TypeSpecValue::Computed {
                type_params: copy_argparams(type_params),
            },
        };
        TypeSpec { name: self.name.clone(), value }
    }
}

/// An object that native code provides to scripts.
pub trait NativeObjet {
    /// The name of its type, as the contracts see it.
    spec fn spec_native_type_name(&self) -> Seq<char>;

    /// The name of its type.
    fn native_type_name(&self) -> (r: &'static str)
        ensures
            r@ == self.spec_native_type_name(),
    ;

    /// The member `name` of the object.
    fn get_member(&mut self, vm: &mut crate::vm::VM, name: &str) -> Result<Value, RuntimeError>;

    /// Sets the member `name`; by default the object takes no assignment.
    fn set_member(&mut self, vm: &mut crate::vm::VM, name: &str, val: Value) -> (r: Result<(), RuntimeError>)
        default_ensures
            r matches Err(RuntimeError::RuntimeError(m)) && m@ == "Cet objet ne supporte pas l'affectation"@,
    {
        Err(RuntimeError::generic_err("Cet objet ne supporte pas l'affectation"))
    }

    /// How the object is shown; by default, as a native object of its type.
    fn display(&self) -> (r: String)
        default_ensures
            r@ == "objet natif "@ + self.spec_native_type_name(),
    {
        proof {
            reveal_strlit("objet natif ");
        }
        let mut s = String::from_str("objet natif ");
        s.append(self.native_type_name());
        s
    }
}

/// A union matches a type on either side exactly when one of its members
/// matches it (for a type that is not itself a union, an optional type or
/// `tout`, which have rules of their own).
pub proof fn lemma_union_matches_by_a_member(t: TypeV, ts: Seq<TypeV>)
    requires
        !(t is Union),
        !(t is Optional),
        !(t is Tout),
    ensures
        type_matches(t, TypeV::Union(ts)) <==> exists|i: int| 0 <= i < ts.len() && type_matches(#[trigger] ts[i], t),
        type_matches(TypeV::Union(ts), t) <==> exists|i: int| 0 <= i < ts.len() && type_matches(#[trigger] ts[i], t),
{
    lemma_any_matches(ts, t);
}

/// A union accepts each of its members, and each member accepts the union
/// (again for members that are not unions, optional types or `tout`).
pub proof fn lemma_union_accepts_its_members(t: TypeV, ts: Seq<TypeV>)
    requires
        ts.contains(t),
        !(t is Union),
        !(t is Optional),
        !(t is Tout),
    ensures
        type_matches(t, TypeV::Union(ts)),
        type_matches(TypeV::Union(ts), t),
{
    let i = choose|i: int| 0 <= i < ts.len() && ts[i] == t;
    lemma_type_match_reflexive(t);
    assert(type_matches(ts[i], t));
    lemma_union_matches_by_a_member(t, ts);
}

} // verus!
