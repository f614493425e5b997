//! The static types of the tree-walking interpreter and its typed variables.
use vstd::prelude::*;

use crate::text::{join, str_eq, string_views};

verus! {

/// A static type of the tree-walking interpreter.
#[derive(Debug)]
pub enum ASType {
    /// Every type but [`ASType::Rien`] and [`ASType::Nul`].
    Tout,
    /// What a function that returns nothing returns.
    Rien,
    /// The absence of a value.
    Nul,
    Entier,
    Decimal,
    Booleen,
    Texte,
    Liste,
    Dict,
    Fonction,
    Classe,
    Module,
    Objet(String),
    ClasseInst,
    Union(Vec<ASType>),
    Array(Vec<ASType>),
    Optional(Box<ASType>),
}

/// The mathematical value of an [`ASType`].
pub enum ASTypeV {
    Tout,
    Rien,
    Nul,
    Entier,
    Decimal,
    Booleen,
    Texte,
    Liste,
    Dict,
    Fonction,
    Classe,
    Module,
    Objet(Seq<char>),
    ClasseInst,
    Union(Seq<ASTypeV>),
    Array(Seq<ASTypeV>),
    Optional(Box<ASTypeV>),
}

/// The value of a type.
pub open spec fn astype_view(t: ASType) -> ASTypeV
    decreases t,
{
    match t {
        ASType::Tout => ASTypeV::Tout,
        ASType::Rien => ASTypeV::Rien,
        ASType::Nul => ASTypeV::Nul,
        ASType::Entier => ASTypeV::Entier,
        ASType::Decimal => ASTypeV::Decimal,
        ASType::Booleen => ASTypeV::Booleen,
        ASType::Texte => ASTypeV::Texte,
        ASType::Liste => ASTypeV::Liste,
        ASType::Dict => ASTypeV::Dict,
        ASType::Fonction => ASTypeV::Fonction,
        ASType::Classe => ASTypeV::Classe,
        ASType::Module => ASTypeV::Module,
        ASType::Objet(s) => ASTypeV::Objet(s@),
        ASType::ClasseInst => ASTypeV::ClasseInst,
        ASType::Union(ts) => ASTypeV::Union(astypes_view(ts@)),
        ASType::Array(ts) => ASTypeV::Array(astypes_view(ts@)),
        ASType::Optional(b) => ASTypeV::Optional(Box::new(astype_view(*b))),
    }
}

/// The values of a sequence of types.
pub open spec fn astypes_view(ts: Seq<ASType>) -> Seq<ASTypeV>
    decreases ts,
{
    if ts.len() == 0 {
        Seq::empty()
    } else {
        astypes_view(ts.subrange(0, ts.len() - 1)).push(astype_view(ts[ts.len() - 1]))
    }
}

impl View for ASType {
    type V = ASTypeV;

    open spec fn view(&self) -> ASTypeV {
        astype_view(*self)
    }
}

/// The view of a sequence of types is taken element by element.
pub proof fn lemma_astypes_view(ts: Seq<ASType>)
    ensures
        astypes_view(ts).len() == ts.len(),
        forall|i: int| 0 <= i < ts.len() ==> #[trigger] astypes_view(ts)[i] == astype_view(ts[i]),
    decreases ts.len(),
{
    if ts.len() > 0 {
        let p = ts.subrange(0, ts.len() - 1);
        lemma_astypes_view(p);
        assert forall|i: int| 0 <= i < ts.len() implies #[trigger] astypes_view(ts)[i] == astype_view(ts[i]) by {
            if i < ts.len() - 1 {
                assert(p[i] == ts[i]);
            }
        }
    }
}

/// Two type lists that agree element by element have the same value.
pub proof fn lemma_astypes_view_congruent(a: Seq<ASType>, b: Seq<ASType>)
    requires
        a.len() == b.len(),
        forall|i: int| 0 <= i < a.len() ==> astype_view(#[trigger] a[i]) == astype_view(b[i]),
    ensures
        astypes_view(a) == astypes_view(b),
{
    lemma_astypes_view(a);
    lemma_astypes_view(b);
    assert(astypes_view(a) =~= astypes_view(b));
}

fn copy_astypes(ts: &Vec<ASType>) -> (r: Vec<ASType>)
    ensures
        astypes_view(r@) == astypes_view(ts@),
    decreases ts,
{
    let mut r: Vec<ASType> = Vec::new();
    let mut i: usize = 0;
    while i < ts.len()
        invariant
            i <= ts@.len(),
            r@.len() == i,
            forall|j: int| 0 <= j < i ==> astype_view(#[trigger] r@[j]) == astype_view(ts@[j]),
        decreases ts@.len() - i,
    {
        proof { broadcast use vstd::std_specs::vec::axiom_vec_index_decreases; }
        assert(decreases_to!(ts => ts[i as int]));
        let c = ts[i].copy();
        r.push(c);
        i = i + 1;
    }
    proof { lemma_astypes_view_congruent(r@, ts@); }
    r
}

fn astypes_eq(a: &Vec<ASType>, b: &Vec<ASType>) -> (r: bool)
    ensures
        r == (astypes_view(a@) == astypes_view(b@)),
    decreases a,
{
    proof {
        lemma_astypes_view(a@);
        lemma_astypes_view(b@);
    }
    if a.len() != b.len() {
        return false;
    }
    let mut i: usize = 0;
    while i < a.len()
        invariant
            a@.len() == b@.len(),
            i <= a@.len(),
            astypes_view(a@).len() == a@.len(),
            astypes_view(b@).len() == b@.len(),
            forall|j: int| 0 <= j < a@.len() ==> #[trigger] astypes_view(a@)[j] == astype_view(a@[j]),
            forall|j: int| 0 <= j < b@.len() ==> #[trigger] astypes_view(b@)[j] == astype_view(b@[j]),
            forall|j: int| 0 <= j < i ==> astype_view(#[trigger] a@[j]) == astype_view(b@[j]),
        decreases a@.len() - i,
    {
        proof { broadcast use vstd::std_specs::vec::axiom_vec_index_decreases; }
        assert(decreases_to!(a => a[i as int]));
        if !a[i].eq(&b[i]) {
            assert(astypes_view(a@)[i as int] != astypes_view(b@)[i as int]);
            return false;
        }
        i = i + 1;
    }
    assert(astypes_view(a@) =~= astypes_view(b@));
    true
}

impl Clone for ASType {
    fn clone(&self) -> (r: ASType)
        ensures
            r@ == self@,
    {
        self.copy()
    }
}

impl ASType {
    /// A copy of this type.
    pub fn copy(&self) -> (r: ASType)
        ensures
            r@ == self@,
        decreases self,
    {
        match self {
            ASType::Tout => ASType::Tout,
            ASType::Rien => ASType::Rien,
            ASType::Nul => ASType::Nul,
            ASType::Entier => ASType::Entier,
            ASType::Decimal => ASType::Decimal,
            ASType::Booleen => ASType::Booleen,
            ASType::Texte => ASType::Texte,
            ASType::Liste => ASType::Liste,
            ASType::Dict => ASType::Dict,
            ASType::Fonction => ASType::Fonction,
            ASType::Classe => ASType::Classe,
            ASType::Module => ASType::Module,
            ASType::Objet(s) => ASType::Objet(s.clone()),
            ASType::ClasseInst => ASType::ClasseInst,
            ASType::Union(ts) => ASType::Union(copy_astypes(ts)),
            ASType::Array(ts) => ASType::Array(copy_astypes(ts)),
            ASType::Optional(b) => ASType::Optional(Box::new((**b).copy())),
        }
    }

    /// Whether the two types are equal (`==`).
    pub fn eq(&self, other: &ASType) -> (r: bool)
        ensures
            r == (self@ == other@),
        decreases self,
    {
        match (self, other) {
            (ASType::Tout, ASType::Tout) => true,
            (ASType::Rien, ASType::Rien) => true,
            (ASType::Nul, ASType::Nul) => true,
            (ASType::Entier, ASType::Entier) => true,
            (ASType::Decimal, ASType::Decimal) => true,
            (ASType::Booleen, ASType::Booleen) => true,
            (ASType::Texte, ASType::Texte) => true,
            (ASType::Liste, ASType::Liste) => true,
            (ASType::Dict, ASType::Dict) => true,
            (ASType::Fonction, ASType::Fonction) => true,
            (ASType::Classe, ASType::Classe) => true,
            (ASType::Module, ASType::Module) => true,
            (ASType::Objet(a), ASType::Objet(b)) => *a == *b,
            (ASType::ClasseInst, ASType::ClasseInst) => true,
            (ASType::Union(a), ASType::Union(b)) => astypes_eq(a, b),
            (ASType::Array(a), ASType::Array(b)) => astypes_eq(a, b),
            (ASType::Optional(a), ASType::Optional(b)) => (**a).eq(&**b),
            _ => false,
        }
    }
}

/// Size of a type, counting nested types (a measure for recursion).
pub open spec fn ty_size(t: ASTypeV) -> nat
    decreases t,
{
    match t {
        ASTypeV::Optional(b) => 1 + ty_size(*b),
        ASTypeV::Union(ts) => 1 + tys_size(ts),
        ASTypeV::Array(ts) => 1 + tys_size(ts),
        _ => 1,
    }
}

/// Total size of a sequence of types, each counted one more.
pub open spec fn tys_size(ts: Seq<ASTypeV>) -> nat
    decreases ts,
{
    if ts.len() == 0 {
        0
    } else {
        tys_size(ts.subrange(0, ts.len() - 1)) + ty_size(ts[ts.len() - 1]) + 1
    }
}

pub proof fn lemma_tys_size(ts: Seq<ASTypeV>, i: int)
    requires
        0 <= i < ts.len(),
    ensures
        ty_size(ts[i]) < tys_size(ts),
    decreases ts.len(),
{
    if i < ts.len() - 1 {
        let p = ts.subrange(0, ts.len() - 1);
        lemma_tys_size(p, i);
        assert(p[i] == ts[i]);
    }
}

/// Whether a value of type `t2` is accepted where `t1` is expected (and the
/// other way round, but for `décimal` accepting `entier`).
pub open spec fn astype_matches(t1: ASTypeV, t2: ASTypeV) -> bool
    decreases ty_size(t1) + ty_size(t2),
{
    if t1 == t2 {
        true
    } else if t1 is Tout {
        !(t2 is Rien) && !(t2 is Nul)
    } else if t2 is Tout {
        !(t1 is Rien) && !(t1 is Nul)
    } else if let ASTypeV::Optional(t) = t1 {
        t2 is Nul || astype_matches(*t, t2)
    } else if let ASTypeV::Optional(t) = t2 {
        t1 is Nul || astype_matches(*t, t1)
    } else if (t1 is Objet && t2 is ClasseInst) || (t1 is ClasseInst && t2 is Objet) {
        true
    } else if let ASTypeV::Union(ts) = t1 {
        any_astype_matches(ts, t2)
    } else if let ASTypeV::Union(ts) = t2 {
        any_astype_matches(ts, t1)
    } else {
        match (t1, t2) {
            (ASTypeV::Liste, ASTypeV::Array(_)) => true,
            (ASTypeV::Array(_), ASTypeV::Liste) => true,
            (ASTypeV::Array(a), ASTypeV::Array(b)) => a.len() == b.len() && pairwise_astype_match(a, b),
            (ASTypeV::Decimal, ASTypeV::Entier) => true,
            _ => false,
        }
    }
}

/// Some type of `ts` matches `o`.
pub open spec fn any_astype_matches(ts: Seq<ASTypeV>, o: ASTypeV) -> bool
    decreases tys_size(ts) + ty_size(o),
{
    if ts.len() == 0 {
        false
    } else {
        any_astype_matches(ts.subrange(0, ts.len() - 1), o) || astype_matches(ts[ts.len() - 1], o)
    }
}

/// The types of `a` match those of `b` rank by rank.
pub open spec fn pairwise_astype_match(a: Seq<ASTypeV>, b: Seq<ASTypeV>) -> bool
    decreases tys_size(a) + tys_size(b),
{
    if a.len() == 0 || b.len() == 0 {
        true
    } else {
        pairwise_astype_match(a.subrange(0, a.len() - 1), b.subrange(0, b.len() - 1))
            && astype_matches(a[a.len() - 1], b[b.len() - 1])
    }
}

pub proof fn lemma_any_astype_matches(ts: Seq<ASTypeV>, o: ASTypeV)
    ensures
        any_astype_matches(ts, o) <==> exists|i: int| 0 <= i < ts.len() && astype_matches(#[trigger] ts[i], o),
    decreases ts.len(),
{
    if ts.len() > 0 {
        let p = ts.subrange(0, ts.len() - 1);
        lemma_any_astype_matches(p, o);
        if any_astype_matches(p, o) {
            let i = choose|i: int| 0 <= i < p.len() && astype_matches(#[trigger] p[i], o);
            assert(ts[i] == p[i]);
        }
        if exists|i: int| 0 <= i < ts.len() && astype_matches(#[trigger] ts[i], o) {
            let i = choose|i: int| 0 <= i < ts.len() && astype_matches(#[trigger] ts[i], o);
            if i < ts.len() - 1 {
                assert(ts[i] == p[i]);
            }
        }
    }
}

pub proof fn lemma_pairwise_astype_match(a: Seq<ASTypeV>, b: Seq<ASTypeV>)
    requires
        a.len() == b.len(),
    ensures
        pairwise_astype_match(a, b) <==> forall|i: int| 0 <= i < a.len() ==> astype_matches(#[trigger] a[i], b[i]),
    decreases a.len(),
{
    if a.len() > 0 {
        let pa = a.subrange(0, a.len() - 1);
        let pb = b.subrange(0, b.len() - 1);
        lemma_pairwise_astype_match(pa, pb);
        if pairwise_astype_match(a, b) {
            assert forall|i: int| 0 <= i < a.len() implies astype_matches(#[trigger] a[i], b[i]) by {
                if i < a.len() - 1 {
                    assert(a[i] == pa[i]);
                    assert(b[i] == pb[i]);
                }
            }
        }
        if forall|i: int| 0 <= i < a.len() ==> astype_matches(#[trigger] a[i], b[i]) {
            assert forall|i: int| 0 <= i < pa.len() implies astype_matches(#[trigger] pa[i], pb[i]) by {
                assert(a[i] == pa[i]);
                assert(b[i] == pb[i]);
            }
        }
    }
}

/// Some type of `ts` matches `o`.
fn any_astype_match(ts: &Vec<ASType>, o: &ASType) -> (r: bool)
    ensures
        r == any_astype_matches(astypes_view(ts@), o@),
    decreases tys_size(astypes_view(ts@)) + ty_size(o@),
{
    proof {
        lemma_astypes_view(ts@);
        lemma_any_astype_matches(astypes_view(ts@), o@);
    }
    let ghost tv = astypes_view(ts@);
    let mut i: usize = 0;
    while i < ts.len()
        invariant
            i <= ts@.len(),
            tv == astypes_view(ts@),
            tv.len() == ts@.len(),
            forall|j: int| 0 <= j < ts@.len() ==> #[trigger] tv[j] == astype_view(ts@[j]),
            forall|j: int| 0 <= j < i ==> !astype_matches(#[trigger] tv[j], o@),
        decreases ts@.len() - i,
    {
        proof { lemma_tys_size(tv, i as int); }
        if ASType::type_match(&ts[i], o) {
            assert(astype_matches(tv[i as int], o@));
            proof { lemma_any_astype_matches(tv, o@); }
            return true;
        }
        i = i + 1;
    }
    false
}

impl ASType {
    /// Whether a value of type `type2` is accepted where `type1` is expected.
    pub fn type_match(type1: &ASType, type2: &ASType) -> (r: bool)
        ensures
            r == astype_matches(type1@, type2@),
        decreases ty_size(type1@) + ty_size(type2@),
    {
        if type1.eq(type2) {
            return true;
        }
        if let ASType::Tout = type1 {
            return !matches!(type2, ASType::Rien) && !matches!(type2, ASType::Nul);
        }
        if let ASType::Tout = type2 {
            return !matches!(type1, ASType::Rien) && !matches!(type1, ASType::Nul);
        }
        if let ASType::Optional(t) = type1 {
            return matches!(type2, ASType::Nul) || ASType::type_match(&**t, type2);
        }
        if let ASType::Optional(t) = type2 {
            return matches!(type1, ASType::Nul) || ASType::type_match(&**t, type1);
        }
        match (type1, type2) {
            (ASType::Objet(_), ASType::ClasseInst) => { return true; },
            (ASType::ClasseInst, ASType::Objet(_)) => { return true; },
            _ => {},
        }
        if let ASType::Union(ts) = type1 {
            return any_astype_match(ts, type2);
        }
        if let ASType::Union(ts) = type2 {
            return any_astype_match(ts, type1);
        }
        match (type1, type2) {
            (ASType::Liste, ASType::Array(_)) => true,
            (ASType::Array(_), ASType::Liste) => true,
            (ASType::Array(a), ASType::Array(b)) => {
                proof {
                    lemma_astypes_view(a@);
                    lemma_astypes_view(b@);
                }
                if a.len() != b.len() {
                    return false;
                }
                proof { lemma_pairwise_astype_match(astypes_view(a@), astypes_view(b@)); }
                let mut i: usize = 0;
                while i < a.len()
                    invariant
                        a@.len() == b@.len(),
                        i <= a@.len(),
                        type1@ == ASTypeV::Array(astypes_view(a@)),
                        type2@ == ASTypeV::Array(astypes_view(b@)),
                        astypes_view(a@).len() == a@.len(),
                        astypes_view(b@).len() == b@.len(),
                        forall|j: int| 0 <= j < a@.len() ==> #[trigger] astypes_view(a@)[j] == astype_view(a@[j]),
                        forall|j: int| 0 <= j < b@.len() ==> #[trigger] astypes_view(b@)[j] == astype_view(b@[j]),
                        forall|j: int| 0 <= j < i ==> astype_matches(astype_view(#[trigger] a@[j]), astype_view(b@[j])),
                    decreases a@.len() - i,
                {
                    proof {
                        lemma_tys_size(astypes_view(a@), i as int);
                        lemma_tys_size(astypes_view(b@), i as int);
                    }
                    if !ASType::type_match(&a[i], &b[i]) {
                        assert(!astype_matches(astypes_view(a@)[i as int], astypes_view(b@)[i as int]));
                        proof { lemma_pairwise_astype_match(astypes_view(a@), astypes_view(b@)); }
                        return false;
                    }
                    i = i + 1;
                }
                assert forall|j: int| 0 <= j < a@.len() implies astype_matches(#[trigger] astypes_view(a@)[j], astypes_view(b@)[j]) by {
                    assert(astype_matches(astype_view(a@[j]), astype_view(b@[j])));
                }
                true
            },
            (ASType::Decimal, ASType::Entier) => true,
            _ => false,
        }
    }
}

/// The members of a union list: a union among them stands for its own members.
pub open spec fn flatten_astypes(ts: Seq<ASTypeV>) -> Seq<ASTypeV>
    decreases ts.len(),
{
    if ts.len() == 0 {
        Seq::empty()
    } else {
        let last = ts.last();
        flatten_astypes(ts.drop_last()) + match last {
            ASTypeV::Union(us) => us,
            _ => seq![last],
        }
    }
}

/// The union of `ts`: a single type stands for itself, otherwise the union of
/// the members of `ts`.
pub open spec fn astype_union(ts: Seq<ASTypeV>) -> ASTypeV {
    if ts.len() == 1 {
        ts[0]
    } else {
        ASTypeV::Union(flatten_astypes(ts))
    }
}

/// Whether a type is or contains `tout`.
pub open spec fn astype_is_tout(t: ASTypeV) -> bool
    decreases t,
{
    match t {
        ASTypeV::Union(ts) => exists|i: int| 0 <= i < ts.len() && ts[i] is Tout,
        ASTypeV::Optional(b) => astype_is_tout(*b),
        _ => t is Tout,
    }
}

/// Whether values of a type are primitive values.
pub open spec fn astype_is_primitif(t: ASTypeV) -> bool {
    t is Entier || t is Decimal || t is Texte || t is Booleen || t is Nul || t is Optional
}

/// The type `tout?`, which accepts every value.
pub open spec fn astype_any() -> ASTypeV {
    ASTypeV::Optional(Box::new(ASTypeV::Tout))
}

impl ASType {
    /// `entier | décimal`.
    pub fn nombre() -> (r: ASType)
        ensures
            r@ == ASTypeV::Union(seq![ASTypeV::Entier, ASTypeV::Decimal]),
    {
        let r = ASType::Union(vec![ASType::Entier, ASType::Decimal]);
        assert(astypes_view(seq![ASType::Entier, ASType::Decimal]) =~= seq![ASTypeV::Entier, ASTypeV::Decimal]) by {
            reveal_with_fuel(astypes_view, 3);
        }
        r
    }

    /// The types whose values can be walked through.
    pub fn iterable() -> (r: ASType)
        ensures
            r@ == ASTypeV::Union(
                seq![ASTypeV::Liste, ASTypeV::Texte, ASTypeV::Dict, ASTypeV::Classe, ASTypeV::ClasseInst],
            ),
    {
        let r = ASType::Union(vec![ASType::Liste, ASType::Texte, ASType::Dict, ASType::Classe, ASType::ClasseInst]);
        assert(astypes_view(seq![ASType::Liste, ASType::Texte, ASType::Dict, ASType::Classe, ASType::ClasseInst])
            =~= seq![ASTypeV::Liste, ASTypeV::Texte, ASTypeV::Dict, ASTypeV::Classe, ASTypeV::ClasseInst]) by {
            reveal_with_fuel(astypes_view, 6);
        }
        r
    }

    /// The types whose values can be walked through in a fixed order.
    pub fn iterable_ordonne() -> (r: ASType)
        ensures
            r@ == ASTypeV::Union(seq![ASTypeV::Liste, ASTypeV::Texte, ASTypeV::Classe, ASTypeV::ClasseInst]),
    {
        let r = ASType::Union(vec![ASType::Liste, ASType::Texte, ASType::Classe, ASType::ClasseInst]);
        assert(astypes_view(seq![ASType::Liste, ASType::Texte, ASType::Classe, ASType::ClasseInst])
            =~= seq![ASTypeV::Liste, ASTypeV::Texte, ASTypeV::Classe, ASTypeV::ClasseInst]) by {
            reveal_with_fuel(astypes_view, 5);
        }
        r
    }

    /// The union of `types`: a single type stands for itself; otherwise the
    /// members of the unions among `types` take their place.
    pub fn union(types: Vec<ASType>) -> (r: ASType)
        ensures
            r@ == astype_union(astypes_view(types@)),
    {
        proof { lemma_astypes_view(types@); }
        if types.len() == 1 {
            let mut types = types;
            return types.remove(0);
        }
        let ghost all = astypes_view(types@);
        let mut rest = types;
        let mut out: Vec<ASType> = Vec::new();
        let ghost mut k: int = 0;
        while rest.len() > 0
            invariant
                all.len() == k + rest@.len(),
                0 <= k <= all.len(),
                astypes_view(rest@) == all.skip(k),
                astypes_view(out@) == flatten_astypes(all.take(k)),
            decreases rest.len(),
        {
            proof {
                lemma_astypes_view(rest@);
                lemma_astypes_view(out@);
            }
            let ghost old_rest = rest@;
            assert(astypes_view(old_rest)[0] == all.skip(k)[0]);
            let t = rest.remove(0);
            proof {
                assert(t == old_rest[0]);
                assert(astype_view(t) == all[k]);
                assert(rest@ =~= old_rest.subrange(1, old_rest.len() as int));
                let tk = all.take(k + 1);
                assert(tk.drop_last() =~= all.take(k));
                assert(tk.last() == all[k]);
                lemma_astypes_view(rest@);
                assert(astypes_view(rest@) =~= all.skip(k + 1)) by {
                    assert forall|i: int| 0 <= i < rest@.len() implies #[trigger] astypes_view(rest@)[i] == all.skip(k + 1)[i] by {
                        assert(rest@[i] == old_rest[i + 1]);
                        assert(astypes_view(old_rest)[i + 1] == all.skip(k)[i + 1]);
                        assert(all.skip(k)[i + 1] == all.skip(k + 1)[i]);
                    }
                }
            }
            match t {
                ASType::Union(inner) => {
                    let ghost before = out@;
                    let mut inner = inner;
                    proof { lemma_astypes_view(inner@); }
                    let ghost iv = astypes_view(inner@);
                    out.append(&mut inner);
                    proof {
                        lemma_astypes_view(out@);
                        lemma_astypes_view(before);
                        assert(astypes_view(out@) =~= astypes_view(before) + iv);
                    }
                },
                other => {
                    let ghost before = out@;
                    let ghost ov = astype_view(other);
                    out.push(other);
                    proof {
                        lemma_astypes_view(out@);
                        lemma_astypes_view(before);
                        assert(astypes_view(out@) =~= astypes_view(before) + seq![ov]);
                    }
                },
            }
            proof { k = k + 1; }
        }
        assert(all.take(k) =~= all);
        ASType::Union(out)
    }

    /// `union(vec![type1, type2])`.
    pub fn union_of(type1: ASType, type2: ASType) -> (r: ASType)
        ensures
            r@ == astype_union(seq![type1@, type2@]),
    {
        let ghost v = seq![type1, type2];
        let r = ASType::union(vec![type1, type2]);
        assert(astypes_view(v) =~= seq![v[0]@, v[1]@]) by {
            reveal_with_fuel(astypes_view, 3);
        }
        r
    }

    /// The type `type1?`: `type1` or `nul`.
    pub fn optional(type1: ASType) -> (r: ASType)
        ensures
            r@ == ASTypeV::Optional(Box::new(type1@)),
    {
        ASType::Optional(Box::new(type1))
    }

    /// The type `tout?`, which accepts every value.
    pub fn any() -> (r: ASType)
        ensures
            r@ == astype_any(),
    {
        ASType::optional(ASType::Tout)
    }

    /// Whether this type is or contains `tout`.
    pub fn is_tout(&self) -> (r: bool)
        ensures
            r == astype_is_tout(self@),
        decreases self,
    {
        match self {
            ASType::Union(types) => {
                proof { lemma_astypes_view(types@); }
                let mut i: usize = 0;
                while i < types.len()
                    invariant
                        i <= types@.len(),
                        self@ == ASTypeV::Union(astypes_view(types@)),
                        astypes_view(types@).len() == types@.len(),
                        forall|j: int| 0 <= j < types@.len() ==> #[trigger] astypes_view(types@)[j] == astype_view(types@[j]),
                        forall|j: int| 0 <= j < i ==> !(astypes_view(types@)[j] is Tout),
                    decreases types@.len() - i,
                {
                    if let ASType::Tout = &types[i] {
                        assert(astypes_view(types@)[i as int] is Tout);
                        return true;
                    }
                    i = i + 1;
                }
                false
            },
            ASType::Optional(t) => (**t).is_tout(),
            ASType::Tout => true,
            _ => false,
        }
    }

    /// Whether values of this type are primitive values.
    pub fn is_primitif(&self) -> (r: bool)
        ensures
            r == astype_is_primitif(self@),
    {
        matches!(self, ASType::Entier | ASType::Decimal | ASType::Texte | ASType::Booleen | ASType::Nul | ASType::Optional(_))
    }

    /// A declared type, or `tout?` when none was declared.
    pub fn from_option(value: Option<ASType>) -> (r: ASType)
        ensures
            r@ == match value {
                Some(t) => t@,
                None => astype_any(),
            },
    {
        match value {
            Some(t) => t,
            None => ASType::any(),
        }
    }
}

/// Every type matches itself.
pub proof fn lemma_astype_match_reflexive(t: ASTypeV)
    ensures
        astype_matches(t, t),
{
}

/// `tout` takes in every type but `rien` and `nul`.
pub proof fn lemma_tout_takes_all_but_rien_nul(t: ASTypeV)
    ensures
        astype_matches(ASTypeV::Tout, t) <==> !(t is Rien) && !(t is Nul),
{
}

/// Where `tout?` is expected, a value of every type is accepted but `rien`.
pub proof fn lemma_any_accepts(t: ASTypeV)
    ensures
        astype_matches(astype_any(), t) <==> !(t is Rien),
{
    if t != astype_any() {
        assert(astype_matches(ASTypeV::Tout, t) <==> !(t is Rien) && !(t is Nul));
    }
}

/// Where an optional type is expected, `nul` is accepted.
pub proof fn lemma_optional_accepts_nul(t: ASTypeV)
    ensures
        astype_matches(ASTypeV::Optional(Box::new(t)), ASTypeV::Nul),
{
}

/// A `décimal` accepts an `entier`; the other way round does not hold.
pub proof fn lemma_decimal_accepts_entier()
    ensures
        astype_matches(ASTypeV::Decimal, ASTypeV::Entier),
        !astype_matches(ASTypeV::Entier, ASTypeV::Decimal),
{
}

/// How a type is written (its `Display` form).
pub open spec fn astype_str(t: ASTypeV) -> Seq<char>
    decreases t,
{
    match t {
        ASTypeV::Tout => "tout"@,
        ASTypeV::Rien => "rien"@,
        ASTypeV::Nul => "nul"@,
        ASTypeV::Optional(b) => astype_str(*b) + "?"@,
        ASTypeV::Entier => "entier"@,
        ASTypeV::Decimal => "décimal"@,
        ASTypeV::Booleen => "booléen"@,
        ASTypeV::Texte => "texte"@,
        ASTypeV::Liste => "liste"@,
        ASTypeV::Dict => "dict"@,
        ASTypeV::Module => "module"@,
        ASTypeV::Objet(o) => o,
        ASTypeV::Fonction => "fonction"@,
        ASTypeV::Classe => "structure"@,
        ASTypeV::ClasseInst => "objet"@,
        ASTypeV::Union(ts) => join(astypes_str(ts), " | "@),
        ASTypeV::Array(ts) => "["@ + join(astypes_str(ts), ", "@) + "]"@,
    }
}

/// How each type of a sequence is written.
pub open spec fn astypes_str(ts: Seq<ASTypeV>) -> Seq<Seq<char>>
    decreases ts,
{
    if ts.len() == 0 {
        Seq::empty()
    } else {
        astypes_str(ts.subrange(0, ts.len() - 1)).push(astype_str(ts[ts.len() - 1]))
    }
}

pub proof fn lemma_astypes_str(ts: Seq<ASTypeV>)
    ensures
        astypes_str(ts).len() == ts.len(),
        forall|i: int| 0 <= i < ts.len() ==> #[trigger] astypes_str(ts)[i] == astype_str(ts[i]),
    decreases ts.len(),
{
    if ts.len() > 0 {
        let p = ts.subrange(0, ts.len() - 1);
        lemma_astypes_str(p);
        assert forall|i: int| 0 <= i < ts.len() implies #[trigger] astypes_str(ts)[i] == astype_str(ts[i]) by {
            if i < ts.len() - 1 {
                assert(p[i] == ts[i]);
            }
        }
    }
}

fn astypes_to_strings(ts: &Vec<ASType>) -> (r: Vec<String>)
    ensures
        string_views(r@) == astypes_str(astypes_view(ts@)),
    decreases ts,
{
    proof {
        lemma_astypes_view(ts@);
        lemma_astypes_str(astypes_view(ts@));
    }
    let ghost target = astypes_str(astypes_view(ts@));
    let mut r: Vec<String> = Vec::new();
    let mut i: usize = 0;
    while i < ts.len()
        invariant
            i <= ts@.len(),
            r@.len() == i,
            target == astypes_str(astypes_view(ts@)),
            target.len() == ts@.len(),
            forall|j: int| 0 <= j < ts@.len() ==> #[trigger] target[j] == astype_str(astype_view(ts@[j])),
            forall|j: int| 0 <= j < i ==> (#[trigger] r@[j])@ == target[j],
        decreases ts@.len() - i,
    {
        proof { broadcast use vstd::std_specs::vec::axiom_vec_index_decreases; }
        assert(decreases_to!(ts => ts[i as int]));
        let t = ts[i].to_string();
        r.push(t);
        i = i + 1;
    }
    assert(string_views(r@) =~= target);
    r
}

/// The type a type name stands for; a name that is not a type of the
/// language names an object type.
pub open spec fn astype_of_name(s: Seq<char>) -> ASTypeV {
    if s == "entier"@ {
        ASTypeV::Entier
    } else if s == "decimal"@ || s == "décimal"@ {
        ASTypeV::Decimal
    } else if s == "booleen"@ || s == "booléen"@ {
        ASTypeV::Booleen
    } else if s == "nombre"@ {
        ASTypeV::Union(seq![ASTypeV::Entier, ASTypeV::Decimal])
    } else if s == "iterable"@ || s == "itérable"@ {
        ASTypeV::Union(seq![ASTypeV::Liste, ASTypeV::Texte, ASTypeV::Dict, ASTypeV::Classe, ASTypeV::ClasseInst])
    } else if s == "texte"@ {
        ASTypeV::Texte
    } else if s == "liste"@ {
        ASTypeV::Liste
    } else if s == "rien"@ || s == "nul"@ {
        ASTypeV::Nul
    } else if s == "tout"@ {
        ASTypeV::Tout
    } else if s == "fonction"@ {
        ASTypeV::Fonction
    } else if s == "classe"@ {
        ASTypeV::Classe
    } else if s == "module"@ {
        ASTypeV::Module
    } else if s == "instance"@ {
        ASTypeV::ClasseInst
    } else if s == "objet"@ {
        ASTypeV::Union(seq![ASTypeV::ClasseInst, ASTypeV::Dict, ASTypeV::Classe])
    } else {
        ASTypeV::Objet(s)
    }
}

impl ASType {
    /// How this type is written (its `Display` form).
    pub fn to_string(&self) -> (s: String)
        ensures
            s@ == astype_str(self@),
        decreases self,
    {
        match self {
            ASType::Tout => String::from_str("tout"),
            ASType::Rien => String::from_str("rien"),
            ASType::Nul => String::from_str("nul"),
            ASType::Optional(b) => {
                let mut s = (**b).to_string();
                s.append("?");
                s
            },
            ASType::Entier => String::from_str("entier"),
            ASType::Decimal => String::from_str("décimal"),
            ASType::Booleen => String::from_str("booléen"),
            ASType::Texte => String::from_str("texte"),
            ASType::Liste => String::from_str("liste"),
            ASType::Dict => String::from_str("dict"),
            ASType::Module => String::from_str("module"),
            ASType::Objet(o) => o.clone(),
            ASType::Fonction => String::from_str("fonction"),
            ASType::Classe => String::from_str("structure"),
            ASType::ClasseInst => String::from_str("objet"),
            ASType::Union(ts) => {
                let parts = astypes_to_strings(ts);
                crate::text::join_strings(&parts, " | ")
            },
            ASType::Array(ts) => {
                let parts = astypes_to_strings(ts);
                let mut s = String::from_str("[");
                let inner = crate::text::join_strings(&parts, ", ");
                s.append(inner.as_str());
                s.append("]");
                s
            },
        }
    }

    /// The type a type name stands for (never fails: an unknown name is the
    /// name of an object type).
    pub fn from_str(s: &str) -> (r: ASType)
        ensures
            r@ == astype_of_name(s@),
    {
        if str_eq(s, "entier") {
            ASType::Entier
        } else if str_eq(s, "decimal") || str_eq(s, "décimal") {
            ASType::Decimal
        } else if str_eq(s, "booleen") || str_eq(s, "booléen") {
            ASType::Booleen
        } else if str_eq(s, "nombre") {
            ASType::nombre()
        } else if str_eq(s, "iterable") || str_eq(s, "itérable") {
            ASType::iterable()
        } else if str_eq(s, "texte") {
            ASType::Texte
        } else if str_eq(s, "liste") {
            ASType::Liste
        } else if str_eq(s, "rien") || str_eq(s, "nul") {
            ASType::Nul
        } else if str_eq(s, "tout") {
            ASType::Tout
        } else if str_eq(s, "fonction") {
            ASType::Fonction
        } else if str_eq(s, "classe") {
            ASType::Classe
        } else if str_eq(s, "module") {
            ASType::Module
        } else if str_eq(s, "instance") {
            ASType::ClasseInst
        } else if str_eq(s, "objet") {
            let r = ASType::union(vec![ASType::ClasseInst, ASType::Dict, ASType::Classe]);
            proof {
                let v = seq![ASType::ClasseInst, ASType::Dict, ASType::Classe];
                assert(astypes_view(v) =~= seq![ASTypeV::ClasseInst, ASTypeV::Dict, ASTypeV::Classe]) by {
                    reveal_with_fuel(astypes_view, 4);
                }
                let w = seq![ASTypeV::ClasseInst, ASTypeV::Dict, ASTypeV::Classe];
                assert(flatten_astypes(w) =~= w) by {
                    reveal_with_fuel(flatten_astypes, 4);
                    assert(w.drop_last().drop_last().drop_last() =~= Seq::<ASTypeV>::empty());
                    assert(flatten_astypes(w.drop_last().drop_last()) =~= seq![ASTypeV::ClasseInst]);
                    assert(flatten_astypes(w.drop_last()) =~= seq![ASTypeV::ClasseInst, ASTypeV::Dict]);
                }
            }
            r
        } else {
            ASType::Objet(s.to_string())
        }
    }
}

/// Who may read a field of a class.
#[derive(Debug, PartialEq, Eq, Structural, Clone, Copy)]
pub enum ASClasseFieldVis {
    Publique,
    Privee,
}

/// A declared variable: its name, its static type and whether it may be
/// reassigned.
#[derive(Debug, Clone)]
pub struct ASVar {
    name: String,
    static_type: ASType,
    is_const: bool,
}

impl ASVar {
    /// The name of the variable.
    pub closed spec fn name(&self) -> Seq<char> {
        self.name@
    }

    /// The static type of the variable.
    pub closed spec fn static_type(&self) -> ASTypeV {
        self.static_type@
    }

    /// Whether the variable is a constant.
    pub closed spec fn constant(&self) -> bool {
        self.is_const
    }

    /// A variable; without a declared type it takes `tout?`.
    pub fn new(name: String, static_type: Option<ASType>, is_const: bool) -> (r: Self)
        ensures
            r.name() == name@,
            r.static_type() == match static_type {
                Some(t) => t@,
                None => astype_any(),
            },
            r.constant() == is_const,
    {
        ASVar { name, static_type: ASType::from_option(static_type), is_const }
    }

    pub fn get_name(&self) -> (r: &String)
        ensures
            r@ == self.name(),
    {
        &self.name
    }

    pub fn get_type(&self) -> (r: &ASType)
        ensures
            r@ == self.static_type(),
    {
        &self.static_type
    }

    pub fn is_const(&self) -> (r: bool)
        ensures
            r == self.constant(),
    {
        self.is_const
    }

    /// Whether the variable is the one named `other`: a variable equals a
    /// text exactly when its name does.
    pub fn eq_name(&self, other: &String) -> (r: bool)
        ensures
            r == (self.name() == other@),
    {
        str_eq(self.name.as_str(), other.as_str())
    }

    /// Whether two variables are equal: same name, same type, both constant
    /// or both not.
    pub fn eq(&self, other: &ASVar) -> (r: bool)
        ensures
            r == (self.name() == other.name() && self.static_type() == other.static_type() && self.constant()
                == other.constant()),
    {
        str_eq(self.name.as_str(), other.name.as_str()) && self.static_type.eq(&other.static_type)
            && self.is_const == other.is_const
    }

    /// A copy of the variable.
    pub fn copy(&self) -> (r: ASVar)
        ensures
            r.name() == self.name(),
            r.static_type() == self.static_type(),
            r.constant() == self.constant(),
    {
        ASVar { name: self.name.clone(), static_type: self.static_type.copy(), is_const: self.is_const }
    }

    /// Whether a value of type `static_type` may be stored in the variable.
    pub fn type_match(&self, static_type: &ASType) -> (r: bool)
        ensures
            r == astype_matches(self.static_type(), static_type@),
    {
        ASType::type_match(&self.static_type, static_type)
    }
}

/// A union matches a type on either side exactly when one of its members
/// matches it (for a type that is not itself a union, an optional type or
/// `tout`, which have rules of their own).
pub proof fn lemma_astype_union_matches_by_a_member(t: ASTypeV, ts: Seq<ASTypeV>)
    requires
        !(t is Union),
        !(t is Optional),
        !(t is Tout),
    ensures
        astype_matches(t, ASTypeV::Union(ts)) <==> exists|i: int| 0 <= i < ts.len() && astype_matches(#[trigger] ts[i], t),
        astype_matches(ASTypeV::Union(ts), t) <==> exists|i: int| 0 <= i < ts.len() && astype_matches(#[trigger] ts[i], t),
{
    lemma_any_astype_matches(ts, t);
}

/// A union accepts each of its members, and each member accepts the union.
pub proof fn lemma_astype_union_accepts_its_members(t: ASTypeV, ts: Seq<ASTypeV>)
    requires
        ts.contains(t),
        !(t is Union),
        !(t is Optional),
        !(t is Tout),
    ensures
        astype_matches(t, ASTypeV::Union(ts)),
        astype_matches(ASTypeV::Union(ts), t),
{
    let i = choose|i: int| 0 <= i < ts.len() && ts[i] == t;
    lemma_astype_match_reflexive(t);
    assert(astype_matches(ts[i], t));
    lemma_astype_union_matches_by_a_member(t, ts);
}

/// The name `nombre` stands for the numbers: it accepts integers and
/// decimals, not texts, and is written back as `entier | décimal`.
pub proof fn lemma_number_name_denotes_numbers()
    ensures
        astype_matches(astype_of_name("nombre"@), ASTypeV::Entier),
        astype_matches(astype_of_name("nombre"@), ASTypeV::Decimal),
        !astype_matches(astype_of_name("nombre"@), ASTypeV::Texte),
        astype_of_name("nombre"@) == ASTypeV::Union(seq![ASTypeV::Entier, ASTypeV::Decimal]),
{
    reveal_strlit("nombre");
    reveal_strlit("entier");
    reveal_strlit("decimal");
    reveal_strlit("décimal");
    reveal_strlit("booleen");
    reveal_strlit("booléen");
    let ts = seq![ASTypeV::Entier, ASTypeV::Decimal];
    assert("nombre"@ != "entier"@) by {
        assert("nombre"@[0] != "entier"@[0]);
    }
    assert("nombre"@ != "decimal"@) by {
        assert("nombre"@[0] != "decimal"@[0]);
    }
    assert("nombre"@ != "décimal"@) by {
        assert("nombre"@[0] != "décimal"@[0]);
    }
    assert("nombre"@ != "booleen"@) by {
        assert("nombre"@[0] != "booleen"@[0]);
    }
    assert("nombre"@ != "booléen"@) by {
        assert("nombre"@[0] != "booléen"@[0]);
    }
    assert(ts.contains(ASTypeV::Entier)) by {
        assert(ts[0] == ASTypeV::Entier);
    }
    assert(ts.contains(ASTypeV::Decimal)) by {
        assert(ts[1] == ASTypeV::Decimal);
    }
    lemma_astype_union_accepts_its_members(ASTypeV::Entier, ts);
    lemma_astype_union_accepts_its_members(ASTypeV::Decimal, ts);
    lemma_astype_union_matches_by_a_member(ASTypeV::Texte, ts);
    assert forall|i: int| 0 <= i < ts.len() implies !astype_matches(#[trigger] ts[i], ASTypeV::Texte) by {
        if i == 0 {
            assert(ts[i] == ASTypeV::Entier);
        } else {
            assert(ts[i] == ASTypeV::Decimal);
        }
    }
}


/// The type names that admit decimal values are exactly `décimal` (with or
/// without its accent), `nombre` and `tout`; every other name, whether of a
/// type of the language or of an object type, refuses them.
pub proof fn lemma_names_admitting_decimals(s: Seq<char>)
    ensures
        astype_matches(astype_of_name(s), ASTypeV::Decimal) <==> (s == "decimal"@ || s == "décimal"@
            || s == "nombre"@ || s == "tout"@),
{
    lemma_type_name_letters();
    let t = astype_of_name(s);
    let d = ASTypeV::Decimal;
    if s == "nombre"@ {
        let ts = seq![ASTypeV::Entier, ASTypeV::Decimal];
        assert(ts[1] == d);
        lemma_astype_union_accepts_its_members(d, ts);
    } else if s == "iterable"@ || s == "itérable"@ {
        let ts = seq![ASTypeV::Liste, ASTypeV::Texte, ASTypeV::Dict, ASTypeV::Classe, ASTypeV::ClasseInst];
        lemma_astype_union_matches_by_a_member(d, ts);
        assert forall|i: int| 0 <= i < ts.len() implies !astype_matches(#[trigger] ts[i], d) by {
            assert(!(ts[i] is Decimal || ts[i] is Tout || ts[i] is Union || ts[i] is Optional));
        }
    } else if s == "objet"@ {
        let ts = seq![ASTypeV::ClasseInst, ASTypeV::Dict, ASTypeV::Classe];
        lemma_astype_union_matches_by_a_member(d, ts);
        assert forall|i: int| 0 <= i < ts.len() implies !astype_matches(#[trigger] ts[i], d) by {
            assert(!(ts[i] is Decimal || ts[i] is Tout || ts[i] is Union || ts[i] is Optional));
        }
    }
}

/// A type written out by `to_string` is read back by `from_str` as itself,
/// for every type that has a name of its own.
pub proof fn lemma_type_names_read_back(t: ASTypeV)
    requires
        t is Tout || t is Nul || t is Entier || t is Decimal || t is Booleen || t is Texte
            || t is Liste || t is Module || t is Fonction,
    ensures
        astype_of_name(astype_str(t)) == t,
{
    lemma_type_name_letters();
}


/// The lengths and leading letters of the type names, which tell them apart.
proof fn lemma_type_name_letters()
    ensures
        "entier"@.len() == 6 && "entier"@[0] == 'e' && "entier"@[1] == 'n' && "entier"@[2] == 't' && "entier"@[4] == 'e',
        "decimal"@.len() == 7 && "decimal"@[0] == 'd' && "decimal"@[1] == 'e' && "decimal"@[2] == 'c' && "decimal"@[4] == 'm',
        "décimal"@.len() == 7 && "décimal"@[0] == 'd' && "décimal"@[1] == 'é' && "décimal"@[2] == 'c' && "décimal"@[4] == 'm',
        "booleen"@.len() == 7 && "booleen"@[0] == 'b' && "booleen"@[1] == 'o' && "booleen"@[2] == 'o' && "booleen"@[4] == 'e',
        "booléen"@.len() == 7 && "booléen"@[0] == 'b' && "booléen"@[1] == 'o' && "booléen"@[2] == 'o' && "booléen"@[4] == 'é',
        "nombre"@.len() == 6 && "nombre"@[0] == 'n' && "nombre"@[1] == 'o' && "nombre"@[2] == 'm' && "nombre"@[4] == 'r',
        "iterable"@.len() == 8 && "iterable"@[0] == 'i' && "iterable"@[1] == 't' && "iterable"@[2] == 'e' && "iterable"@[4] == 'a',
        "itérable"@.len() == 8 && "itérable"@[0] == 'i' && "itérable"@[1] == 't' && "itérable"@[2] == 'é' && "itérable"@[4] == 'a',
        "texte"@.len() == 5 && "texte"@[0] == 't' && "texte"@[1] == 'e' && "texte"@[2] == 'x' && "texte"@[4] == 'e',
        "liste"@.len() == 5 && "liste"@[0] == 'l' && "liste"@[1] == 'i' && "liste"@[2] == 's' && "liste"@[4] == 'e',
        "rien"@.len() == 4 && "rien"@[0] == 'r' && "rien"@[1] == 'i' && "rien"@[2] == 'e',
        "nul"@.len() == 3 && "nul"@[0] == 'n' && "nul"@[1] == 'u' && "nul"@[2] == 'l',
        "tout"@.len() == 4 && "tout"@[0] == 't' && "tout"@[1] == 'o' && "tout"@[2] == 'u',
        "fonction"@.len() == 8 && "fonction"@[0] == 'f' && "fonction"@[1] == 'o' && "fonction"@[2] == 'n' && "fonction"@[4] == 't',
        "classe"@.len() == 6 && "classe"@[0] == 'c' && "classe"@[1] == 'l' && "classe"@[2] == 'a' && "classe"@[4] == 's',
        "module"@.len() == 6 && "module"@[0] == 'm' && "module"@[1] == 'o' && "module"@[2] == 'd' && "module"@[4] == 'l',
        "instance"@.len() == 8 && "instance"@[0] == 'i' && "instance"@[1] == 'n' && "instance"@[2] == 's' && "instance"@[4] == 'a',
        "objet"@.len() == 5 && "objet"@[0] == 'o' && "objet"@[1] == 'b' && "objet"@[2] == 'j' && "objet"@[4] == 't',
{
    reveal_strlit("entier");
    reveal_strlit("decimal");
    reveal_strlit("décimal");
    reveal_strlit("booleen");
    reveal_strlit("booléen");
    reveal_strlit("nombre");
    reveal_strlit("iterable");
    reveal_strlit("itérable");
    reveal_strlit("texte");
    reveal_strlit("liste");
    reveal_strlit("rien");
    reveal_strlit("nul");
    reveal_strlit("tout");
    reveal_strlit("fonction");
    reveal_strlit("classe");
    reveal_strlit("module");
    reveal_strlit("instance");
    reveal_strlit("objet");
}

} // verus!
