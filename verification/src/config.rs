//! What a virtual machine is allowed to do: permission sets, the actions
//! they govern, and the configuration built from them.
use vstd::prelude::*;

use crate::compiler::CompilerOptions;
use crate::err::{error_message, RuntimeError};
use crate::obj::Function;
use crate::text::str_eq;

verus! {

/// A key of a permission set, compared by its value.
pub trait PermissionKey: View + Sized {
    /// Whether the two keys are equal.
    fn same_key(&self, other: &Self) -> (r: bool)
        ensures
            r == (self@ == other@);

    /// A copy of the key.
    fn copy_key(&self) -> (r: Self)
        ensures
            r@ == self@;
}

/// The keys listed in `v`.
pub open spec fn key_set<T: View>(v: Seq<T>) -> Set<T::V> {
    Set::new(|k: T::V| exists|i: int| 0 <= i < v.len() && (#[trigger] v[i])@ == k)
}

/// A set of permissions: either the keys it lists are allowed, or all keys
/// but those it lists.
#[derive(Debug)]
pub enum PermissionSet<T: PermissionKey> {
    Include(Vec<T>),
    Exclude(Vec<T>),
}

/// The mathematical value of a [`PermissionSet`].
#[verifier::reject_recursive_types(K)]
pub enum PermissionSetV<K> {
    Include(Set<K>),
    Exclude(Set<K>),
}

impl<K> PermissionSetV<K> {
    /// Whether the set allows `k`.
    pub open spec fn allows(self, k: K) -> bool {
        match self {
            PermissionSetV::Include(s) => s.contains(k),
            PermissionSetV::Exclude(s) => !s.contains(k),
        }
    }
}

impl<T: PermissionKey> View for PermissionSet<T> {
    type V = PermissionSetV<T::V>;

    open spec fn view(&self) -> PermissionSetV<T::V> {
        match self {
            PermissionSet::Include(v) => PermissionSetV::Include(key_set(v@)),
            PermissionSet::Exclude(v) => PermissionSetV::Exclude(key_set(v@)),
        }
    }
}

fn list_contains<T: PermissionKey>(v: &Vec<T>, value: &T) -> (r: bool)
    ensures
        r == key_set(v@).contains(value@),
{
    let mut i: usize = 0;
    while i < v.len()
        invariant
            i <= v@.len(),
            forall|j: int| 0 <= j < i ==> (#[trigger] v@[j])@ != value@,
        decreases v@.len() - i,
    {
        if v[i].same_key(value) {
            assert(key_set(v@).contains(value@)) by {
                assert(v@[i as int]@ == value@);
            }
            return true;
        }
        i = i + 1;
    }
    false
}

fn copy_keys<T: PermissionKey>(v: &Vec<T>) -> (r: Vec<T>)
    ensures
        r@.len() == v@.len(),
        forall|i: int| 0 <= i < v@.len() ==> (#[trigger] r@[i])@ == v@[i]@,
        key_set(r@) == key_set(v@),
{
    let mut r: Vec<T> = Vec::new();
    let mut i: usize = 0;
    while i < v.len()
        invariant
            i <= v@.len(),
            r@.len() == i,
            forall|j: int| 0 <= j < i ==> (#[trigger] r@[j])@ == v@[j]@,
        decreases v@.len() - i,
    {
        r.push(v[i].copy_key());
        i = i + 1;
    }
    assert(key_set(r@) =~= key_set(v@)) by {
        assert forall|k: T::V| key_set(v@).contains(k) implies key_set(r@).contains(k) by {
            let i = choose|i: int| 0 <= i < v@.len() && (#[trigger] v@[i])@ == k;
            assert(r@[i]@ == k);
        }
        assert forall|k: T::V| key_set(r@).contains(k) implies key_set(v@).contains(k) by {
            let i = choose|i: int| 0 <= i < r@.len() && (#[trigger] r@[i])@ == k;
            assert(v@[i]@ == k);
        }
    }
    r
}

impl<T: PermissionKey> PermissionSet<T> {
    /// Whether `value` is allowed: listed in an including set, or not listed
    /// in an excluding one.
    pub fn includes(&self, value: &T) -> (r: bool)
        ensures
            r == self@.allows(value@),
    {
        match self {
            PermissionSet::Include(v) => list_contains(v, value),
            PermissionSet::Exclude(v) => !list_contains(v, value),
        }
    }

    /// A copy of the set.
    pub fn copy(&self) -> (r: Self)
        ensures
            r@ == self@,
    {
        match self {
            PermissionSet::Include(v) => PermissionSet::Include(copy_keys(v)),
            PermissionSet::Exclude(v) => PermissionSet::Exclude(copy_keys(v)),
        }
    }
}

/// Excluding keys allows exactly what including them forbids.
pub proof fn lemma_include_exclude_complement<K>(s: Set<K>, k: K)
    ensures
        PermissionSetV::Include(s).allows(k) == !PermissionSetV::Exclude(s).allows(k),
{
}

/// An action of a program that the machine may forbid.
#[derive(Debug, Clone, Copy, PartialEq, Eq, Structural, Hash)]
pub enum VMAction {
    ReadStdin,
    WriteStdout,
    ReadFile,
    WriteFile,
    Eval,
}

impl View for VMAction {
    type V = VMAction;

    open spec fn view(&self) -> VMAction {
        *self
    }
}

impl PermissionKey for VMAction {
    fn same_key(&self, other: &Self) -> (r: bool) {
        *self == *other
    }

    fn copy_key(&self) -> (r: Self) {
        *self
    }
}

impl PermissionKey for String {
    fn same_key(&self, other: &Self) -> (r: bool) {
        *self == *other
    }

    fn copy_key(&self) -> (r: Self) {
        self.clone()
    }
}

/// The action a permission name stands for.
pub open spec fn action_of_name(s: Seq<char>) -> Option<VMAction> {
    if s == "lireEntreeStd"@ || s == "lireEntréeStd"@ {
        Some(VMAction::ReadStdin)
    } else if s == "ecrireSortieStd"@ || s == "écrireSortieStd"@ {
        Some(VMAction::WriteStdout)
    } else if s == "ecrireFichier"@ || s == "écrireFichier"@ {
        Some(VMAction::WriteFile)
    } else if s == "lireFichier"@ {
        Some(VMAction::ReadFile)
    } else if s == "eval"@ || s == "éval"@ {
        Some(VMAction::Eval)
    } else {
        None
    }
}

/// The message of an unknown permission name.
pub open spec fn unknown_permission_msg(s: Seq<char>) -> Seq<char> {
    "Valeur de permission inconnue: '"@ + s + "'"@
}

impl VMAction {
    /// The action a permission name stands for, or an error naming it.
    pub fn from_str(s: &str) -> (r: Result<VMAction, RuntimeError>)
        ensures
            match action_of_name(s@) {
                Some(a) => r == Ok::<VMAction, RuntimeError>(a),
                None => r matches Err(RuntimeError::RuntimeError(m)) && m@ == unknown_permission_msg(s@),
            },
    {
        if str_eq(s, "lireEntreeStd") || str_eq(s, "lireEntréeStd") {
            Ok(VMAction::ReadStdin)
        } else if str_eq(s, "ecrireSortieStd") || str_eq(s, "écrireSortieStd") {
            Ok(VMAction::WriteStdout)
        } else if str_eq(s, "ecrireFichier") || str_eq(s, "écrireFichier") {
            Ok(VMAction::WriteFile)
        } else if str_eq(s, "lireFichier") {
            Ok(VMAction::ReadFile)
        } else if str_eq(s, "eval") || str_eq(s, "éval") {
            Ok(VMAction::Eval)
        } else {
            let mut m = String::from_str("Valeur de permission inconnue: '");
            m.append(s);
            m.append("'");
            Err(RuntimeError::generic_err(m.as_str()))
        }
    }
}

/// What a virtual machine may do: the modules it may load, the actions it
/// may take, the options of its compiler and the function it calls to find
/// a module.
pub struct VMConfig {
    pub allowed_modules: Option<PermissionSet<String>>,
    pub permissions: Option<PermissionSet<VMAction>>,
    pub compiler_options: CompilerOptions,
    pub module_searcher: Option<Function>,
}

/// Why a configuration could not be built: a field that has no default was
/// never set.
#[derive(Debug)]
pub enum VMConfigBuilderError {
    UninitializedField(String),
}

/// A configuration under construction: each field is unset (`None`) or set.
pub struct VMConfigBuilder {
    pub allowed_modules: Option<Option<PermissionSet<String>>>,
    pub permissions: Option<Option<PermissionSet<VMAction>>>,
    pub compiler_options: Option<CompilerOptions>,
    pub module_searcher: Option<Option<Function>>,
}

/// The actions of `actions`.
pub open spec fn action_set(actions: Seq<VMAction>) -> Set<VMAction> {
    key_set(actions)
}

fn copy_options(o: &CompilerOptions) -> (r: CompilerOptions)
    ensures
        r.forbidden_ops@ == o.forbidden_ops@,
{
    let mut v: Vec<crate::bytecode::Opcode> = Vec::new();
    let mut i: usize = 0;
    while i < o.forbidden_ops.len()
        invariant
            i <= o.forbidden_ops@.len(),
            v@ == o.forbidden_ops@.take(i as int),
        decreases o.forbidden_ops@.len() - i,
    {
        v.push(o.forbidden_ops[i]);
        i = i + 1;
        assert(v@ =~= o.forbidden_ops@.take(i as int));
    }
    assert(o.forbidden_ops@.take(i as int) =~= o.forbidden_ops@);
    CompilerOptions { forbidden_ops: v }
}

impl VMConfigBuilder {
    /// A builder with no field set.
    pub fn new() -> (r: Self)
        ensures
            r.allowed_modules is None,
            r.permissions is None,
            r.compiler_options is None,
            r.module_searcher is None,
    {
        VMConfigBuilder { allowed_modules: None, permissions: None, compiler_options: None, module_searcher: None }
    }

    /// Sets the modules the machine may load.
    pub fn allowed_modules(&mut self, value: Option<PermissionSet<String>>) -> (r: &mut Self)
        ensures
            *r == (VMConfigBuilder { allowed_modules: Some(value), ..*old(self) }),
            *final(self) == *final(r),
    {
        self.allowed_modules = Some(value);
        self
    }

    /// Sets the options of the compiler.
    pub fn compiler_options(&mut self, value: CompilerOptions) -> (r: &mut Self)
        ensures
            *r == (VMConfigBuilder { compiler_options: Some(value), ..*old(self) }),
            *final(self) == *final(r),
    {
        self.compiler_options = Some(value);
        self
    }

    /// Sets the function that finds a module.
    pub fn module_searcher(&mut self, value: Option<Function>) -> (r: &mut Self)
        ensures
            *r == (VMConfigBuilder { module_searcher: Some(value), ..*old(self) }),
            *final(self) == *final(r),
    {
        self.module_searcher = Some(value);
        self
    }

    /// Allows `actions`, besides those already allowed. Permissions set to
    /// exclude cannot be turned into permissions that include.
    pub fn include_permissions(&mut self, actions: Vec<VMAction>) -> (r: &mut Self)
        requires
            !(old(self).permissions matches Some(Some(PermissionSet::Exclude(_)))),
            !(old(self).permissions matches Some(None)),
        ensures
            r.permissions matches Some(Some(p)) && p@ == PermissionSetV::Include(
                match old(self).permissions {
                    Some(Some(q)) => action_set(actions@).union(
                        match q@ {
                            PermissionSetV::Include(s) => s,
                            PermissionSetV::Exclude(s) => s,
                        },
                    ),
                    _ => action_set(actions@),
                },
            ),
            r.allowed_modules == old(self).allowed_modules,
            r.compiler_options == old(self).compiler_options,
            r.module_searcher == old(self).module_searcher,
            *final(self) == *final(r),
    {
        let perms = self.permissions.take();
        match perms {
            Some(Some(PermissionSet::Include(v))) => {
                let ghost old_v = v@;
                let mut v = v;
                let mut a = actions;
                let ghost a0 = a@;
                v.append(&mut a);
                assert(key_set(v@) =~= action_set(a0).union(key_set(old_v))) by {
                    assert forall|k: VMAction| key_set(v@).contains(k) implies action_set(a0).union(key_set(old_v)).contains(k) by {
                        let i = choose|i: int| 0 <= i < v@.len() && (#[trigger] v@[i])@ == k;
                        if i < old_v.len() {
                            assert(old_v[i] == v@[i]);
                        } else {
                            assert(a0[i - old_v.len()] == v@[i]);
                        }
                    }
                    assert forall|k: VMAction| action_set(a0).union(key_set(old_v)).contains(k) implies key_set(v@).contains(k) by {
                        if key_set(old_v).contains(k) {
                            let i = choose|i: int| 0 <= i < old_v.len() && (#[trigger] old_v[i])@ == k;
                            assert(v@[i] == old_v[i]);
                        } else {
                            let i = choose|i: int| 0 <= i < a0.len() && (#[trigger] a0[i])@ == k;
                            assert(v@[old_v.len() + i] == a0[i]);
                        }
                    }
                }
                self.permissions = Some(Some(PermissionSet::Include(v)));
            },
            _ => {
                self.permissions = Some(Some(PermissionSet::Include(actions)));
            },
        }
        self
    }

    /// Forbids `actions`, besides those already forbidden. Permissions set
    /// to include cannot be turned into permissions that exclude.
    pub fn exclude_permissions(&mut self, actions: Vec<VMAction>) -> (r: &mut Self)
        requires
            !(old(self).permissions matches Some(Some(PermissionSet::Include(_)))),
            !(old(self).permissions matches Some(None)),
        ensures
            r.permissions matches Some(Some(p)) && p@ == PermissionSetV::Exclude(
                match old(self).permissions {
                    Some(Some(q)) => action_set(actions@).union(
                        match q@ {
                            PermissionSetV::Include(s) => s,
                            PermissionSetV::Exclude(s) => s,
                        },
                    ),
                    _ => action_set(actions@),
                },
            ),
            r.allowed_modules == old(self).allowed_modules,
            r.compiler_options == old(self).compiler_options,
            r.module_searcher == old(self).module_searcher,
            *final(self) == *final(r),
    {
        let perms = self.permissions.take();
        match perms {
            Some(Some(PermissionSet::Exclude(v))) => {
                let ghost old_v = v@;
                let mut v = v;
                let mut a = actions;
                let ghost a0 = a@;
                v.append(&mut a);
                assert(key_set(v@) =~= action_set(a0).union(key_set(old_v))) by {
                    assert forall|k: VMAction| key_set(v@).contains(k) implies action_set(a0).union(key_set(old_v)).contains(k) by {
                        let i = choose|i: int| 0 <= i < v@.len() && (#[trigger] v@[i])@ == k;
                        if i < old_v.len() {
                            assert(old_v[i] == v@[i]);
                        } else {
                            assert(a0[i - old_v.len()] == v@[i]);
                        }
                    }
                    assert forall|k: VMAction| action_set(a0).union(key_set(old_v)).contains(k) implies key_set(v@).contains(k) by {
                        if key_set(old_v).contains(k) {
                            let i = choose|i: int| 0 <= i < old_v.len() && (#[trigger] old_v[i])@ == k;
                            assert(v@[i] == old_v[i]);
                        } else {
                            let i = choose|i: int| 0 <= i < a0.len() && (#[trigger] a0[i])@ == k;
                            assert(v@[old_v.len() + i] == a0[i]);
                        }
                    }
                }
                self.permissions = Some(Some(PermissionSet::Exclude(v)));
            },
            _ => {
                self.permissions = Some(Some(PermissionSet::Exclude(actions)));
            },
        }
        self
    }

    /// The configuration: unset fields take their defaults (nothing
    /// restricted, default compiler options, no module searcher), but the
    /// permissions must have been set.
    pub fn build(&self) -> (r: Result<VMConfig, VMConfigBuilderError>)
        ensures
            match self.permissions {
                None => r matches Err(VMConfigBuilderError::UninitializedField(f)) && f@ == "permissions"@,
                Some(p) => r matches Ok(c) && {
                    &&& match (c.permissions, p) {
                        (Some(x), Some(y)) => x@ == y@,
                        (None, None) => true,
                        _ => false,
                    }
                    &&& match (c.allowed_modules, self.allowed_modules) {
                        (Some(x), Some(Some(y))) => x@ == y@,
                        (None, Some(None)) => true,
                        (None, None) => true,
                        _ => false,
                    }
                    &&& match self.compiler_options {
                        Some(o) => c.compiler_options.forbidden_ops@ == o.forbidden_ops@,
                        None => c.compiler_options.forbidden_ops@.len() == 0,
                    }
                    &&& match self.module_searcher {
                        Some(m) => c.module_searcher == m,
                        None => c.module_searcher is None,
                    }
                },
            },
    {
        let permissions = match &self.permissions {
            None => {
                return Err(VMConfigBuilderError::UninitializedField(String::from_str("permissions")));
            },
            Some(None) => None,
            Some(Some(p)) => Some(p.copy()),
        };
        let allowed_modules = match &self.allowed_modules {
            Some(Some(a)) => Some(a.copy()),
            _ => None,
        };
        let compiler_options = match &self.compiler_options {
            Some(o) => copy_options(o),
            None => CompilerOptions::default(),
        };
        let module_searcher = match &self.module_searcher {
            Some(Some(f)) => Some(f.copy()),
            _ => None,
        };
        Ok(VMConfig { allowed_modules, permissions, compiler_options, module_searcher })
    }
}

} // verus!
