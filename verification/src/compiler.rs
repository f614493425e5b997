//! The bookkeeping of the bytecode compiler: scopes and local variables,
//! captured variables, the constant pool and the jumps left to patch.
use vstd::prelude::*;

use std::sync::Arc;

use crate::bytecode::{jump_arg, jump_dist, Instructions, InstructionsView, Opcode, JUMP_OFFSET};
use crate::err::CompilationErrorKind;
use crate::obj::{same_constant, UpvalueSpec, Value};
use crate::text::str_eq;
use crate::value::{type_str, ASFunction, ArcStructure, ClosureProto, FieldProto, Type, TypeSpec, TypeSpecV, TypeSpecValue, TypeV};

verus! {

/// A local variable of the function being compiled.
#[derive(Debug)]
pub struct Local {
    /// Its name, for lookups and messages.
    pub name: String,
    /// The scope depth it lives in; -1 while declared but not initialized.
    pub depth: i32,
    /// Whether an inner function captures it.
    pub is_captured: bool,
    pub var_type: TypeSpec,
    pub is_const: bool,
    /// Whether the compiler made it for its own use (it has no source name).
    pub is_inner: bool,
}

/// A type name declared in a scope.
#[derive(Debug)]
pub struct LocalType {
    pub name: String,
    pub spec: TypeSpec,
    pub depth: i32,
}

/// Options of a compilation: the opcodes the compiled code may not use.
#[derive(Debug)]
pub struct CompilerOptions {
    pub forbidden_ops: Vec<Opcode>,
}

impl Default for CompilerOptions {
    fn default() -> (r: Self)
        ensures
            r.forbidden_ops@.len() == 0,
    {
        CompilerOptions { forbidden_ops: Vec::new() }
    }
}

/// The state of the compilation of one function; `parent` is the state of
/// the function that encloses it.
pub struct Compiler {
    pub source_name: String,
    pub input: String,
    /// The function being built.
    pub function: ASFunction,
    pub code: Instructions,
    pub parent: Option<Box<Compiler>>,
    pub locals: Vec<Local>,
    pub local_types: Vec<LocalType>,
    pub scope_depth: usize,
    pub return_type: TypeSpec,
    /// Where each captured variable of the function comes from.
    pub upvalues: Vec<UpvalueSpec>,
    pub had_error: bool,
    pub panic_mode: bool,
    /// The slots of the jump distances left to patch.
    pub jump_stack: Vec<usize>,
    pub continue_stack: Vec<usize>,
    pub break_stack: Vec<usize>,
    pub options: CompilerOptions,
}

/// Two locals agree in every field (the type annotation by its value).
pub open spec fn same_local(a: Local, b: Local) -> bool {
    &&& a.name == b.name
    &&& a.depth == b.depth
    &&& a.is_captured == b.is_captured
    &&& a.var_type@ == b.var_type@
    &&& a.is_const == b.is_const
    &&& a.is_inner == b.is_inner
}

impl Local {
    /// A copy of this local.
    pub fn copy(&self) -> (r: Local)
        ensures
            same_local(r, *self),
    {
        Local {
            name: self.name.clone(),
            depth: self.depth,
            is_captured: self.is_captured,
            var_type: self.var_type.copy(),
            is_const: self.is_const,
            is_inner: self.is_inner,
        }
    }
}

/// The annotation `tout`.
pub open spec fn tout_spec() -> TypeSpecV {
    TypeSpecV { name: "tout"@, value: crate::value::TypeSpecValueV::BaseType(TypeV::Tout) }
}

/// A compiler state with nothing compiled and nothing declared yet.
pub open spec fn is_fresh(c: Compiler) -> bool {
    &&& c.code@ == (InstructionsView { insts: Seq::empty(), opcodes: Seq::empty(), cursor: None })
    &&& c.locals@.len() == 0
    &&& c.local_types@.len() == 0
    &&& c.scope_depth == 0
    &&& c.upvalues@.len() == 0
    &&& !c.had_error
    &&& !c.panic_mode
    &&& c.jump_stack@.len() == 0
    &&& c.continue_stack@.len() == 0
    &&& c.break_stack@.len() == 0
    &&& c.function.code@.len() == 0
    &&& c.function.constants@.len() == 0
    &&& c.function.upvalue_count == 0
    &&& c.function.upvalue_specs@.len() == 0
}

impl Compiler {
    /// The compiler of a script: no enclosing function, returning `tout`.
    pub fn new(input: &str, source_name: String) -> (r: Self)
        ensures
            is_fresh(r),
            r.input@ == input@,
            r.source_name == source_name,
            r.parent is None,
            r.function.name is None,
            r.function.nb_params == 0,
            r.return_type@ == tout_spec(),
            r.options.forbidden_ops@.len() == 0,
    {
        Compiler::new_with_options(input, source_name, CompilerOptions::default())
    }

    /// The compiler of a script, with options.
    pub fn new_with_options(input: &str, source_name: String, options: CompilerOptions) -> (r: Self)
        ensures
            is_fresh(r),
            r.input@ == input@,
            r.source_name == source_name,
            r.parent is None,
            r.function.name is None,
            r.function.nb_params == 0,
            r.return_type@ == tout_spec(),
            r.options == options,
    {
        let return_type = TypeSpec::from_type(Type::Tout);
        Compiler {
            input: input.to_string(),
            source_name,
            function: ASFunction::new_anonymous(0),
            code: Instructions::new(),
            parent: None,
            locals: Vec::new(),
            local_types: Vec::new(),
            scope_depth: 0,
            upvalues: Vec::new(),
            had_error: false,
            panic_mode: false,
            jump_stack: Vec::new(),
            continue_stack: Vec::new(),
            break_stack: Vec::new(),
            return_type,
            options,
        }
    }

    /// The compiler of a function nested in the one `parent` compiles.
    pub fn new_closure(
        input: &str,
        name: Option<String>,
        parent: Compiler,
        nb_params: usize,
        return_type: TypeSpec,
    ) -> (r: Self)
        ensures
            is_fresh(r),
            r.input@ == input@,
            r.source_name == parent.source_name,
            r.parent == Some(Box::new(parent)),
            r.function.name == name,
            r.function.nb_params == nb_params,
            r.return_type == return_type,
            r.options.forbidden_ops@.len() == 0,
    {
        let source_name = parent.source_name.clone();
        Compiler {
            input: input.to_string(),
            source_name,
            function: ASFunction::new(name, nb_params),
            code: Instructions::new(),
            parent: Some(Box::new(parent)),
            locals: Vec::new(),
            local_types: Vec::new(),
            scope_depth: 0,
            upvalues: Vec::new(),
            had_error: false,
            panic_mode: false,
            jump_stack: Vec::new(),
            continue_stack: Vec::new(),
            break_stack: Vec::new(),
            return_type,
            options: CompilerOptions::default(),
        }
    }

    /// Hands the code and the captured variables to the function being built.
    pub fn finish(&mut self)
        ensures
            final(self).function.code@ == old(self).code@.insts,
            final(self).function.upvalue_specs@ == old(self).upvalues@,
            final(self).function.upvalue_count == old(self).upvalues@.len(),
            final(self).function.name == old(self).function.name,
            final(self).function.constants == old(self).function.constants,
            final(self).function.nb_params == old(self).function.nb_params,
            final(self).code == old(self).code,
            final(self).upvalues == old(self).upvalues,
            final(self).locals == old(self).locals,
            final(self).parent == old(self).parent,
            final(self).scope_depth == old(self).scope_depth,
            final(self).jump_stack == old(self).jump_stack,
    {
        let code = self.code.inner().clone();
        self.function.code = code;
        self.function.upvalue_specs = self.upvalues.clone();
        self.function.upvalue_count = self.upvalues.len();
        assert(self.function.code@ =~= old(self).code@.insts);
        assert(self.function.upvalue_specs@ =~= old(self).upvalues@);
    }

    /// Enters a nested scope.
    pub fn begin_scope(&mut self)
        requires
            old(self).scope_depth < usize::MAX,
        ensures
            *final(self) == (Compiler { scope_depth: (old(self).scope_depth + 1) as usize, ..*old(self) }),
    {
        self.scope_depth = self.scope_depth + 1;
    }
}

/// Index of the last local named `name`, or -1.
pub open spec fn last_local(locals: Seq<Local>, name: Seq<char>) -> int
    decreases locals.len(),
{
    if locals.len() == 0 {
        -1
    } else if locals.last().name@ == name {
        locals.len() - 1
    } else {
        last_local(locals.drop_last(), name)
    }
}

/// The last local named `name` is the one `last_local` gives.
pub proof fn lemma_last_local(locals: Seq<Local>, name: Seq<char>)
    ensures
        -1 <= last_local(locals, name) < locals.len(),
        last_local(locals, name) >= 0 ==> locals[last_local(locals, name)].name@ == name,
        forall|j: int| last_local(locals, name) < j < locals.len() ==> (#[trigger] locals[j]).name@ != name,
    decreases locals.len(),
{
    if locals.len() > 0 {
        lemma_last_local(locals.drop_last(), name);
        assert forall|j: int| last_local(locals, name) < j < locals.len() implies (#[trigger] locals[j]).name@ != name by {
            if j < locals.len() - 1 {
                assert(locals.drop_last()[j] == locals[j]);
            }
        }
    }
}

/// The message of a read of a variable before its initialization.
pub open spec fn uninit_msg(name: Seq<char>) -> Seq<char> {
    "Impossible de lire la variable '"@ + name + "', car elle n'a pas été initialisée"@
}

/// How many locals stay when the scope at depth `d + 1` ends: the trailing
/// locals deeper than `d` leave.
pub open spec fn kept_locals(locals: Seq<Local>, d: int) -> nat
    decreases locals.len(),
{
    if locals.len() == 0 || locals.last().depth <= d {
        locals.len()
    } else {
        kept_locals(locals.drop_last(), d)
    }
}

/// How many type names stay when the scope at depth `d + 1` ends.
pub open spec fn kept_types(types: Seq<LocalType>, d: int) -> nat
    decreases types.len(),
{
    if types.len() == 0 || types.last().depth <= d {
        types.len()
    } else {
        kept_types(types.drop_last(), d)
    }
}

/// The code after the locals deeper than `d` leave, the last first: a local
/// that is not captured is popped off the stack.
pub open spec fn scope_exit_code(code: InstructionsView, locals: Seq<Local>, d: int) -> InstructionsView
    decreases locals.len(),
{
    if locals.len() == 0 || locals.last().depth <= d {
        code
    } else {
        let next = if locals.last().is_captured {
            code
        } else {
            code.emit_op(Opcode::Pop, seq![])
        };
        scope_exit_code(next, locals.drop_last(), d)
    }
}

/// The slots of the captured locals deeper than `d`, the last first.
pub open spec fn scope_exit_captured(locals: Seq<Local>, d: int) -> Seq<usize>
    decreases locals.len(),
{
    if locals.len() == 0 || locals.last().depth <= d {
        Seq::empty()
    } else {
        let here: Seq<usize> = if locals.last().is_captured {
            seq![(locals.len() - 1) as usize]
        } else {
            Seq::empty()
        };
        here + scope_exit_captured(locals.drop_last(), d)
    }
}

pub proof fn lemma_kept_locals(locals: Seq<Local>, d: int)
    ensures
        kept_locals(locals, d) <= locals.len(),
    decreases locals.len(),
{
    if locals.len() > 0 {
        lemma_kept_locals(locals.drop_last(), d);
    }
}

pub proof fn lemma_kept_types(types: Seq<LocalType>, d: int)
    ensures
        kept_types(types, d) <= types.len(),
    decreases types.len(),
{
    if types.len() > 0 {
        lemma_kept_types(types.drop_last(), d);
    }
}

/// Scope exit keeps a valid cursor.
pub proof fn lemma_scope_exit_cursor(code: InstructionsView, locals: Seq<Local>, d: int)
    requires
        code.cursor_ok(),
    ensures
        scope_exit_code(code, locals, d).cursor_ok(),
    decreases locals.len(),
{
    if locals.len() > 0 && locals.last().depth > d {
        let next = if locals.last().is_captured {
            code
        } else {
            code.emit_op(Opcode::Pop, seq![])
        };
        lemma_scope_exit_cursor(next, locals.drop_last(), d);
    }
}

/// How many locals live at depth `d` or deeper.
pub open spec fn nb_at_depth(locals: Seq<Local>, d: int) -> nat
    decreases locals.len(),
{
    if locals.len() == 0 {
        0
    } else {
        nb_at_depth(locals.drop_last(), d) + if locals.last().depth >= d {
            1nat
        } else {
            0nat
        }
    }
}

/// The name of a local the compiler makes for itself.
pub open spec fn inner_local_name(debug_name: Seq<char>) -> Seq<char> {
    "(("@ + debug_name + "))"@
}

impl Compiler {
    /// How many locals live at the current depth or deeper.
    pub fn nb_local_scope_vars(&self) -> (n: usize)
        requires
            self.scope_depth <= i32::MAX,
        ensures
            n == nb_at_depth(self.locals@, self.scope_depth as int),
    {
        let d: i32 = self.scope_depth as i32;
        let mut n: usize = 0;
        let mut i: usize = 0;
        while i < self.locals.len()
            invariant
                i <= self.locals@.len(),
                d == self.scope_depth,
                n == nb_at_depth(self.locals@.take(i as int), d as int),
                n <= i,
            decreases self.locals@.len() - i,
        {
            assert(self.locals@.take(i + 1).drop_last() =~= self.locals@.take(i as int));
            if self.locals[i].depth >= d {
                n = n + 1;
            }
            i = i + 1;
        }
        assert(self.locals@.take(self.locals@.len() as int) =~= self.locals@);
        n
    }

    /// The index and a copy of the last local named `name`: an error if it is
    /// not initialized and `allow_uninit` is false, `None` if there is none.
    pub fn resolve_local(&self, name: &str, allow_uninit: bool) -> (r: Result<Option<(usize, Local)>, CompilationErrorKind>)
        ensures
            ({
                let i = last_local(self.locals@, name@);
                if i < 0 {
                    r matches Ok(None)
                } else if self.locals@[i].depth == -1 && !allow_uninit {
                    r matches Err(CompilationErrorKind::GenericError(m)) && m@ == uninit_msg(name@)
                } else {
                    r matches Ok(Some((j, l))) && j == i && same_local(l, self.locals@[i])
                }
            }),
    {
        proof { lemma_last_local(self.locals@, name@); }
        let mut i: usize = self.locals.len();
        while i > 0
            invariant
                i <= self.locals@.len(),
                last_local(self.locals@, name@) < i,
                -1 <= last_local(self.locals@, name@) < self.locals@.len(),
                last_local(self.locals@, name@) >= 0 ==> self.locals@[last_local(self.locals@, name@)].name@ == name@,
                forall|j: int| last_local(self.locals@, name@) < j < self.locals@.len() ==> (#[trigger] self.locals@[j]).name@ != name@,
            decreases i,
        {
            let local = &self.locals[i - 1];
            if str_eq(local.name.as_str(), name) {
                assert(last_local(self.locals@, name@) == i - 1);
                if local.depth == -1 && !allow_uninit {
                    let mut m = String::from_str("Impossible de lire la variable '");
                    m.append(name);
                    m.append("', car elle n'a pas été initialisée");
                    return Err(CompilationErrorKind::generic_error(m.as_str()));
                }
                return Ok(Some((i - 1, local.copy())));
            }
            i = i - 1;
        }
        Ok(None)
    }

    /// Marks the local at `index` as captured by an inner function.
    pub fn mark_captured(&mut self, index: usize)
        requires
            index < old(self).locals@.len(),
        ensures
            final(self).locals@.len() == old(self).locals@.len(),
            final(self).locals@[index as int].is_captured,
            final(self).locals@[index as int].name == old(self).locals@[index as int].name,
            final(self).locals@[index as int].depth == old(self).locals@[index as int].depth,
            final(self).locals@[index as int].var_type == old(self).locals@[index as int].var_type,
            final(self).locals@[index as int].is_const == old(self).locals@[index as int].is_const,
            final(self).locals@[index as int].is_inner == old(self).locals@[index as int].is_inner,
            forall|j: int| 0 <= j < old(self).locals@.len() && j != index ==> final(self).locals@[j] == old(self).locals@[j],
            *final(self) == (Compiler { locals: final(self).locals, ..*old(self) }),
    {
        let mut local = self.locals.remove(index);
        local.is_captured = true;
        self.locals.insert(index, local);
    }

    /// Gives the local at `index` the current depth if it is not initialized yet.
    pub fn mark_initialized(&mut self, index: u16)
        requires
            (index as int) < old(self).locals@.len(),
            old(self).scope_depth <= i32::MAX,
        ensures
            final(self).locals@.len() == old(self).locals@.len(),
            final(self).locals@[index as int].depth == (if old(self).locals@[index as int].depth == -1 {
                old(self).scope_depth as i32
            } else {
                old(self).locals@[index as int].depth
            }),
            final(self).locals@[index as int].name == old(self).locals@[index as int].name,
            final(self).locals@[index as int].is_captured == old(self).locals@[index as int].is_captured,
            final(self).locals@[index as int].var_type == old(self).locals@[index as int].var_type,
            final(self).locals@[index as int].is_const == old(self).locals@[index as int].is_const,
            final(self).locals@[index as int].is_inner == old(self).locals@[index as int].is_inner,
            forall|j: int| 0 <= j < old(self).locals@.len() && j != index ==> final(self).locals@[j] == old(self).locals@[j],
            *final(self) == (Compiler { locals: final(self).locals, ..*old(self) }),
    {
        let i = index as usize;
        if self.locals[i].depth == -1 {
            let mut local = self.locals.remove(i);
            local.depth = self.scope_depth as i32;
            self.locals.insert(i, local);
        }
    }

    /// Declares a local that is not initialized yet; gives its slot.
    pub fn declare_local(&mut self, name: &str, var_type: TypeSpec, is_const: bool) -> (r: u16)
        requires
            old(self).locals@.len() < u16::MAX,
        ensures
            r == old(self).locals@.len(),
            final(self).locals@.len() == old(self).locals@.len() + 1,
            final(self).locals@.drop_last() == old(self).locals@,
            final(self).locals@.last().name@ == name@,
            final(self).locals@.last().depth == -1,
            !final(self).locals@.last().is_captured,
            final(self).locals@.last().var_type == var_type,
            final(self).locals@.last().is_const == is_const,
            !final(self).locals@.last().is_inner,
            *final(self) == (Compiler { locals: final(self).locals, ..*old(self) }),
    {
        self.locals.push(
            Local {
                name: name.to_string(),
                depth: -1,
                is_captured: false,
                var_type,
                is_const,
                is_inner: false,
            },
        );
        assert(self.locals@.drop_last() =~= old(self).locals@);
        (self.locals.len() - 1) as u16
    }

    /// Declares an initialized local of the compiler's own, named after
    /// `debug_name`; gives its slot.
    pub fn declare_inner_local(&mut self, debug_name: &str) -> (r: u16)
        requires
            old(self).locals@.len() < u16::MAX,
            old(self).scope_depth <= i32::MAX,
        ensures
            r == old(self).locals@.len(),
            final(self).locals@.len() == old(self).locals@.len() + 1,
            final(self).locals@.drop_last() == old(self).locals@,
            final(self).locals@.last().name@ == inner_local_name(debug_name@),
            final(self).locals@.last().depth == old(self).scope_depth as i32,
            !final(self).locals@.last().is_captured,
            final(self).locals@.last().var_type@ == tout_spec(),
            !final(self).locals@.last().is_const,
            final(self).locals@.last().is_inner,
            *final(self) == (Compiler { locals: final(self).locals, ..*old(self) }),
    {
        let mut name = String::from_str("((");
        name.append(debug_name);
        name.append("))");
        let var_type = TypeSpec::from_type(Type::Tout);
        self.locals.push(
            Local {
                name,
                depth: self.scope_depth as i32,
                is_captured: false,
                var_type,
                is_const: false,
                is_inner: true,
            },
        );
        assert(self.locals@.drop_last() =~= old(self).locals@);
        (self.locals.len() - 1) as u16
    }

    /// Declares a type name in the current scope; gives its index.
    pub fn declare_local_type(&mut self, name: &str, spec: TypeSpec) -> (r: u16)
        requires
            old(self).local_types@.len() < u16::MAX,
            old(self).scope_depth <= i32::MAX,
        ensures
            r == old(self).local_types@.len(),
            final(self).local_types@.len() == old(self).local_types@.len() + 1,
            final(self).local_types@.drop_last() == old(self).local_types@,
            final(self).local_types@.last().name@ == name@,
            final(self).local_types@.last().spec == spec,
            final(self).local_types@.last().depth == old(self).scope_depth as i32,
            *final(self) == (Compiler { local_types: final(self).local_types, ..*old(self) }),
    {
        self.local_types.push(LocalType { name: name.to_string(), spec, depth: self.scope_depth as i32 });
        assert(self.local_types@.drop_last() =~= old(self).local_types@);
        (self.local_types.len() - 1) as u16
    }

    /// Leaves the current scope: its locals leave, the last first (a local
    /// that is not captured is popped off the stack), and so do its type
    /// names. Gives the slots of the captured locals that left, the last
    /// first: closing them is the caller's work, since the instruction set
    /// here has no instruction for it.
    pub fn end_scope(&mut self) -> (closed: Vec<usize>)
        requires
            old(self).scope_depth > 0,
            old(self).scope_depth - 1 <= i32::MAX,
            old(self).code@.cursor_ok(),
        ensures
            ({
                let d = old(self).scope_depth - 1;
                &&& final(self).scope_depth == d
                &&& final(self).locals@ == old(self).locals@.take(kept_locals(old(self).locals@, d) as int)
                &&& final(self).local_types@ == old(self).local_types@.take(
                    kept_types(old(self).local_types@, d) as int,
                )
                &&& final(self).code@ == scope_exit_code(old(self).code@, old(self).locals@, d)
                &&& closed@ == scope_exit_captured(old(self).locals@, d)
                &&& *final(self) == (Compiler {
                    scope_depth: final(self).scope_depth,
                    locals: final(self).locals,
                    local_types: final(self).local_types,
                    code: final(self).code,
                    ..*old(self)
                })
            }),
    {
        self.scope_depth = self.scope_depth - 1;
        let d: i32 = self.scope_depth as i32;
        let ghost d0: int = d as int;
        let ghost all = old(self).locals@;
        let ghost code0 = old(self).code@;
        let ghost s0 = *self;
        let mut closed: Vec<usize> = Vec::new();
        while self.locals.len() > 0
            invariant
                d == d0,
                self.code@.cursor_ok(),
                self.locals@ == all.take(self.locals@.len() as int),
                self.locals@.len() <= all.len(),
                kept_locals(all, d0) == kept_locals(self.locals@, d0),
                scope_exit_code(code0, all, d0) == scope_exit_code(self.code@, self.locals@, d0),
                scope_exit_captured(all, d0) == closed@ + scope_exit_captured(self.locals@, d0),
                *self == (Compiler { locals: self.locals, code: self.code, ..s0 }),
            ensures
                self.locals@ == all.take(kept_locals(all, d0) as int),
                self.code@ == scope_exit_code(code0, all, d0),
                closed@ == scope_exit_captured(all, d0),
            decreases self.locals.len(),
        {
            let n = self.locals.len();
            let last_depth = self.locals[n - 1].depth;
            if last_depth <= d {
                assert(closed@ + Seq::<usize>::empty() =~= closed@);
                break;
            }
            let ghost before = self.locals@;
            let ghost closed_before = closed@;
            if self.locals[n - 1].is_captured {
                closed.push(n - 1);
            } else {
                self.code.emit_pop();
            }
            self.locals.pop();
            proof {
                assert(self.locals@ =~= before.drop_last());
                assert(self.locals@ =~= all.take(self.locals@.len() as int));
                let here: Seq<usize> = if before.last().is_captured {
                    seq![(before.len() - 1) as usize]
                } else {
                    Seq::empty()
                };
                assert(closed@ =~= closed_before + here);
                assert(scope_exit_captured(before, d0) == here + scope_exit_captured(before.drop_last(), d0));
                assert(closed_before + (here + scope_exit_captured(self.locals@, d0)) =~= closed@
                    + scope_exit_captured(self.locals@, d0));
            }
        }
        proof {
            if self.locals@.len() == 0 {
                assert(closed@ + Seq::<usize>::empty() =~= closed@);
            }
        }
        let ghost types_all = old(self).local_types@;
        let ghost s1 = *self;
        while self.local_types.len() > 0
            invariant
                d == d0,
                *self == (Compiler { local_types: self.local_types, ..s1 }),
                self.local_types@ == types_all.take(self.local_types@.len() as int),
                self.local_types@.len() <= types_all.len(),
                kept_types(types_all, d0) == kept_types(self.local_types@, d0),
            ensures
                self.local_types@ == types_all.take(kept_types(types_all, d0) as int),
            decreases self.local_types.len(),
        {
            let n = self.local_types.len();
            if self.local_types[n - 1].depth <= d {
                break;
            }
            let ghost before = self.local_types@;
            self.local_types.pop();
            assert(self.local_types@ =~= before.drop_last());
            assert(self.local_types@ =~= types_all.take(self.local_types@.len() as int));
        }
        closed
    }
}

/// Index of the first recorded captured variable equal to `s`, or the number
/// of them if none is.
pub open spec fn upvalue_index(ups: Seq<UpvalueSpec>, s: UpvalueSpec) -> nat
    decreases ups.len(),
{
    if ups.len() == 0 {
        0
    } else if ups[0] == s {
        0
    } else {
        1 + upvalue_index(ups.drop_first(), s)
    }
}

/// The captured variables once `s` is recorded: unchanged if it already is.
pub open spec fn with_upvalue(ups: Seq<UpvalueSpec>, s: UpvalueSpec) -> Seq<UpvalueSpec> {
    if upvalue_index(ups, s) < ups.len() {
        ups
    } else {
        ups.push(s)
    }
}

pub proof fn lemma_upvalue_index(ups: Seq<UpvalueSpec>, s: UpvalueSpec)
    ensures
        upvalue_index(ups, s) <= ups.len(),
        upvalue_index(ups, s) < ups.len() ==> ups[upvalue_index(ups, s) as int] == s,
        forall|j: int| 0 <= j < upvalue_index(ups, s) ==> ups[j] != s,
    decreases ups.len(),
{
    if ups.len() > 0 && ups[0] != s {
        lemma_upvalue_index(ups.drop_first(), s);
        assert forall|j: int| 0 <= j < upvalue_index(ups, s) implies ups[j] != s by {
            if j > 0 {
                assert(ups.drop_first()[j - 1] == ups[j]);
            }
        }
    }
}

/// Recording a captured variable twice records it once, at one index.
pub proof fn lemma_add_upvalue_idempotent(ups: Seq<UpvalueSpec>, s: UpvalueSpec)
    ensures
        with_upvalue(with_upvalue(ups, s), s) == with_upvalue(ups, s),
        upvalue_index(with_upvalue(ups, s), s) == upvalue_index(ups, s),
        upvalue_index(ups, s) < with_upvalue(ups, s).len(),
        with_upvalue(ups, s)[upvalue_index(ups, s) as int] == s,
{
    lemma_upvalue_index(ups, s);
    let w = with_upvalue(ups, s);
    lemma_upvalue_index(w, s);
    if upvalue_index(ups, s) == ups.len() {
        assert(w[ups.len() as int] == s);
        assert forall|j: int| 0 <= j < ups.len() implies w[j] != s by {
            assert(w[j] == ups[j]);
        }
        if upvalue_index(w, s) < ups.len() {
            assert(w[upvalue_index(w, s) as int] == s);
        }
    }
}

/// How many compilers enclose this one.
pub open spec fn nesting(c: Compiler) -> nat
    decreases c,
{
    match c.parent {
        None => 0,
        Some(p) => 1 + nesting(*p),
    }
}

/// Where the captured variable `name` of `c` comes from, if an enclosing
/// function declares it: a local of the enclosing function, or a captured
/// variable of it (at the index it gets there).
pub open spec fn upval_source(c: Compiler, name: Seq<char>) -> Option<UpvalueSpec>
    decreases c,
{
    match c.parent {
        None => None,
        Some(p) => {
            let i = last_local(p.locals@, name);
            if i >= 0 {
                Some(UpvalueSpec::Local(i as usize))
            } else {
                match upval_source(*p, name) {
                    Some(s) => Some(UpvalueSpec::Upvalue(upvalue_index(p.upvalues@, s) as usize)),
                    None => None,
                }
            }
        }
    }
}

/// The local that the captured variable `name` of `c` stands for.
pub open spec fn upval_local(c: Compiler, name: Seq<char>) -> Local
    decreases c,
{
    match c.parent {
        None => arbitrary(),
        Some(p) => {
            let i = last_local(p.locals@, name);
            if i >= 0 {
                p.locals@[i]
            } else {
                upval_local(*p, name)
            }
        }
    }
}

/// What resolving `name` as a captured variable does to the enclosing
/// compilers of `c` (`n` is `c` afterwards): the declaring local is marked
/// captured, and each compiler in between records the variable.
pub open spec fn upval_effect(c: Compiler, n: Compiler, name: Seq<char>) -> bool
    decreases c,
{
    match c.parent {
        None => n.parent is None,
        Some(p) => match n.parent {
            None => false,
            Some(np) => {
                let i = last_local(p.locals@, name);
                &&& *np == (Compiler { locals: np.locals, upvalues: np.upvalues, parent: np.parent, ..*p })
                &&& if i >= 0 {
                    &&& np.locals@.len() == p.locals@.len()
                    &&& np.locals@[i].is_captured
                    &&& np.locals@[i].name == p.locals@[i].name
                    &&& np.locals@[i].depth == p.locals@[i].depth
                    &&& forall|j: int| 0 <= j < p.locals@.len() && j != i ==> np.locals@[j] == p.locals@[j]
                    &&& np.upvalues == p.upvalues
                } else {
                    &&& np.locals == p.locals
                    &&& np.upvalues@ == match upval_source(*p, name) {
                        Some(s) => with_upvalue(p.upvalues@, s),
                        None => p.upvalues@,
                    }
                    &&& upval_effect(*p, *np, name)
                }
            },
        },
    }
}

/// Index of the last type name `name`, or -1.
pub open spec fn last_type(types: Seq<LocalType>, name: Seq<char>) -> int
    decreases types.len(),
{
    if types.len() == 0 {
        -1
    } else if types.last().name@ == name {
        types.len() - 1
    } else {
        last_type(types.drop_last(), name)
    }
}

pub proof fn lemma_last_type(types: Seq<LocalType>, name: Seq<char>)
    ensures
        -1 <= last_type(types, name) < types.len(),
        last_type(types, name) >= 0 ==> types[last_type(types, name)].name@ == name,
        forall|j: int| last_type(types, name) < j < types.len() ==> (#[trigger] types[j]).name@ != name,
    decreases types.len(),
{
    if types.len() > 0 {
        lemma_last_type(types.drop_last(), name);
        assert forall|j: int| last_type(types, name) < j < types.len() implies (#[trigger] types[j]).name@ != name by {
            if j < types.len() - 1 {
                assert(types.drop_last()[j] == types[j]);
            }
        }
    }
}

/// The type bound to the name `name` in `c` or, failing that, in the
/// compilers that enclose it.
pub open spec fn var_type_of(c: Compiler, name: Seq<char>) -> Option<TypeSpecV>
    decreases c,
{
    let i = last_type(c.local_types@, name);
    if i >= 0 {
        Some(c.local_types@[i].spec@)
    } else {
        match c.parent {
            None => None,
            Some(p) => var_type_of(*p, name),
        }
    }
}

impl Compiler {
    /// Records a captured variable (a local slot of the enclosing function,
    /// or a captured variable of it) unless it already is; gives its index.
    pub fn add_upvalue(&mut self, is_local: bool, index: usize) -> (r: usize)
        ensures
            ({
                let s = if is_local {
                    UpvalueSpec::Local(index)
                } else {
                    UpvalueSpec::Upvalue(index)
                };
                &&& r == upvalue_index(old(self).upvalues@, s)
                &&& final(self).upvalues@ == with_upvalue(old(self).upvalues@, s)
            }),
            *final(self) == (Compiler { upvalues: final(self).upvalues, ..*old(self) }),
    {
        let spec = if is_local {
            UpvalueSpec::Local(index)
        } else {
            UpvalueSpec::Upvalue(index)
        };
        proof { lemma_upvalue_index(self.upvalues@, spec); }
        let mut i: usize = 0;
        while i < self.upvalues.len()
            invariant
                *self == *old(self),
                spec == (if is_local { UpvalueSpec::Local(index) } else { UpvalueSpec::Upvalue(index) }),
                i <= self.upvalues@.len(),
                forall|j: int| 0 <= j < i ==> self.upvalues@[j] != spec,
                upvalue_index(self.upvalues@, spec) <= self.upvalues@.len(),
                upvalue_index(self.upvalues@, spec) < self.upvalues@.len() ==> self.upvalues@[upvalue_index(self.upvalues@, spec) as int] == spec,
                forall|j: int| 0 <= j < upvalue_index(self.upvalues@, spec) ==> self.upvalues@[j] != spec,
            decreases self.upvalues@.len() - i,
        {
            if self.upvalues[i] == spec {
                proof {
                    let u = upvalue_index(self.upvalues@, spec);
                    if u < i {
                        assert(self.upvalues@[u as int] == spec);
                    }
                    assert(u == i);
                }
                return i;
            }
            i = i + 1;
        }
        self.upvalues.push(spec);
        self.upvalues.len() - 1
    }

    /// Resolves `name` as a variable captured from an enclosing function:
    /// records it in this function (and in each function in between) and
    /// marks the declaring local as captured. Gives the index of the
    /// captured variable here and a copy of the declaring local, or `None`
    /// when no enclosing function declares `name`.
    pub fn resolve_upval(&mut self, name: &str) -> (r: Result<Option<(usize, Local)>, CompilationErrorKind>)
        ensures
            match upval_source(*old(self), name@) {
                None => {
                    &&& r matches Ok(None)
                    &&& final(self).upvalues == old(self).upvalues
                },
                Some(s) => {
                    &&& r matches Ok(Some((k, l)))
                    &&& k == upvalue_index(old(self).upvalues@, s)
                    &&& same_local(l, upval_local(*old(self), name@))
                    &&& final(self).upvalues@ == with_upvalue(old(self).upvalues@, s)
                },
            },
            upval_effect(*old(self), *final(self), name@),
            *final(self) == (Compiler { upvalues: final(self).upvalues, parent: final(self).parent, ..*old(self) }),
            upval_source(*old(self), name@) is None ==> *final(self) == *old(self),
        decreases nesting(*old(self)),
    {
        let mut p = match self.parent.take() {
            None => {
                return Ok(None);
            },
            Some(p) => p,
        };
        let ghost p0 = *p;
        proof { lemma_last_local(p.locals@, name@); }
        let found = p.resolve_local(name, true);
        match found {
            Ok(Some((i, local))) => {
                p.mark_captured(i);
                self.parent = Some(p);
                let k = self.add_upvalue(true, i);
                return Ok(Some((k, local)));
            },
            _ => {},
        }
        assert(last_local(p0.locals@, name@) < 0);
        let up = p.resolve_upval(name);
        self.parent = Some(p);
        match up {
            Ok(Some((j, local))) => {
                let k = self.add_upvalue(false, j);
                Ok(Some((k, local)))
            },
            _ => Ok(None),
        }
    }

    /// The type bound to the name `ident`, here or in an enclosing compiler.
    pub fn get_var_type(&self, ident: &str) -> (r: Option<TypeSpec>)
        ensures
            match var_type_of(*self, ident@) {
                None => r is None,
                Some(t) => r matches Some(x) && x@ == t,
            },
        decreases nesting(*self),
    {
        proof { lemma_last_type(self.local_types@, ident@); }
        let mut i: usize = self.local_types.len();
        while i > 0
            invariant
                i <= self.local_types@.len(),
                last_type(self.local_types@, ident@) < i,
                -1 <= last_type(self.local_types@, ident@) < self.local_types@.len(),
                last_type(self.local_types@, ident@) >= 0 ==> self.local_types@[last_type(self.local_types@, ident@)].name@ == ident@,
                forall|j: int| last_type(self.local_types@, ident@) < j < self.local_types@.len() ==> (#[trigger] self.local_types@[j]).name@ != ident@,
            decreases i,
        {
            if str_eq(self.local_types[i - 1].name.as_str(), ident) {
                assert(last_type(self.local_types@, ident@) == i - 1);
                return Some(self.local_types[i - 1].spec.copy());
            }
            i = i - 1;
        }
        match &self.parent {
            Some(p) => p.get_var_type(ident),
            None => None,
        }
    }
}

/// The stored distance of a jump whose distance slot lies `dist` slots before
/// the last slot of the code: the jump lands just past that last slot.
pub open spec fn patched_arg(dist: usize) -> u16 {
    (((dist as i16) + JUMP_OFFSET) as i16) as u16
}

/// The stored distance of a jump whose distance slot is `j` and that lands
/// at `dest`.
pub open spec fn patched_arg_to(j: usize, dest: usize) -> u16 {
    ((((dest as i16) - 1 - (j as i16)) + JUMP_OFFSET) as i16) as u16
}

/// Index of the first constant that `v` may share, or the number of
/// constants if none.
pub open spec fn const_index(cs: Seq<Value>, v: Value) -> nat
    decreases cs.len(),
{
    if cs.len() == 0 {
        0
    } else if same_constant(cs[0], v) {
        0
    } else {
        1 + const_index(cs.drop_first(), v)
    }
}

/// The constants once `v` is added: unchanged if it may share one.
pub open spec fn with_constant(cs: Seq<Value>, v: Value) -> Seq<Value> {
    if const_index(cs, v) < cs.len() {
        cs
    } else {
        cs.push(v)
    }
}

pub proof fn lemma_const_index(cs: Seq<Value>, v: Value)
    ensures
        const_index(cs, v) <= cs.len(),
        const_index(cs, v) < cs.len() ==> same_constant(cs[const_index(cs, v) as int], v),
        forall|j: int| 0 <= j < const_index(cs, v) ==> !same_constant(#[trigger] cs[j], v),
    decreases cs.len(),
{
    if cs.len() > 0 && !same_constant(cs[0], v) {
        lemma_const_index(cs.drop_first(), v);
        assert forall|j: int| 0 <= j < const_index(cs, v) implies !same_constant(#[trigger] cs[j], v) by {
            if j > 0 {
                assert(cs.drop_first()[j - 1] == cs[j]);
            }
        }
    }
}

/// Index of the first constant that is the text `t`, or the number of
/// constants if none is.
pub open spec fn text_index(cs: Seq<Value>, t: Seq<char>) -> nat
    decreases cs.len(),
{
    if cs.len() == 0 {
        0
    } else if cs[0] matches Value::Texte(x) && x@ == t {
        0
    } else {
        1 + text_index(cs.drop_first(), t)
    }
}

/// For a text, the constant it may share is the first equal text.
pub proof fn lemma_text_index(cs: Seq<Value>, s: String)
    ensures
        const_index(cs, Value::Texte(s)) == text_index(cs, s@),
    decreases cs.len(),
{
    if cs.len() > 0 {
        lemma_text_index(cs.drop_first(), s);
    }
}

/// Whether a constant is a structure named `name`.
pub open spec fn is_struct_named(v: Value, name: Seq<char>) -> bool {
    v matches Value::Structure(st) && st.name@ == name
}

/// Index of the first constant that is a structure named `name`, or -1.
pub open spec fn struct_index(cs: Seq<Value>, name: Seq<char>) -> int
    decreases cs.len(),
{
    if cs.len() == 0 {
        -1
    } else if is_struct_named(cs[0], name) {
        0
    } else if struct_index(cs.drop_first(), name) < 0 {
        -1
    } else {
        1 + struct_index(cs.drop_first(), name)
    }
}

pub proof fn lemma_struct_index(cs: Seq<Value>, name: Seq<char>)
    ensures
        -1 <= struct_index(cs, name) < cs.len(),
        struct_index(cs, name) >= 0 ==> is_struct_named(cs[struct_index(cs, name)], name),
        forall|j: int|
            0 <= j < cs.len() && (struct_index(cs, name) < 0 || j < struct_index(cs, name)) ==> !is_struct_named(#[trigger] cs[j], name),
    decreases cs.len(),
{
    if cs.len() > 0 && !is_struct_named(cs[0], name) {
        lemma_struct_index(cs.drop_first(), name);
        assert forall|j: int|
            0 <= j < cs.len() && (struct_index(cs, name) < 0 || j < struct_index(cs, name)) implies !is_struct_named(#[trigger] cs[j], name) by {
            if j > 0 {
                assert(cs.drop_first()[j - 1] == cs[j]);
            }
        }
    }
}

impl Compiler {
    /// Emits a conditional jump whose distance is patched later; gives its
    /// place on the jump stack, which records the slot of the distance.
    pub fn push_jump_if_false(&mut self) -> (r: usize)
        requires
            old(self).code@.cursor_ok(),
            old(self).code@.insts.len() + 2 < usize::MAX,
            old(self).jump_stack@.len() < usize::MAX,
        ensures
            r == old(self).jump_stack@.len(),
            final(self).jump_stack@ == old(self).jump_stack@.push((old(self).code@.insts.len() + 1) as usize),
            final(self).code@ == old(self).code@.emit_op(Opcode::JumpIfFalse, seq![jump_arg(0)]),
            *final(self) == (Compiler { jump_stack: final(self).jump_stack, code: final(self).code, ..*old(self) }),
    {
        let jump_idx = self.code.len_inner() + 1;
        self.code.emit_jump_if_false(0);
        self.jump_stack.push(jump_idx);
        self.jump_stack.len() - 1
    }

    /// Emits a jump whose distance is patched later; gives its place on the
    /// jump stack, which records the slot of the distance.
    pub fn push_jump(&mut self) -> (r: usize)
        requires
            old(self).code@.cursor_ok(),
            old(self).code@.insts.len() + 2 < usize::MAX,
            old(self).jump_stack@.len() < usize::MAX,
        ensures
            r == old(self).jump_stack@.len(),
            final(self).jump_stack@ == old(self).jump_stack@.push((old(self).code@.insts.len() + 1) as usize),
            final(self).code@ == old(self).code@.emit_op(Opcode::Jump, seq![jump_arg(0)]),
            *final(self) == (Compiler { jump_stack: final(self).jump_stack, code: final(self).code, ..*old(self) }),
    {
        let jump_idx = self.code.len_inner() + 1;
        self.code.emit_jump(0);
        self.jump_stack.push(jump_idx);
        self.jump_stack.len() - 1
    }

    /// Emits a jump taken when the top of the stack is `cond`, its distance
    /// patched later; gives its place on the jump stack, which records the
    /// slot of the distance.
    pub fn push_jump_test(&mut self, cond: bool) -> (r: usize)
        requires
            old(self).code@.cursor_ok(),
            old(self).code@.insts.len() + 2 < usize::MAX,
            old(self).jump_stack@.len() < usize::MAX,
        ensures
            r == old(self).jump_stack@.len(),
            final(self).jump_stack@ == old(self).jump_stack@.push((old(self).code@.insts.len() + 1) as usize),
            final(self).code@ == old(self).code@.emit_op(
                Opcode::JumpTest,
                seq![jump_arg(0), if cond { 1u16 } else { 0u16 }],
            ),
            *final(self) == (Compiler { jump_stack: final(self).jump_stack, code: final(self).code, ..*old(self) }),
    {
        let jump_idx = self.code.len_inner() + 1;
        self.code.emit_jump_test(0, cond);
        self.jump_stack.push(jump_idx);
        self.jump_stack.len() - 1
    }

    /// Makes the jump recorded at `jmp_stack_idx` land just past the code
    /// emitted so far.
    pub fn patch_jump(&mut self, jmp_stack_idx: usize)
        requires
            jmp_stack_idx < old(self).jump_stack@.len(),
            old(self).jump_stack@[jmp_stack_idx as int] < old(self).code@.insts.len(),
            ((old(self).code@.insts.len() - 1 - old(self).jump_stack@[jmp_stack_idx as int]) as usize) as i16
                + JUMP_OFFSET <= i16::MAX,
        ensures
            ({
                let j = old(self).jump_stack@[jmp_stack_idx as int];
                let dist = (old(self).code@.insts.len() - 1 - j) as usize;
                final(self).code@ == (InstructionsView {
                    insts: old(self).code@.insts.update(j as int, patched_arg(dist)),
                    ..old(self).code@
                })
            }),
            *final(self) == (Compiler { code: final(self).code, ..*old(self) }),
    {
        let val = self.code.len_inner() - 1;
        let jump_idx = self.jump_stack[jmp_stack_idx];
        let d: i16 = (val - jump_idx) as i16;
        let v: i16 = d + JUMP_OFFSET;
        self.code.raw_patch(jump_idx, v as u16);
    }

    /// Makes the jump recorded at `jmp_stack_idx` land at `dest`.
    pub fn patch_jump_to(&mut self, jmp_stack_idx: usize, dest: usize)
        requires
            jmp_stack_idx < old(self).jump_stack@.len(),
            old(self).jump_stack@[jmp_stack_idx as int] < old(self).code@.insts.len(),
            i16::MIN <= (dest as i16) - 1,
            i16::MIN <= (dest as i16) - 1 - (old(self).jump_stack@[jmp_stack_idx as int] as i16),
            (dest as i16) - 1 - (old(self).jump_stack@[jmp_stack_idx as int] as i16) + JUMP_OFFSET <= i16::MAX,
        ensures
            ({
                let j = old(self).jump_stack@[jmp_stack_idx as int];
                final(self).code@ == (InstructionsView {
                    insts: old(self).code@.insts.update(j as int, patched_arg_to(j, dest)),
                    ..old(self).code@
                })
            }),
            *final(self) == (Compiler { code: final(self).code, ..*old(self) }),
    {
        let jump_idx = self.jump_stack[jmp_stack_idx];
        let a: i16 = dest as i16;
        let b: i16 = jump_idx as i16;
        let v: i16 = a - 1 - b + JUMP_OFFSET;
        self.code.raw_patch(jump_idx, v as u16);
    }

    /// The constant at `idx`, if any.
    pub fn get_const(&self, idx: usize) -> (r: Option<Value>)
        ensures
            idx < self.function.constants@.len() ==> r == Some(self.function.constants@[idx as int]),
            idx >= self.function.constants@.len() ==> r is None,
    {
        if idx < self.function.constants.len() {
            Some(self.function.constants[idx].copy())
        } else {
            None
        }
    }

    /// The index of a constant equal to `obj` (a literal of the same type
    /// and value), adding `obj` to the pool when there is none.
    pub fn get_or_add_const(&mut self, obj: Value) -> (r: u16)
        requires
            old(self).function.constants@.len() < u16::MAX,
        ensures
            r == const_index(old(self).function.constants@, obj),
            final(self).function.constants@ == with_constant(old(self).function.constants@, obj),
            final(self).function.name == old(self).function.name,
            final(self).function.code == old(self).function.code,
            final(self).function.upvalue_specs == old(self).function.upvalue_specs,
            final(self).function.upvalue_count == old(self).function.upvalue_count,
            final(self).function.nb_params == old(self).function.nb_params,
            *final(self) == (Compiler { function: final(self).function, ..*old(self) }),
    {
        proof { lemma_const_index(self.function.constants@, obj); }
        let mut i: usize = 0;
        while i < self.function.constants.len()
            invariant
                *self == *old(self),
                i <= self.function.constants@.len(),
                self.function.constants@.len() < u16::MAX,
                forall|j: int| 0 <= j < i ==> !same_constant(#[trigger] self.function.constants@[j], obj),
                const_index(self.function.constants@, obj) <= self.function.constants@.len(),
                const_index(self.function.constants@, obj) < self.function.constants@.len() ==> same_constant(
                    self.function.constants@[const_index(self.function.constants@, obj) as int],
                    obj,
                ),
                forall|j: int| 0 <= j < const_index(self.function.constants@, obj) ==> !same_constant(#[trigger] self.function.constants@[j], obj),
            decreases self.function.constants@.len() - i,
        {
            if self.function.constants[i].same_constant(&obj) {
                proof {
                    let u = const_index(self.function.constants@, obj);
                    if u < i {
                        assert(same_constant(self.function.constants@[u as int], obj));
                    }
                    assert(u == i);
                }
                return i as u16;
            }
            i = i + 1;
        }
        self.function.constants.push(obj);
        (self.function.constants.len() - 1) as u16
    }

    /// Adds `obj` to the constant pool as `get_or_add_const` does and emits
    /// the instruction that pushes it.
    pub fn push_const(&mut self, obj: Value) -> (r: u16)
        requires
            old(self).function.constants@.len() < u16::MAX,
            old(self).code@.cursor_ok(),
        ensures
            r == const_index(old(self).function.constants@, obj),
            final(self).function.constants@ == with_constant(old(self).function.constants@, obj),
            final(self).code@ == old(self).code@.emit_op(Opcode::Constant, seq![r]),
            *final(self) == (Compiler { function: final(self).function, code: final(self).code, ..*old(self) }),
    {
        let c_idx = self.get_or_add_const(obj);
        self.code.emit_const(c_idx);
        c_idx
    }

    /// The structure named `name` among the constants, with its index. A
    /// structure of an enclosing function cannot take methods here: when the
    /// name is not found and there is an enclosing function, the lookup fails.
    pub fn get_struct_const(&self, name: &str) -> (r: Result<Option<(ArcStructure, usize)>, CompilationErrorKind>)
        ensures
            ({
                let i = struct_index(self.function.constants@, name@);
                if i >= 0 {
                    r matches Ok(Some((st, k))) && k == i && self.function.constants@[i] == Value::Structure(st)
                } else if self.parent is Some {
                    r matches Err(CompilationErrorKind::InvalidImplBlock(n)) && n@ == name@
                } else {
                    r matches Ok(None)
                }
            }),
        decreases nesting(*self),
    {
        proof { lemma_struct_index(self.function.constants@, name@); }
        let mut i: usize = 0;
        while i < self.function.constants.len()
            invariant
                i <= self.function.constants@.len(),
                -1 <= struct_index(self.function.constants@, name@) < self.function.constants@.len(),
                struct_index(self.function.constants@, name@) >= 0 ==> is_struct_named(self.function.constants@[struct_index(self.function.constants@, name@)], name@),
                forall|j: int|
                    0 <= j < self.function.constants@.len() && (struct_index(self.function.constants@, name@) < 0 || j < struct_index(self.function.constants@, name@)) ==> !is_struct_named(#[trigger] self.function.constants@[j], name@),
                struct_index(self.function.constants@, name@) < 0 || i <= struct_index(self.function.constants@, name@),
            decreases self.function.constants@.len() - i,
        {
            if let Value::Structure(st) = &self.function.constants[i] {
                if str_eq(st.name.as_str(), name) {
                    assert(is_struct_named(self.function.constants@[i as int], name@));
                    assert(struct_index(self.function.constants@, name@) == i);
                    return Ok(Some((Arc::clone(st), i)));
                }
            }
            i = i + 1;
        }
        match &self.parent {
            Some(p) => {
                let _ = p.get_struct_const(name);
                Err(CompilationErrorKind::invalid_impl_block(name))
            },
            None => Ok(None),
        }
    }
}

impl Compiler {
    /// Emits the instruction that reads the variable `ident`: an
    /// initialized local, else a captured variable, else a global (whose
    /// name goes to the constant pool).
    pub fn load_var(&mut self, ident: &str)
        requires
            old(self).code@.cursor_ok(),
            old(self).function.constants@.len() < u16::MAX,
        ensures
            ({
                let i = last_local(old(self).locals@, ident@);
                if i >= 0 && old(self).locals@[i].depth != -1 {
                    &&& final(self).code@ == old(self).code@.emit_op(Opcode::GetLocal, seq![i as u16])
                    &&& *final(self) == (Compiler { code: final(self).code, ..*old(self) })
                } else if let Some(s) = upval_source(*old(self), ident@) {
                    let k = upvalue_index(old(self).upvalues@, s);
                    &&& final(self).code@ == old(self).code@.emit_op(Opcode::GetUpvalue, seq![k as u16])
                    &&& final(self).upvalues@ == with_upvalue(old(self).upvalues@, s)
                    &&& upval_effect(*old(self), *final(self), ident@)
                    &&& *final(self) == (Compiler {
                        code: final(self).code,
                        upvalues: final(self).upvalues,
                        parent: final(self).parent,
                        ..*old(self)
                    })
                } else {
                    let old_cs = old(self).function.constants@;
                    let c = text_index(old_cs, ident@);
                    &&& final(self).code@ == old(self).code@.emit_op(Opcode::GetGlobal, seq![c as u16])
                    &&& c < old_cs.len() ==> final(self).function.constants@ == old_cs
                    &&& c == old_cs.len() ==> {
                        &&& final(self).function.constants@.drop_last() == old_cs
                        &&& final(self).function.constants@.len() == old_cs.len() + 1
                        &&& final(self).function.constants@.last() matches Value::Texte(x) && x@ == ident@
                    }
                    &&& final(self).function.name == old(self).function.name
                    &&& final(self).function.code == old(self).function.code
                    &&& final(self).function.nb_params == old(self).function.nb_params
                    &&& *final(self) == (Compiler { code: final(self).code, function: final(self).function, ..*old(self) })
                }
            }),
    {
        proof { lemma_last_local(self.locals@, ident@); }
        match self.resolve_local(ident, false) {
            Ok(Some((local_idx, _))) => {
                self.code.emit_get_local(local_idx as u16);
                return;
            },
            _ => {},
        }
        match self.resolve_upval(ident) {
            Ok(Some((upval_idx, _))) => {
                self.code.emit_get_upvalue(upval_idx as u16);
                return;
            },
            _ => {},
        }
        let name = ident.to_string();
        proof {
            lemma_text_index(self.function.constants@, name);
            lemma_const_index(self.function.constants@, Value::Texte(name));
        }
        let glob_name_idx = self.get_or_add_const(Value::Texte(name));
        self.code.emit_get_global(glob_name_idx);
    }
}

/// A newly declared local is what its name resolves to: it shadows every
/// earlier local of the same name.
pub proof fn lemma_declared_local_resolves(locals: Seq<Local>, l: Local)
    ensures
        last_local(locals.push(l), l.name@) == locals.len(),
{
    assert(locals.push(l).last() == l);
}

/// A lookup of a name that the newest local does not carry resolves as it
/// did before that local was declared.
pub proof fn lemma_other_local_unchanged(locals: Seq<Local>, l: Local, name: Seq<char>)
    requires
        l.name@ != name,
    ensures
        last_local(locals.push(l), name) == last_local(locals, name),
{
    assert(locals.push(l).drop_last() =~= locals);
}

/// Leaving a scope removes exactly the locals initialized inside it: when
/// every local added since the scope began lives deeper than `d`, the
/// locals kept are those from before.
pub proof fn lemma_end_scope_restores(outer: Seq<Local>, inner: Seq<Local>, d: int)
    requires
        outer.len() == 0 || outer.last().depth <= d,
        forall|i: int| 0 <= i < inner.len() ==> (#[trigger] inner[i]).depth > d,
    ensures
        kept_locals(outer + inner, d) == outer.len(),
        (outer + inner).take(kept_locals(outer + inner, d) as int) == outer,
    decreases inner.len(),
{
    if inner.len() == 0 {
        assert(outer + inner =~= outer);
    } else {
        let all = outer + inner;
        assert(all.last() == inner.last());
        assert(all.drop_last() =~= outer + inner.drop_last());
        assert forall|i: int| 0 <= i < inner.drop_last().len() implies (#[trigger] inner.drop_last()[i]).depth > d by {
            assert(inner.drop_last()[i] == inner[i]);
        }
        lemma_end_scope_restores(outer, inner.drop_last(), d);
    }
    assert((outer + inner).take(outer.len() as int) =~= outer);
}

/// A patched jump lands just past the code emitted before the patch: its
/// distance, counted from the slot after the distance, reaches the end of
/// the code.
pub proof fn lemma_patch_jump_lands(len: usize, j: usize)
    requires
        j < len,
        len - 1 - j + JUMP_OFFSET <= i16::MAX,
    ensures
        j + 1 + jump_dist(patched_arg((len - 1 - j) as usize)) == len,
{
    let d: usize = (len - 1 - j) as usize;
    assert(((((d as i16) + 255i16) as i16) as u16) as i16 == d + 255) by (bit_vector)
        requires
            d <= 32512usize,
    ;
}

/// A jump patched to `dest` lands at `dest`.
pub proof fn lemma_patch_jump_to_lands(j: usize, dest: usize)
    requires
        j <= i16::MAX,
        dest <= i16::MAX,
        i16::MIN <= dest - 1 - j,
        dest - 1 - j + JUMP_OFFSET <= i16::MAX,
    ensures
        j + 1 + jump_dist(patched_arg_to(j, dest)) == dest,
{
    assert(((((((dest as i16) - 1i16 - (j as i16)) + 255i16) as i16) as u16) as i16) as int == (dest as int) - 1 - (j as int) + 255) by (bit_vector)
        requires
            j <= 32767usize,
            dest <= 32767usize,
            (dest as int) - 1 - (j as int) >= -32768,
            (dest as int) - 1 - (j as int) + 255 <= 32767,
    ;
}

/// Adding a literal to the constant pool twice adds it once: the pool and
/// the index it is found at do not change the second time.
pub proof fn lemma_add_const_idempotent(cs: Seq<Value>, v: Value)
    requires
        same_constant(v, v),
    ensures
        with_constant(with_constant(cs, v), v) == with_constant(cs, v),
        const_index(with_constant(cs, v), v) == const_index(cs, v),
        const_index(cs, v) < with_constant(cs, v).len(),
{
    lemma_const_index(cs, v);
    let w = with_constant(cs, v);
    lemma_const_index(w, v);
    if const_index(cs, v) == cs.len() {
        assert(w[cs.len() as int] == v);
        assert forall|j: int| 0 <= j < cs.len() implies !same_constant(#[trigger] w[j], v) by {
            assert(w[j] == cs[j]);
        }
        if const_index(w, v) < cs.len() {
            assert(same_constant(w[const_index(w, v) as int], v));
        }
    }
}

/// The constant pool gives back what was put in it: the constant found at
/// the index that adding `v` returns is `v` itself for a boolean, an integer
/// or `nul`, and a text or decimal with the same characters as `v`; a value
/// that is never shared (a list, a function, ...) is appended at the end.
pub proof fn lemma_constant_at_its_index_is_the_added_value(cs: Seq<Value>, v: Value)
    ensures
        ({
            let w = with_constant(cs, v);
            let i = const_index(cs, v) as int;
            &&& 0 <= i < w.len()
            &&& w.take(cs.len() as int) == cs
            &&& (v is Booleen || v is Entier || v is Nul) ==> w[i] == v
            &&& v is Texte ==> w[i] is Texte && w[i]->Texte_0@ == v->Texte_0@
            &&& v is Decimal ==> w[i] is Decimal && w[i]->Decimal_0@ == v->Decimal_0@
            &&& !same_constant(v, v) ==> i == cs.len() && w == cs.push(v)
        }),
{
    lemma_const_index(cs, v);
    let i = const_index(cs, v) as int;
    if i < cs.len() {
        crate::obj::lemma_shared_constants_are_equal(cs[i], v);
        crate::obj::lemma_shared_constants_are_equal(v, cs[i]);
        assert(cs.take(cs.len() as int) =~= cs);
    } else {
        assert(cs.push(v).take(cs.len() as int) =~= cs);
    }
}

/// The locals a module exports: all but those the compiler made for itself,
/// in order.
pub open spec fn exported_locals(locals: Seq<Local>) -> Seq<Local>
    decreases locals.len(),
{
    if locals.len() == 0 {
        Seq::empty()
    } else if locals.last().is_inner {
        exported_locals(locals.drop_last())
    } else {
        exported_locals(locals.drop_last()).push(locals.last())
    }
}

/// Some exported local has a computed type annotation.
pub open spec fn some_export_computed(locals: Seq<Local>) -> bool {
    exists|i: int| 0 <= i < exported_locals(locals).len() && (#[trigger] exported_locals(locals)[i]).var_type.value is Computed
}

/// Whether `e` describes the exported local `l` of a module whose locals are
/// `locals`: its name, the slot its name resolves to, whether it is constant
/// and its plain type.
pub open spec fn describes_export(e: (String, FieldProto), l: Local, locals: Seq<Local>) -> bool {
    &&& e.0 == l.name
    &&& e.1.value_idx == last_local(locals, l.name@)
    &&& e.1.is_const == l.is_const
    &&& l.var_type.value is BaseType
    &&& e.1.field_type@ == l.var_type.value->BaseType_0@
}

fn copy_function(f: &ASFunction) -> (r: ASFunction)
    ensures
        r.name == f.name,
        r.code@ == f.code@,
        r.constants@ == f.constants@,
        r.upvalue_count == f.upvalue_count,
        r.upvalue_specs@ == f.upvalue_specs@,
        r.nb_params == f.nb_params,
{
    let mut constants: Vec<Value> = Vec::new();
    let mut i: usize = 0;
    while i < f.constants.len()
        invariant
            i <= f.constants@.len(),
            constants@ == f.constants@.take(i as int),
        decreases f.constants@.len() - i,
    {
        constants.push(f.constants[i].copy());
        i = i + 1;
        assert(constants@ =~= f.constants@.take(i as int));
    }
    assert(f.constants@.take(f.constants@.len() as int) =~= f.constants@);
    let code = f.code.clone();
    let upvalue_specs = f.upvalue_specs.clone();
    assert(code@ =~= f.code@);
    assert(upvalue_specs@ =~= f.upvalue_specs@);
    ASFunction {
        name: f.name.clone(),
        code,
        constants,
        upvalue_count: f.upvalue_count,
        upvalue_specs,
        nb_params: f.nb_params,
    }
}

impl Compiler {
    /// The code of an empty function: it only returns.
    pub fn compile_empty(self) -> (r: Result<ClosureProto, CompilationErrorKind>)
        requires
            self.code@.cursor_ok(),
        ensures
            r matches Ok(c) && c.upvalues@.len() == 0 && c.function.code@ == self.code@.emit_op(
                Opcode::Return,
                seq![],
            ).insts && c.function.upvalue_specs@ == self.upvalues@ && c.function.upvalue_count
                == self.upvalues@.len() && c.function.constants@ == self.function.constants@
                && c.function.name == self.function.name && c.function.nb_params
                == self.function.nb_params,
    {
        let mut c = self;
        c.code.emit_return();
        c.finish();
        let f = copy_function(&c.function);
        Ok(ClosureProto::new(Arc::new(f)))
    }

    /// What a compiled module exports: for each local but those the
    /// compiler made for itself, its name, the slot its name resolves to,
    /// whether it is constant and its type, which must be a plain type.
    pub fn module_exports(&self) -> (r: Result<Vec<(String, FieldProto)>, CompilationErrorKind>)
        ensures
            some_export_computed(self.locals@) ==> (r matches Err(CompilationErrorKind::GenericError(m)) && m@
                == "Expected base type"@),
            !some_export_computed(self.locals@) ==> (r matches Ok(v) && v@.len() == exported_locals(self.locals@).len()
                && forall|k: int| 0 <= k < v@.len() ==> #[trigger] describes_export(v@[k], exported_locals(self.locals@)[k], self.locals@)),
    {
        let ghost all = self.locals@;
        let mut out: Vec<(String, FieldProto)> = Vec::new();
        let mut i: usize = 0;
        while i < self.locals.len()
            invariant
                all == self.locals@,
                i <= all.len(),
                out@.len() == exported_locals(all.take(i as int)).len(),
                forall|k: int| 0 <= k < out@.len() ==> #[trigger] describes_export(out@[k], exported_locals(all.take(i as int))[k], all),
                forall|k: int| 0 <= k < exported_locals(all.take(i as int)).len() ==> (#[trigger] exported_locals(all.take(i as int))[k]).var_type.value is BaseType,
            decreases all.len() - i,
        {
            let ghost pre = all.take(i as int);
            assert(all.take(i + 1).drop_last() =~= pre);
            assert(all.take(i + 1).last() == all[i as int]);
            if self.locals[i].is_inner {
                i = i + 1;
                continue;
            }
            let local = &self.locals[i];
            proof { lemma_last_local(all, local.name@); }
            let idx = match self.resolve_local(local.name.as_str(), true) {
                Ok(Some((j, _))) => j,
                _ => {
                    assert(false);
                    0
                },
            };
            let field_type = match &local.var_type.value {
                TypeSpecValue::BaseType(t) => t.copy(),
                TypeSpecValue::Computed { .. } => {
                    proof {
                        let e = exported_locals(all.take(i + 1));
                        assert(e.last() == all[i as int]);
                        assert(e[e.len() - 1].var_type.value is Computed);
                        lemma_exported_prefix(all, (i + 1) as int);
                    }
                    return Err(CompilationErrorKind::generic_error("Expected base type"));
                },
            };
            let ghost before = out@;
            out.push((local.name.clone(), FieldProto { value_idx: idx, is_const: local.is_const, field_type }));
            proof {
                let e = exported_locals(all.take(i + 1));
                assert(e == exported_locals(pre).push(all[i as int]));
                assert forall|k: int| 0 <= k < out@.len() implies #[trigger] describes_export(out@[k], e[k], all) by {
                    if k < before.len() {
                        assert(out@[k] == before[k]);
                        assert(e[k] == exported_locals(pre)[k]);
                    }
                }
            }
            i = i + 1;
        }
        proof {
            assert(all.take(all.len() as int) =~= all);
            if some_export_computed(all) {
                let k = choose|k: int| 0 <= k < exported_locals(all).len() && (#[trigger] exported_locals(all)[k]).var_type.value is Computed;
                assert(exported_locals(all)[k].var_type.value is BaseType);
            }
        }
        Ok(out)
    }
}

/// The exports of a prefix of the locals are a prefix of the exports.
proof fn lemma_exported_prefix(all: Seq<Local>, n: int)
    requires
        0 <= n <= all.len(),
    ensures
        exported_locals(all.take(n)).len() <= exported_locals(all).len(),
        forall|k: int| 0 <= k < exported_locals(all.take(n)).len() ==> #[trigger] exported_locals(all.take(n))[k] == exported_locals(all)[k],
        exported_locals(all.take(n)).len() > 0 && exported_locals(all.take(n)).last().var_type.value is Computed ==> some_export_computed(all),
    decreases all.len() - n,
{
    if n < all.len() {
        lemma_exported_prefix(all, n + 1);
        assert(all.take(n + 1).drop_last() =~= all.take(n));
        assert(all.take(n + 1).last() == all[n]);
        let a = exported_locals(all.take(n));
        let b = exported_locals(all.take(n + 1));
        assert(b == if all[n].is_inner { a } else { a.push(all[n]) });
        assert forall|k: int| 0 <= k < a.len() implies #[trigger] a[k] == exported_locals(all)[k] by {
            assert(a[k] == b[k]);
        }
    } else {
        assert(all.take(n) =~= all);
    }
    if exported_locals(all.take(n)).len() > 0 && exported_locals(all.take(n)).last().var_type.value is Computed {
        let k = exported_locals(all.take(n)).len() - 1;
        assert(exported_locals(all)[k].var_type.value is Computed);
    }
}

} // verus!
