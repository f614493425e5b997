//! The state of the virtual machine that the bytecode does not touch
//! directly: its value stack, its call frames, its globals and the captured
//! variables it wires into closures.
use vstd::prelude::*;

use std::sync::Arc;

use crate::builtins::{builtin_globals, builtin_table};
use crate::ops::{binop, binop_computed, binop_result, bincomp, bincomp_computed, bincomp_value, int_binop_in_range, to_bool, truthy};
use crate::bytecode::{bincomp_of, binop_of, debug_text, lemma_bincomp_of, lemma_binop_of, lemma_opcode_of_code, opcode_of, BinCompcode, BinOpcode, Opcode, JUMP_OFFSET};
use crate::err::RuntimeError;
use crate::obj::{UpvalueId, Builtin, Function, NativeFunction, Upvalue, UpvalueLocation, UpvalueSpec, Value};
use crate::text::{nat_to_dec, string_views, u64_to_string};
use vstd::string::{StrSliceExecFns, StringSliceAdditionalSpecFns};
use vstd::utf8::{encode_utf8, encode_utf8_valid_utf8, is_char_boundary, is_char_boundary_iff_not_is_continuation_byte, is_continuation_byte, valid_utf8_split};
use crate::value::{
    find_last_named, lemma_last_named, lemma_last_named_push, lemma_last_named_update, last_named, type_str, ArcClosureInst, ArcClosureProto,
    objet_field, ASField, ASFieldInfo, ASObjet, ArcModule, ArcStructure, ClosureInst, Type, TypeSpecValue,
};
use crate::err::invalid_field_msg;

verus! {

/// The deepest the call stack may grow.
pub const MAX_DEPTH: usize = 2000;

/// A call in progress: the closure, the next instruction and where its
/// slots start on the stack.
#[derive(Debug)]
pub struct CallFrame {
    pub closure: ArcClosureInst,
    pub ip: usize,
    pub base: usize,
}

/// The virtual machine. A global named twice stands for its last entry.
pub struct VM {
    file: String,
    pub stack: Vec<Value>,
    frames: Vec<CallFrame>,
    upvalues: Vec<Upvalue>,
    open_upvalues: Vec<UpvalueId>,
    global_table: Vec<(String, Value)>,
    loaded_modules: Vec<(String, ArcModule)>,
    preloaded_modules: Vec<String>,
}

/// The globals once the global named `entry.0` is bound to `entry.1`: its
/// last entry is replaced, or the entry is appended.
pub open spec fn globals_after_insert(g: Seq<(String, Value)>, entry: (String, Value)) -> Seq<(String, Value)> {
    let i = last_named(g, entry.0@);
    if i >= 0 {
        g.update(i, (g[i].0, entry.1))
    } else {
        g.push(entry)
    }
}

/// A global read after it was bound gives the value bound, and every other
/// global reads as before.
pub proof fn lemma_global_read_after_write(g: Seq<(String, Value)>, entry: (String, Value), other: Seq<char>)
    ensures
        ({
            let after = globals_after_insert(g, entry);
            &&& last_named(after, entry.0@) >= 0
            &&& after[last_named(after, entry.0@)].1 == entry.1
            &&& other != entry.0@ ==> last_named(after, other) == last_named(g, other)
            &&& other != entry.0@ && last_named(g, other) >= 0 ==> after[last_named(after, other)] == g[last_named(g, other)]
        }),
{
    let i = last_named(g, entry.0@);
    lemma_last_named(g, entry.0@);
    lemma_last_named(g, other);
    if i >= 0 {
        let e = (g[i].0, entry.1);
        lemma_last_named_update(g, i, e, entry.0@);
        lemma_last_named_update(g, i, e, other);
    } else {
        lemma_last_named_push(g, entry, entry.0@);
        lemma_last_named_push(g, entry, other);
    }
}

/// The names of the modules of the standard library.
pub open spec fn std_names() -> Seq<Seq<char>> {
    seq![
        "Texte"@,
        "Liste"@,
        "Dict"@,
        "Test"@,
        "Aléatoire"@,
        "Débug"@,
        "ES"@,
        "SE"@,
        "Env"@,
        "Module"@,
        "Processus"@,
        "Projet"@,
        "Chemin"@,
        "Math"@,
        "Toml"@,
    ]
}

/// The names of the modules of the standard library.
pub fn std_module_names() -> (r: Vec<String>)
    ensures
        string_views(r@) == std_names(),
{
    let mut r: Vec<String> = Vec::new();
    r.push(String::from_str("Texte"));
    r.push(String::from_str("Liste"));
    r.push(String::from_str("Dict"));
    r.push(String::from_str("Test"));
    r.push(String::from_str("Aléatoire"));
    r.push(String::from_str("Débug"));
    r.push(String::from_str("ES"));
    r.push(String::from_str("SE"));
    r.push(String::from_str("Env"));
    r.push(String::from_str("Module"));
    r.push(String::from_str("Processus"));
    r.push(String::from_str("Projet"));
    r.push(String::from_str("Chemin"));
    r.push(String::from_str("Math"));
    r.push(String::from_str("Toml"));
    assert(string_views(r@) =~= std_names());
    r
}

/// A module name without the `.as` it may end with.
pub open spec fn module_key(name: Seq<char>) -> Seq<char> {
    if name.len() >= 3 && name.skip(name.len() - 3) == ".as"@ {
        name.take(name.len() - 3)
    } else {
        name
    }
}

/// Where a module comes from.
#[derive(Debug)]
pub enum ModuleLookup {
    /// It was loaded before.
    Loaded(ArcModule),
    /// It is a module of the standard library, not loaded yet.
    Standard(String),
    /// It is to be found in a file of that name, next to the script or in the
    /// module folders.
    File(String),
}

/// `name` without the `.as` it may end with.
fn strip_as(name: &str) -> (r: String)
    ensures
        r@ == module_key(name@),
{
    let n = name.unicode_len();
    if n >= 3 {
        let tail = crate::script::substring_chars(name, n - 3, n);
        let ext = ".as";
        proof {
            reveal_strlit(".as");
            assert(name@.skip(n - 3) =~= name@.subrange(n - 3, n as int));
        }
        if crate::text::str_eq(tail, ext) {
            return crate::script::substring_chars(name, 0, n - 3).to_owned();
        }
    }
    name.to_owned()
}

/// The message of a call stack that grew too deep.
pub open spec fn overflow_msg() -> Seq<char> {
    "la pile d'appel a dépassé la limite autorisée ("@ + nat_to_dec(MAX_DEPTH as nat) + ")"@
}

impl VM {
    /// The file the machine runs.
    pub closed spec fn file_name(&self) -> Seq<char> {
        self.file@
    }

    /// The value stack, its top last.
    pub closed spec fn values(&self) -> Seq<Value> {
        self.stack@
    }

    /// The calls in progress, the innermost last.
    pub closed spec fn frames(&self) -> Seq<CallFrame> {
        self.frames@
    }

    /// Every captured variable the machine made, by place.
    pub closed spec fn cells(&self) -> Seq<Upvalue> {
        self.upvalues@
    }

    /// The places of the captured variables still on the stack.
    pub closed spec fn open_upvalues(&self) -> Seq<UpvalueId> {
        self.open_upvalues@
    }

    /// The modules loaded so far, by name; a name listed twice stands for its
    /// last entry.
    pub closed spec fn loaded(&self) -> Seq<(String, ArcModule)> {
        self.loaded_modules@
    }

    /// The names of the modules of the standard library, which are loaded
    /// without reading a file.
    pub closed spec fn standard_modules(&self) -> Seq<String> {
        self.preloaded_modules@
    }

    /// The globals, by name; a name listed twice stands for its last entry.
    pub closed spec fn globals(&self) -> Seq<(String, Value)> {
        self.global_table@
    }

    /// A machine with an empty stack and no call in progress, whose globals
    /// are exactly the builtins.
    pub fn new(file: String) -> (r: Self)
        ensures
            r.file_name() == file@,
            r.values().len() == 0,
            r.frames().len() == 0,
            r.open_upvalues().len() == 0,
            r.cells().len() == 0,
            builtin_globals(r.globals()),
            r.loaded().len() == 0,
            string_views(r.standard_modules()) == std_names(),
    {
        VM {
            file,
            stack: Vec::new(),
            frames: Vec::new(),
            upvalues: Vec::new(),
            open_upvalues: Vec::new(),
            global_table: builtin_table(),
            loaded_modules: Vec::new(),
            preloaded_modules: std_module_names(),
        }
    }

    /// Looks a module up by name (without its `.as`): a module loaded before,
    /// or else one of the standard library, or else a file to read.
    pub fn lookup_module(&self, name: &str) -> (r: ModuleLookup)
        ensures
            ({
                let key = module_key(name@);
                let i = last_named(self.loaded(), key);
                if i >= 0 {
                    r == ModuleLookup::Loaded(self.loaded()[i].1)
                } else if string_views(self.standard_modules()).contains(key) {
                    r matches ModuleLookup::Standard(k) && k@ == key
                } else {
                    r matches ModuleLookup::File(k) && k@ == key
                }
            }),
    {
        let key = strip_as(name);
        match find_last_named(&self.loaded_modules, key.as_str()) {
            Some(i) => ModuleLookup::Loaded(Arc::clone(&self.loaded_modules[i].1)),
            None => {
                let mut j: usize = 0;
                while j < self.preloaded_modules.len()
                    invariant
                        j <= self.preloaded_modules@.len(),
                        last_named(self.loaded_modules@, key@) < 0,
                        key@ == module_key(name@),
                        forall|k: int| 0 <= k < j ==> self.preloaded_modules@[k]@ != key@,
                    decreases self.preloaded_modules@.len() - j,
                {
                    if crate::text::str_eq(self.preloaded_modules[j].as_str(), key.as_str()) {
                        assert(string_views(self.preloaded_modules@)[j as int] == key@);
                        return ModuleLookup::Standard(key);
                    }
                    j = j + 1;
                }
                assert(!string_views(self.preloaded_modules@).contains(key@)) by {
                    if string_views(self.preloaded_modules@).contains(key@) {
                        let k = choose|k: int| 0 <= k < string_views(self.preloaded_modules@).len() && string_views(self.preloaded_modules@)[k] == key@;
                        assert(self.preloaded_modules@[k]@ == key@);
                    }
                }
                ModuleLookup::File(key)
            },
        }
    }

    /// Keeps a module that was loaded, under its name without `.as`.
    pub fn finish_load_module(&mut self, name: &str, module: ArcModule)
        ensures
            final(self).loaded() == old(self).loaded().push((final(self).loaded().last().0, module)),
            final(self).loaded().last().0@ == module_key(name@),
            final(self).values() == old(self).values(),
            final(self).frames() == old(self).frames(),
            final(self).globals() == old(self).globals(),
            final(self).standard_modules() == old(self).standard_modules(),
    {
        let key = strip_as(name);
        self.loaded_modules.push((key, module));
    }

    /// How many calls are in progress.
    pub fn depth(&self) -> (r: usize)
        ensures
            r == self.frames().len(),
    {
        self.frames.len()
    }

    /// The captured variable at place `id`, if the machine made one there.
    pub fn upvalue(&self, id: UpvalueId) -> (r: Option<&Upvalue>)
        ensures
            id < self.cells().len() ==> r == Some(&self.cells()[id as int]),
            id >= self.cells().len() ==> r is None,
    {
        if id < self.upvalues.len() {
            Some(&self.upvalues[id])
        } else {
            None
        }
    }

    /// The file the machine runs.
    pub fn file(&self) -> (r: &str)
        ensures
            r@ == self.file_name(),
    {
        self.file.as_str()
    }

    /// Binds the global `name` to `val`; gives the value it had, if any.
    pub fn insert_global(&mut self, entry: (String, Value)) -> (r: Option<Value>)
        ensures
            ({
                let i = last_named(old(self).globals(), entry.0@);
                &&& i >= 0 ==> r == Some(old(self).globals()[i].1)
                &&& i < 0 ==> r is None
                &&& final(self).globals() == globals_after_insert(old(self).globals(), entry)
            }),
            final(self).values() == old(self).values(),
            final(self).frames() == old(self).frames(),
            final(self).open_upvalues() == old(self).open_upvalues(),
            final(self).file_name() == old(self).file_name(),
    {
        let (name, val) = entry;
        match find_last_named(&self.global_table, name.as_str()) {
            Some(i) => {
                let (k, previous) = self.global_table.remove(i);
                self.global_table.insert(i, (k, val));
                Some(previous)
            },
            None => {
                self.global_table.push((name, val));
                None
            },
        }
    }

    /// The value of the global `name`, if any.
    pub fn get_global(&mut self, name: &str) -> (r: Option<&Value>)
        ensures
            ({
                let i = last_named(old(self).globals(), name@);
                &&& i >= 0 ==> r == Some(&old(self).globals()[i].1)
                &&& i < 0 ==> r is None
            }),
            *final(self) == *old(self),
    {
        match find_last_named(&self.global_table, name) {
            Some(i) => Some(&self.global_table[i].1),
            None => None,
        }
    }

    /// Pushes a value on the stack.
    pub fn push(&mut self, v: Value)
        ensures
            final(self).values() == old(self).values().push(v),
            final(self).frames() == old(self).frames(),
            final(self).globals() == old(self).globals(),
    {
        self.stack.push(v);
    }

    /// Pops the value on top of the stack, if any.
    pub fn pop(&mut self) -> (r: Option<Value>)
        ensures
            old(self).values().len() == 0 ==> r is None && final(self).values().len() == 0,
            old(self).values().len() > 0 ==> r == Some(old(self).values().last()) && final(self).values()
                == old(self).values().drop_last(),
            final(self).frames() == old(self).frames(),
            final(self).globals() == old(self).globals(),
    {
        self.stack.pop()
    }

    /// The value `distance` places below the top of the stack.
    pub fn peek(&self, distance: usize) -> (r: &Value)
        requires
            distance < self.values().len(),
        ensures
            *r == self.values()[self.values().len() - 1 - distance],
    {
        let idx = self.stack.len() - 1 - distance;
        &self.stack[idx]
    }

    /// An error when the call stack is too deep.
    pub fn check_overflow(&self) -> (r: Result<(), RuntimeError>)
        ensures
            self.frames().len() >= MAX_DEPTH ==> (r matches Err(RuntimeError::StackOverflow(m)) && m@
                == overflow_msg()),
            self.frames().len() < MAX_DEPTH ==> r is Ok,
    {
        if self.frames.len() >= MAX_DEPTH {
            let mut m = String::from_str("la pile d'appel a dépassé la limite autorisée (");
            let n = u64_to_string(MAX_DEPTH as u64);
            m.append(n.as_str());
            m.append(")");
            Err(RuntimeError::stackoverflow_error(m.as_str()))
        } else {
            Ok(())
        }
    }
}

/// The captured variables `ups` of a closure made in frame `f` from the
/// sources `specs`, among the machine's captured variables `cells`: a local
/// slot of `f` is a variable still open on that slot; a captured variable of
/// `f`'s closure is that same variable.
pub open spec fn wires(f: CallFrame, specs: Seq<UpvalueSpec>, ups: Seq<UpvalueId>, cells: Seq<Upvalue>) -> bool {
    &&& ups.len() == specs.len()
    &&& forall|k: int|
        0 <= k < specs.len() ==> match #[trigger] specs[k] {
            UpvalueSpec::Local(slot) => ups[k] < cells.len() && cells[ups[k] as int] == (Upvalue {
                location: UpvalueLocation::Open((f.base + slot) as usize),
            }),
            UpvalueSpec::Upvalue(i) => i < f.closure.upvalues@.len() && ups[k] == f.closure.upvalues@[i as int],
        }
}

/// Some source names a captured variable that `f`'s closure does not have.
pub open spec fn source_out_of_range(f: CallFrame, specs: Seq<UpvalueSpec>) -> bool {
    exists|k: int| 0 <= k < specs.len() && (#[trigger] specs[k] matches UpvalueSpec::Upvalue(i) && i >= f.closure.upvalues@.len())
}

/// Every local slot named by `specs` lies within the machine's range from
/// the base of `f`.
pub open spec fn slots_fit(f: CallFrame, specs: Seq<UpvalueSpec>) -> bool {
    forall|k: int| 0 <= k < specs.len() ==> (#[trigger] specs[k] matches UpvalueSpec::Local(slot) ==> f.base + slot <= usize::MAX)
}

/// The message of a call with the wrong number of arguments.
pub open spec fn arity_msg(expected: nat, got: nat) -> Seq<char> {
    "mauvais nombre d'arguments (attendu "@ + nat_to_dec(expected) + ", obtenu "@ + nat_to_dec(got) + ")"@
}

/// The name a function is reported under.
pub open spec fn reported_name(name: Option<String>) -> Seq<char> {
    match name {
        Some(n) => n@,
        None => "anonyme"@,
    }
}

fn arity_error(name: &Option<String>, expected: usize, got: usize) -> (r: RuntimeError)
    ensures
        r matches RuntimeError::CallError { func_name, msg } && func_name@ == reported_name(*name)
            && msg@ == arity_msg(expected as nat, got as nat),
{
    let mut m = String::from_str("mauvais nombre d'arguments (attendu ");
    let e = u64_to_string(expected as u64);
    m.append(e.as_str());
    m.append(", obtenu ");
    let g = u64_to_string(got as u64);
    m.append(g.as_str());
    m.append(")");
    match name {
        Some(n) => RuntimeError::call_error(n.as_str(), m.as_str()),
        None => RuntimeError::call_error("anonyme", m.as_str()),
    }
}

impl VM {
    /// Makes a closure instance of a prototype called from the current
    /// frame, wiring each captured variable to its source: a local slot of
    /// the frame (sharing the variable still open on that slot, or opening
    /// one) or a captured variable of the frame's closure.
    pub fn resolve_proto_closure_upvalues(&mut self, proto_closure: ArcClosureProto) -> (r: Result<ArcClosureInst, RuntimeError>)
        requires
            old(self).frames().len() > 0 ==> slots_fit(old(self).frames().last(), proto_closure.function.upvalue_specs@),
        ensures
            final(self).values() == old(self).values(),
            final(self).frames() == old(self).frames(),
            final(self).globals() == old(self).globals(),
            final(self).open_upvalues().take(old(self).open_upvalues().len() as int) == old(self).open_upvalues(),
            final(self).cells().len() >= old(self).cells().len(),
            final(self).cells().take(old(self).cells().len() as int) == old(self).cells(),
            old(self).frames().len() == 0 ==> (r matches Err(RuntimeError::RuntimeError(m)) && m@ == "no frame"@),
            old(self).frames().len() > 0 ==> ({
                let f = old(self).frames().last();
                let specs = proto_closure.function.upvalue_specs@;
                &&& source_out_of_range(f, specs) ==> (r matches Err(RuntimeError::RuntimeError(m)) && m@
                    == "parent upvalue index out of range"@)
                &&& !source_out_of_range(f, specs) ==> (r matches Ok(c) && c.function == proto_closure.function
                    && wires(f, specs, c.upvalues@, final(self).cells()))
            }),
    {
        if self.frames.len() == 0 {
            return Err(RuntimeError::generic_err("no frame"));
        }
        let n = self.frames.len();
        let frame_base = self.frames[n - 1].base;
        let function = Arc::clone(&proto_closure.function);
        let ghost f = self.frames@[n - 1];
        let ghost specs = function.upvalue_specs@;
        let ghost opened = self.open_upvalues@;
        let ghost cells0 = self.upvalues@;
        let mut closure_upvalues: Vec<UpvalueId> = Vec::new();
        let mut k: usize = 0;
        while k < function.upvalue_specs.len()
            invariant
                n == self.frames@.len(),
                n > 0,
                f == self.frames@[n - 1],
                frame_base == f.base,
                specs == function.upvalue_specs@,
                function == proto_closure.function,
                slots_fit(f, specs),
                k <= specs.len(),
                closure_upvalues@.len() == k,
                self.frames@ == old(self).frames@,
                self.stack == old(self).stack,
                self.global_table == old(self).global_table,
                self.open_upvalues@.len() >= opened.len(),
                self.open_upvalues@.take(opened.len() as int) == opened,
                opened == old(self).open_upvalues@,
                cells0 == old(self).upvalues@,
                self.upvalues@.len() >= cells0.len(),
                self.upvalues@.take(cells0.len() as int) == cells0,
                forall|j: int| 0 <= j < k ==> !(#[trigger] specs[j] matches UpvalueSpec::Upvalue(i) && i >= f.closure.upvalues@.len()),
                forall|j: int|
                    0 <= j < k ==> match #[trigger] specs[j] {
                        UpvalueSpec::Local(slot) => closure_upvalues@[j] < self.upvalues@.len() && self.upvalues@[closure_upvalues@[j] as int]
                            == (Upvalue { location: UpvalueLocation::Open((f.base + slot) as usize) }),
                        UpvalueSpec::Upvalue(i) => i < f.closure.upvalues@.len() && closure_upvalues@[j] == f.closure.upvalues@[i as int],
                    },
            decreases specs.len() - k,
        {
            match function.upvalue_specs[k] {
                UpvalueSpec::Local(slot_idx) => {
                    assert(specs[k as int] matches UpvalueSpec::Local(s) ==> f.base + s <= usize::MAX);
                    let target_stack_idx = frame_base + slot_idx;
                    let mut found: Option<UpvalueId> = None;
                    let mut i: usize = 0;
                    while i < self.open_upvalues.len()
                        invariant
                            i <= self.open_upvalues@.len(),
                            found matches Some(u) ==> u < self.upvalues@.len() && self.upvalues@[u as int] == (Upvalue {
                                location: UpvalueLocation::Open(target_stack_idx),
                            }),
                        decreases self.open_upvalues@.len() - i,
                    {
                        let id = self.open_upvalues[i];
                        if id < self.upvalues.len() {
                            let is_target = match &self.upvalues[id].location {
                                UpvalueLocation::Open(idx) => *idx == target_stack_idx,
                                UpvalueLocation::Closed(_) => false,
                            };
                            if is_target {
                                found = Some(id);
                                break;
                            }
                        }
                        i = i + 1;
                    }
                    let up = match found {
                        Some(e) => e,
                        None => {
                            let id = self.upvalues.len();
                            let ghost before = self.open_upvalues@;
                            let ghost cells_before = self.upvalues@;
                            self.upvalues.push(Upvalue { location: UpvalueLocation::Open(target_stack_idx) });
                            self.open_upvalues.push(id);
                            assert(self.open_upvalues@.take(opened.len() as int) =~= before.take(opened.len() as int));
                            assert(self.upvalues@.take(cells0.len() as int) =~= cells_before.take(cells0.len() as int));
                            assert forall|j: int| 0 <= j < k implies match #[trigger] specs[j] {
                                UpvalueSpec::Local(slot) => closure_upvalues@[j] < self.upvalues@.len() && self.upvalues@[closure_upvalues@[j] as int]
                                    == (Upvalue { location: UpvalueLocation::Open((f.base + slot) as usize) }),
                                UpvalueSpec::Upvalue(i) => i < f.closure.upvalues@.len() && closure_upvalues@[j] == f.closure.upvalues@[i as int],
                            } by {
                                if specs[j] is Local {
                                    assert(self.upvalues@[closure_upvalues@[j] as int] == cells_before[closure_upvalues@[j] as int]);
                                }
                            }
                            id
                        },
                    };
                    closure_upvalues.push(up);
                },
                UpvalueSpec::Upvalue(parent_index) => {
                    let parent_upvalues = &self.frames[n - 1].closure.upvalues;
                    if parent_index >= parent_upvalues.len() {
                        assert(source_out_of_range(f, specs)) by {
                            assert(specs[k as int] matches UpvalueSpec::Upvalue(i) && i >= f.closure.upvalues@.len());
                        }
                        return Err(RuntimeError::generic_err("parent upvalue index out of range"));
                    }
                    closure_upvalues.push(parent_upvalues[parent_index]);
                },
            }
            k = k + 1;
        }
        proof {
            assert(!source_out_of_range(f, specs));
        }
        Ok(Arc::new(ClosureInst::new(function, closure_upvalues)))
    }
}

/// The outcome of a call that leaves `depth` calls in progress: the
/// stack-overflow error past the limit, success below it.
pub open spec fn depth_outcome(depth: nat, r: Result<Option<Action>, RuntimeError>) -> bool {
    if depth >= MAX_DEPTH {
        r matches Err(RuntimeError::StackOverflow(m)) && m@ == overflow_msg()
    } else {
        r matches Ok(None)
    }
}

/// A call of a function the machine provides: its arguments and the function
/// are already off the stack; whoever runs it pushes its result (`nul` when it
/// gives none).
#[derive(Debug)]
pub struct NativeCall {
    pub function: Arc<NativeFunction>,
    pub args: Vec<Value>,
}

/// Work that the machine hands to the program driving it, which carries it
/// out and gives back the outcome.
#[derive(Debug)]
pub enum Action {
    /// Run a function the machine provides and push its result.
    Call(NativeCall),
    /// Show `prompt`, read a line and hand it to [`VM::finish_read`].
    Read { prompt: Value },
    /// Carry out the instruction `op` (with argument `arg`) on `operands`,
    /// which are already off the stack, and push its result: an operation on
    /// values the library does not compute itself (decimals, the methods of
    /// the standard modules), or, with no operands and the stack untouched,
    /// an instruction that changes a structure, an object or a list in place
    /// or builds an object.
    Operate { op: Opcode, arg: u16, operands: Vec<Value> },
    /// The outermost call returned: the run is over.
    Finished,
    /// Run `function` on `args` (taken off the stack, the last argument
    /// first), then hand its outcome to [`VM::finish_try_call`] with
    /// `stack_len`, `frames_len` and `catch_dist`.
    TryCall { function: Function, args: Vec<Value>, stack_len: usize, frames_len: usize, catch_dist: i16 },
    /// Show `prompt`, read a line and hand it to [`VM::finish_read_call`] with
    /// `dist`.
    ReadCall { prompt: Value, dist: i16 },
    /// Load the module `name` (a module of the standard library when
    /// `standard`, else a file), keep it with [`VM::finish_load_module`] and
    /// push it.
    LoadModule { name: String, standard: bool },
}

/// Closing, from the front of the open places `open`, every captured
/// variable still open on a stack slot at or above `base`: it takes the value
/// the stack `vs` holds there. Gives the captured variables and the places
/// that stay open.
pub open spec fn close_from(cells: Seq<Upvalue>, open: Seq<UpvalueId>, base: usize, vs: Seq<Value>) -> (Seq<Upvalue>, Seq<UpvalueId>)
    decreases open.len(),
{
    if open.len() == 0 {
        (cells, open)
    } else {
        let id = open[0];
        if closes(cells, id, base) {
            let idx = cells[id as int].location->Open_0;
            close_from(cells.update(id as int, Upvalue { location: UpvalueLocation::Closed(vs[idx as int]) }), open.drop_first(), base, vs)
        } else {
            let rest = close_from(cells, open.drop_first(), base, vs);
            (rest.0, seq![id] + rest.1)
        }
    }
}

/// Whether the innermost call of `fs` may return: its captured variables can
/// be closed, and a caller's stack has the place where the function was.
pub open spec fn return_ok(fs: Seq<CallFrame>, vs: Seq<Value>, cells: Seq<Upvalue>, open: Seq<UpvalueId>) -> bool {
    let f = fs.last();
    let vs1 = if vs.len() > f.base { vs.drop_last() } else { vs };
    &&& fs.len() > 0
    &&& closable(cells, open, f.base, vs)
    &&& fs.len() > 1 ==> 1 <= f.base && f.base - 1 < vs1.len()
}

/// What returning from the innermost call of `fs` does.
pub open spec fn return_effect(
    fs: Seq<CallFrame>,
    vs: Seq<Value>,
    cells: Seq<Upvalue>,
    open: Seq<UpvalueId>,
    fs2: Seq<CallFrame>,
    vs2: Seq<Value>,
    cells2: Seq<Upvalue>,
    open2: Seq<UpvalueId>,
    r: Result<Option<Action>, RuntimeError>,
) -> bool {
    let f = fs.last();
    let closed = close_from(cells, open, f.base, vs);
    let vs1 = if vs.len() > f.base { vs.drop_last() } else { vs };
    let ret = if vs.len() > f.base { vs.last() } else { Value::Nul };
    &&& fs2 == fs.drop_last()
    &&& cells2 == closed.0
    &&& open2 == closed.1
    &&& fs2.len() == 0 ==> (r matches Ok(Some(Action::Finished)) && vs2 == vs)
    &&& fs2.len() > 0 ==> (r matches Ok(None) && vs2 == (if vs1.len() > f.base { vs1.take(f.base as int) } else { vs1 }).update(
        f.base - 1,
        ret,
    ))
}

/// Whether setting the captured variable at `idx` of `f`'s closure may go
/// ahead: a variable still open is open on a slot the stack keeps.
pub open spec fn set_upvalue_ok(f: CallFrame, idx: u16, vs: Seq<Value>, cells: Seq<Upvalue>) -> bool {
    let vs1 = if vs.len() > 0 { vs.drop_last() } else { vs };
    captured(f, idx, cells) matches Some(u) ==> (u.location matches UpvalueLocation::Open(i) ==> i < vs1.len())
}

/// What setting the captured variable at `idx` of `f`'s closure does.
pub open spec fn set_upvalue_effect(
    f: CallFrame,
    idx: u16,
    vs: Seq<Value>,
    cells: Seq<Upvalue>,
    vs2: Seq<Value>,
    cells2: Seq<Upvalue>,
    r: Result<Option<Action>, RuntimeError>,
) -> bool {
    let vs1 = if vs.len() > 0 { vs.drop_last() } else { vs };
    let val = if vs.len() > 0 { vs.last() } else { Value::Nul };
    match captured(f, idx, cells) {
        None => (r matches Err(RuntimeError::RuntimeError(m)) && m@ == "set upvalue out of range"@) && vs2 == vs
            && cells2 == cells,
        Some(u) => r matches Ok(None) && match u.location {
            UpvalueLocation::Open(i) => vs2 == vs1.update(i as int, val) && cells2 == cells,
            UpvalueLocation::Closed(_) => vs2 == vs1 && cells2 == cells.update(
                f.closure.upvalues@[idx as int] as int,
                Upvalue { location: UpvalueLocation::Closed(val) },
            ),
        },
    }
}

/// Whether the captured variable at place `id` is open on a slot at or above
/// `base`.
pub open spec fn closes(cells: Seq<Upvalue>, id: UpvalueId, base: usize) -> bool {
    id < cells.len() && (cells[id as int].location matches UpvalueLocation::Open(idx) && idx >= base)
}

/// Every captured variable that closing at `base` would close is open on a
/// slot the stack `vs` has.
pub open spec fn closable(cells: Seq<Upvalue>, open: Seq<UpvalueId>, base: usize, vs: Seq<Value>) -> bool {
    forall|k: int| 0 <= k < open.len() && closes(cells, #[trigger] open[k], base) ==> cells[open[k] as int].location->Open_0 < vs.len()
}

/// The message of a binary instruction that finds too few values.
pub open spec fn missing_operand_msg(arg: u16) -> Seq<char> {
    "Missing rhs in "@ + nat_to_dec(arg as nat)
}

/// `r` hands the instruction `op` with argument `arg` over, on `operands`.
pub open spec fn operate_handoff(r: Result<Option<Action>, RuntimeError>, op: Opcode, arg: u16, operands: Seq<Value>) -> bool {
    r matches Ok(Some(Action::Operate { op: o, arg: a, operands: xs })) && o == op && a == arg && xs@ == operands
}

/// What a binary instruction (`BINOP` when `arith`, `BINCOMP` otherwise) with
/// argument `arg` does to the stack `vs`, giving `vs2` and the outcome `r`.
pub open spec fn binary_step(arith: bool, vs: Seq<Value>, arg: u16, vs2: Seq<Value>, r: Result<Option<Action>, RuntimeError>) -> bool {
    if vs.len() < 2 {
        &&& r matches Err(RuntimeError::RuntimeError(m)) && m@ == missing_operand_msg(arg)
        &&& vs2 == (if vs.len() == 1 { vs.drop_last() } else { vs })
    } else {
        let a = vs[vs.len() - 2];
        let b = vs.last();
        let rest = vs.drop_last().drop_last();
        if arith {
            if binop_computed(binop_of(arg), a, b) {
                &&& r matches Ok(None)
                &&& vs2.len() == rest.len() + 1
                &&& vs2.drop_last() == rest
                &&& binop_result(binop_of(arg), a, b, vs2.last())
            } else {
                operate_handoff(r, Opcode::BinOp, arg, seq![a, b]) && vs2 == rest
            }
        } else {
            if bincomp_computed(bincomp_of(arg), a, b) {
                r matches Ok(None) && vs2 == rest.push(Value::Booleen(bincomp_value(bincomp_of(arg), a, b)))
            } else {
                operate_handoff(r, Opcode::BinComp, arg, seq![a, b]) && vs2 == rest
            }
        }
    }
}

/// Whether a binary instruction may be carried out on `vs`: its argument
/// names an operation, and integer arithmetic stays within range.
pub open spec fn binary_ok(arith: bool, vs: Seq<Value>, arg: u16) -> bool {
    &&& arith ==> arg < 13
    &&& !arith ==> arg < 8
    &&& arith && vs.len() >= 2 ==> (vs[vs.len() - 2] matches Value::Entier(x) ==> (vs.last() matches Value::Entier(y)
        ==> int_binop_in_range(binop_of(arg), x, y)))
}

/// Whether calling `func` with `nbargs` arguments passes the arity check.
pub open spec fn arity_matches(func: Value, nbargs: usize) -> bool {
    match func {
        Value::Function(Function::ClosureInst(c)) => nbargs == c.function.nb_params,
        Value::Function(Function::ClosureProto(c)) => nbargs == c.function.nb_params,
        Value::Function(Function::ClosureMethod(m)) => nbargs + 1 == m.closure.function.nb_params,
        Value::Function(Function::NativeFunction(_)) => true,
        _ => false,
    }
}

/// The message of a call of a value that is not a function.
pub open spec fn not_callable_msg(v: Value) -> Seq<char> {
    "Cannot call value of type: "@ + type_str(crate::obj::value_type(v))
}

/// What a call of `func` with `nbargs` arguments does to the calls in
/// progress `fs` and the stack `vs` (giving `fs2`, `vs2` and the outcome `r`).
pub open spec fn call_effect(
    fs: Seq<CallFrame>,
    vs: Seq<Value>,
    nbargs: usize,
    func: Value,
    fs2: Seq<CallFrame>,
    vs2: Seq<Value>,
    cells2: Seq<Upvalue>,
    r: Result<Option<Action>, RuntimeError>,
) -> bool {
    match func {
        Value::Function(Function::ClosureInst(c)) => if nbargs != c.function.nb_params {
            &&& r matches Err(RuntimeError::CallError { func_name, msg }) && func_name@ == reported_name(
                c.function.name,
            ) && msg@ == arity_msg(c.function.nb_params as nat, nbargs as nat)
            &&& fs2 == fs
            &&& vs2 == vs
        } else {
            &&& fs2 == fs.push(
                CallFrame { closure: c, ip: 0, base: (vs.len() - nbargs) as usize },
            )
            &&& vs2 == vs
            &&& depth_outcome((fs.len() + 1) as nat, r)
        },
        Value::Function(Function::ClosureProto(c)) => if nbargs != c.function.nb_params {
            &&& r matches Err(RuntimeError::CallError { func_name, msg }) && func_name@ == reported_name(
                c.function.name,
            ) && msg@ == arity_msg(c.function.nb_params as nat, nbargs as nat)
            &&& fs2 == fs
            &&& vs2 == vs
        } else if fs.len() == 0 {
            &&& r matches Err(RuntimeError::RuntimeError(m)) && m@ == "no frame"@
            &&& fs2 == fs
            &&& vs2 == vs
        } else if source_out_of_range(fs.last(), c.function.upvalue_specs@) {
            &&& r matches Err(RuntimeError::RuntimeError(m)) && m@ == "parent upvalue index out of range"@
            &&& fs2 == fs
            &&& vs2 == vs
        } else {
            let f = fs2.last();
            &&& fs2.len() == fs.len() + 1
            &&& fs2 == fs.push(fs2.last())
            &&& f.ip == 0
            &&& f.base == vs.len() - nbargs
            &&& f.closure.function == c.function
            &&& wires(fs.last(), c.function.upvalue_specs@, f.closure.upvalues@, cells2)
            &&& vs2 == vs
            &&& depth_outcome((fs.len() + 1) as nat, r)
        },
        Value::Function(Function::ClosureMethod(m)) => if nbargs + 1 != m.closure.function.nb_params {
            &&& r matches Err(RuntimeError::CallError { func_name, msg }) && func_name@ == reported_name(
                m.closure.function.name,
            ) && msg@ == arity_msg(m.closure.function.nb_params as nat, nbargs as nat)
            &&& fs2 == fs
            &&& vs2 == vs
        } else {
            let base = (vs.len() - nbargs) as usize;
            &&& fs2 == fs.push(
                CallFrame { closure: m.closure, ip: 0, base },
            )
            &&& depth_outcome((fs.len() + 1) as nat, r)
            &&& r is Err ==> vs2 == vs
            &&& r is Ok ==> vs2 == vs.insert(base as int, m.inst_value)
        },
        Value::Function(Function::NativeFunction(nf)) => {
            &&& r matches Ok(Some(Action::Call(c))) && c.function == nf && c.args@ == vs.skip(vs.len() - nbargs)
            &&& vs2 == vs.take(if vs.len() > nbargs { vs.len() - nbargs - 1 } else { 0 })
            &&& fs2 == fs
        },
        _ => {
            &&& r matches Err(RuntimeError::RuntimeError(msg)) && msg@ == not_callable_msg(func)
            &&& fs2 == fs
            &&& vs2 == vs
        },
    }
}

impl VM {
    /// Calls `func` with the `nbargs` values on top of the stack as its
    /// arguments: checks their number, pushes a frame whose slots start at
    /// the first argument (a method's object is inserted there first), and
    /// fails when the call stack grows too deep (the frame stays pushed). A
    /// function the machine provides is handed back with its arguments, which
    /// are taken off the stack together with the function below them.
    pub fn call_fn(&mut self, nbargs: usize, func: Value) -> (r: Result<Option<Action>, RuntimeError>)
        requires
            nbargs < usize::MAX,
            arity_matches(func, nbargs) ==> nbargs <= old(self).values().len(),
            old(self).frames().len() > 0 ==> (func matches Value::Function(Function::ClosureProto(c)) ==> slots_fit(
                old(self).frames().last(),
                c.function.upvalue_specs@,
            )),
        ensures
            final(self).globals() == old(self).globals(),
            call_effect(old(self).frames(), old(self).values(), nbargs, func, final(self).frames(), final(self).values(), final(self).cells(), r),
            final(self).cells().len() >= old(self).cells().len(),
            final(self).cells().take(old(self).cells().len() as int) == old(self).cells(),
    {
        match func {
            Value::Function(Function::ClosureInst(closure)) => {
                if nbargs != closure.function.nb_params {
                    return Err(arity_error(&closure.function.name, closure.function.nb_params, nbargs));
                }
                let base = self.stack.len() - nbargs;
                self.frames.push(CallFrame { closure, ip: 0, base });
                self.check_overflow()?;
            },
            Value::Function(Function::ClosureProto(closure)) => {
                if nbargs != closure.function.nb_params {
                    return Err(arity_error(&closure.function.name, closure.function.nb_params, nbargs));
                }
                let closure = self.resolve_proto_closure_upvalues(closure)?;
                let base = self.stack.len() - nbargs;
                self.frames.push(CallFrame { closure, ip: 0, base });
                self.check_overflow()?;
            },
            Value::Function(Function::ClosureMethod(method)) => {
                if nbargs + 1 != method.closure.function.nb_params {
                    return Err(arity_error(&method.closure.function.name, method.closure.function.nb_params, nbargs));
                }
                let base = self.stack.len() - nbargs;
                let inst_value = method.inst_value.copy();
                let closure = Arc::clone(&method.closure);
                self.frames.push(CallFrame { closure, ip: 0, base });
                self.check_overflow()?;
                self.stack.insert(base, inst_value);
            },
            Value::Function(Function::NativeFunction(function)) => {
                let ghost vs = self.stack@;
                let len = self.stack.len();
                let mut args = self.stack.split_off(len - nbargs);
                self.stack.pop();
                proof {
                    assert(args@ =~= vs.skip(vs.len() - nbargs));
                    assert(self.stack@ =~= vs.take(if vs.len() > nbargs { vs.len() - nbargs - 1 } else { 0 }));
                }
                return Ok(Some(Action::Call(NativeCall { function, args })));
            },
            _ => {
                let t = func.get_type();
                let ts = t.to_string();
                let mut m = String::from_str("Cannot call value of type: ");
                m.append(ts.as_str());
                return Err(RuntimeError::generic_err(m.as_str()));
            },
        }
        Ok(None)
    }
}

/// A module of the standard library, loaded the first time it is imported.
pub trait LazyModule {
    /// The name it is imported under.
    fn name(&self) -> &'static str;

    /// The module.
    fn load(&self) -> ArcModule;
}

/// The calls in progress with the innermost one moved to instruction `ip`.
pub open spec fn frames_at(fs: Seq<CallFrame>, ip: usize) -> Seq<CallFrame> {
    fs.update(fs.len() - 1, CallFrame { ip, ..fs.last() })
}

/// An index counted from the end when negative.
pub open spec fn from_end(i: int, len: int) -> int {
    if i < 0 {
        len + i
    } else {
        i
    }
}

/// The items of `l` at the integer indices listed in `r`; entries of `r`
/// that are not integers are passed over.
pub open spec fn picked(l: Seq<Value>, r: Seq<Value>) -> Seq<Value>
    decreases r.len(),
{
    if r.len() == 0 {
        Seq::empty()
    } else {
        let rest = picked(l, r.drop_last());
        match r.last() {
            Value::Entier(i) => rest.push(l[from_end(i as int, l.len() as int)]),
            _ => rest,
        }
    }
}

/// The characters of `t` at the integer indices listed in `r`, a negative
/// index counted back from `blen` (the length of `t` in bytes); entries of
/// `r` that are not integers are passed over.
pub open spec fn picked_chars(t: Seq<char>, r: Seq<Value>, blen: int) -> Seq<char>
    decreases r.len(),
{
    if r.len() == 0 {
        Seq::empty()
    } else {
        let rest = picked_chars(t, r.drop_last(), blen);
        match r.last() {
            Value::Entier(i) => rest.push(t[from_end(i as int, blen)]),
            _ => rest,
        }
    }
}

/// Every integer index listed in `r` designates an item of a sequence of
/// length `len`.
pub open spec fn indices_in_range(r: Seq<Value>, len: int) -> bool {
    forall|k: int| 0 <= k < r.len() ==> (#[trigger] r[k] matches Value::Entier(i) ==> 0 <= from_end(i as int, len) < len)
}

/// Whether indexing `obj` with `slice` is an access the machine carries out:
/// a list or a text by an integer within range (a text at character
/// boundaries), a list by a list of integers within range, or a text by a
/// list of integers within range.
pub open spec fn item_access_ok(obj: Value, slice: Value) -> bool {
    match (obj, slice) {
        (Value::Liste(l), Value::Entier(i)) => 0 <= from_end(i as int, l@.len() as int) < l@.len(),
        (Value::Texte(t), Value::Entier(i)) => {
            let bs = encode_utf8(t@);
            let k = from_end(i as int, bs.len() as int);
            &&& 0 <= k < bs.len()
            &&& is_char_boundary(bs, k)
            &&& is_char_boundary(bs, k + 1)
        },
        (Value::Liste(l), Value::Liste(r)) => indices_in_range(r@, l@.len() as int),
        (Value::Texte(t), Value::Liste(r)) => forall|k: int|
            0 <= k < r@.len() ==> (#[trigger] r@[k] matches Value::Entier(i) ==> 0 <= from_end(
                i as int,
                encode_utf8(t@).len() as int,
            ) < t@.len()),
        _ => false,
    }
}

/// Whether the library indexes `obj` with `slice` itself: a list or a text
/// by an integer or by a list of indices. Other indexings (by a decimal
/// number among them) are handed to the program driving the machine.
pub open spec fn item_computed(obj: Value, slice: Value) -> bool {
    (obj is Liste || obj is Texte) && (slice is Entier || slice is Liste)
}

fn item_computed_exec(obj: &Value, slice: &Value) -> (r: bool)
    ensures
        r == item_computed(*obj, *slice),
{
    let o = match obj {
        Value::Liste(_) | Value::Texte(_) => true,
        _ => false,
    };
    let s = match slice {
        Value::Entier(_) | Value::Liste(_) => true,
        _ => false,
    };
    o && s
}

/// The item that indexing `obj` with `slice` gives.
pub open spec fn item_of(obj: Value, slice: Value, item: Value) -> bool {
    match (obj, slice) {
        (Value::Liste(l), Value::Entier(i)) => item == l@[from_end(i as int, l@.len() as int)],
        (Value::Texte(t), Value::Entier(i)) => {
            let bs = encode_utf8(t@);
            let k = from_end(i as int, bs.len() as int);
            item matches Value::Texte(c) && encode_utf8(c@) == bs.subrange(k, k + 1)
        },
        (Value::Liste(l), Value::Liste(r)) => item matches Value::Liste(out) && out@ == picked(l@, r@),
        (Value::Texte(t), Value::Liste(r)) => item matches Value::Texte(out) && out@ == picked_chars(
            t@,
            r@,
            encode_utf8(t@).len() as int,
        ),
        _ => false,
    }
}

/// The message of a loop state that is not an integer.
pub open spec fn loop_state_msg(state: Value) -> Seq<char> {
    "il faut que l'état soit une entier, pas '"@ + type_str(crate::obj::value_type(state)) + "'"@
}

/// The message of a loop over a value that cannot be iterated.
pub open spec fn not_iterable_msg(v: Value) -> Seq<char> {
    "impossible d'itérer sur une valeur de type '"@ + type_str(crate::obj::value_type(v)) + "'"@
}

/// How many steps a loop over `v` takes: the bytes of a text, the items of
/// a list.
pub open spec fn loop_len(v: Value) -> int {
    match v {
        Value::Texte(t) => encode_utf8(t@).len() as int,
        Value::Liste(l) => l@.len() as int,
        _ => 0,
    }
}

/// The item a loop over `v` yields at step `k`: the one-byte slice of a text
/// at `k`, or the list's item at `k`.
pub open spec fn loop_item(v: Value, k: int, item: Value) -> bool {
    match v {
        Value::Texte(t) => item matches Value::Texte(c) && encode_utf8(c@) == encode_utf8(t@).subrange(k, k + 1),
        Value::Liste(l) => item == l@[k],
        _ => false,
    }
}

/// Where the last character of the UTF-8 bytes `bs` starts (0 when there is
/// none): the last byte that is not a continuation byte.
pub open spec fn last_char_start(bs: Seq<u8>) -> int
    decreases bs.len(),
{
    if bs.len() == 0 {
        0
    } else if !is_continuation_byte(bs.last()) {
        bs.len() - 1
    } else {
        last_char_start(bs.drop_last())
    }
}

proof fn lemma_last_char_start(bs: Seq<u8>)
    ensures
        0 <= last_char_start(bs) <= bs.len(),
        bs.len() > 0 ==> last_char_start(bs) < bs.len(),
        last_char_start(bs) > 0 ==> !is_continuation_byte(bs[last_char_start(bs)]),
    decreases bs.len(),
{
    if bs.len() > 0 && is_continuation_byte(bs.last()) {
        lemma_last_char_start(bs.drop_last());
    }
}

/// Whether a byte continues a UTF-8 character rather than starting one.
fn is_continuation_byte_exec(b: u8) -> (r: bool)
    ensures
        r == is_continuation_byte(b),
{
    0x80 <= b && b <= 0xbf
}

/// The captured variable that the closure of frame `f` holds at `idx`, if
/// it holds one there that the machine made.
pub open spec fn captured(f: CallFrame, idx: u16, cells: Seq<Upvalue>) -> Option<Upvalue> {
    if idx < f.closure.upvalues@.len() && f.closure.upvalues@[idx as int] < cells.len() {
        Some(cells[f.closure.upvalues@[idx as int] as int])
    } else {
        None
    }
}

/// What reading the field `name` of the value on top of the stack `vs`
/// does, giving `vs2` and the outcome `r`: on an object, its field or bound
/// method; on a module, its member; on a structure, its method; on a `nul`,
/// a number, a boolean or a function, an error. Reading a method of a text
/// or a list (which the standard library provides) and a missing method of a
/// structure are handed over with the value.
pub open spec fn get_field_step(vs: Seq<Value>, name: Seq<char>, vs2: Seq<Value>, r: Result<Option<Action>, RuntimeError>, arg: u16) -> bool {
    let o = vs.last();
    let rest = vs.drop_last();
    match o {
        Value::Objet(ob) => {
            &&& exists|res: Result<Value, RuntimeError>| #[trigger] objet_field(ob, name, res) && match res {
                Ok(v) => r matches Ok(None) && vs2 == rest.push(v),
                Err(e) => r == Err::<Option<Action>, RuntimeError>(e) && vs2 == rest,
            }
        },
        Value::Module(m) => {
            let i = last_named(m.members@, name);
            if i >= 0 {
                r matches Ok(None) && vs2 == rest.push(m.members@[i].1.value)
            } else {
                (r matches Err(RuntimeError::FieldError(msg)) && msg@ == invalid_field_msg(m.name@, name)) && vs2 == rest
            }
        },
        Value::Structure(st) if last_named(st.methods@, name) >= 0 => r matches Ok(None) && vs2 == rest.push(
            Value::Function(Function::ClosureInst(st.methods@[last_named(st.methods@, name)].1)),
        ),
        Value::Structure(_) | Value::Texte(_) | Value::Liste(_) => operate_handoff(r, Opcode::GetField, arg, seq![o]) && vs2 == rest,
        _ => (r matches Err(RuntimeError::ValueError(msg)) && msg@ == no_field_msg(o)) && vs2 == rest,
    }
}

/// The message of a field read on a value that has no fields.
pub open spec fn no_field_msg(v: Value) -> Seq<char> {
    "impossible d'accéder à un champs sur une valeur de type '"@ + type_str(crate::obj::value_type(v)) + "'"@
}

/// The name and value pairs a structure construction of `nb` fields takes
/// off the stack `vs`, the topmost first: a name above its value.
pub open spec fn struct_pairs(vs: Seq<Value>, nb: int) -> Seq<(String, Value)> {
    Seq::new(nb as nat, |k: int| (vs[vs.len() - 1 - 2 * k]->Texte_0, vs[vs.len() - 2 - 2 * k]))
}

/// The fields of the structure `fields` (from the first `n`) that receive
/// no value in `pairs` and have no default: their names.
pub open spec fn missing_names(fields: Seq<ASFieldInfo>, pairs: Seq<(String, Value)>, n: int) -> Seq<Seq<char>>
    decreases n,
{
    if n <= 0 {
        Seq::empty()
    } else {
        let rest = missing_names(fields, pairs, n - 1);
        let fi = fields[n - 1];
        if last_named(pairs, fi.name@) < 0 && fi.value is None {
            rest.push(fi.name@)
        } else {
            rest
        }
    }
}

/// Some field of `fields` receives no value in `pairs` but has a default,
/// which a call would compute.
pub open spec fn needs_default(fields: Seq<ASFieldInfo>, pairs: Seq<(String, Value)>) -> bool {
    exists|i: int| 0 <= i < fields.len() && last_named(pairs, (#[trigger] fields[i]).name@) < 0 && fields[i].value is Some
}

/// `o` is the object of structure `st` whose fields take, in the order of
/// the structure, the values `pairs` give them (the deepest pair for a name
/// given twice), with the structure's constness and plain types.
pub open spec fn built_object(o: ASObjet, st: ArcStructure, pairs: Seq<(String, Value)>) -> bool {
    &&& o.structure == st
    &&& o.fields@.len() == st.fields@.len()
    &&& forall|i: int| 0 <= i < st.fields@.len() ==> {
        let fi = #[trigger] st.fields@[i];
        let f = o.fields@[i];
        &&& f.0@ == fi.name@
        &&& f.1.value == pairs[last_named(pairs, fi.name@)].1
        &&& f.1.is_const == fi.is_const
        &&& fi.field_type.value matches TypeSpecValue::BaseType(t) && f.1.field_type@ == t@
    }
}

/// Whether a structure construction of `nb` fields may go ahead on `vs`:
/// names above values and a value to build from are on the stack, and every
/// field that receives a value has a plain type.
pub open spec fn new_struct_ok(vs: Seq<Value>, nb: int) -> bool {
    &&& vs.len() >= 2 * nb + 1
    &&& forall|k: int| 0 <= k < nb ==> #[trigger] vs[vs.len() - 1 - 2 * k] is Texte
    &&& vs[vs.len() - 1 - 2 * nb] matches Value::Structure(st) ==> forall|i: int|
        0 <= i < st.fields@.len() && last_named(struct_pairs(vs, nb), (#[trigger] st.fields@[i]).name@) >= 0
            ==> st.fields@[i].field_type.value is BaseType
}

/// What a structure construction of `nb` fields does to `vs`, giving `vs2`
/// and the outcome `r`.
pub open spec fn new_struct_step(vs: Seq<Value>, nb: int, vs2: Seq<Value>, r: Result<Option<Action>, RuntimeError>, arg: u16) -> bool {
    let pairs = struct_pairs(vs, nb);
    let target = vs[vs.len() - 1 - 2 * nb];
    let rest = vs.take(vs.len() - 1 - 2 * nb);
    match target {
        Value::Structure(st) => if needs_default(st.fields@, pairs) {
            operate_handoff(r, Opcode::NewStruct, arg, Seq::empty()) && vs2 == vs
        } else if missing_names(st.fields@, pairs, st.fields@.len() as int).len() > 0 {
            (r matches Err(RuntimeError::ValueError(m)) && m@ == crate::err::missing_fields_msg(
                st.name@,
                crate::err::debug_strings(missing_names(st.fields@, pairs, st.fields@.len() as int)),
            )) && vs2 == rest
        } else {
            r matches Ok(None) && vs2.len() == rest.len() + 1 && vs2.drop_last() == rest && (vs2.last() matches Value::Objet(o)
                && built_object(*o, st, pairs))
        },
        _ => (r matches Err(RuntimeError::ValueError(m)) && m@ == crate::err::invalid_struct_msg(
            type_str(crate::obj::value_type(target)),
        )) && vs2 == rest,
    }
}

/// `s` cut to its first `n` items when it is longer.
pub open spec fn truncated<T>(s: Seq<T>, n: int) -> Seq<T> {
    if s.len() > n {
        s.take(n)
    } else {
        s
    }
}

/// What a captured variable holds: the stack slot it is still open on, or
/// the value it was closed over.
pub open spec fn upvalue_value(u: Upvalue, vs: Seq<Value>) -> Value {
    match u.location {
        UpvalueLocation::Open(i) => vs[i as int],
        UpvalueLocation::Closed(v) => v,
    }
}

/// The message of a read of an unknown global.
pub open spec fn unknown_global_msg(name: Seq<char>) -> Seq<char> {
    "Variable inconnue "@ + debug_text(name)
}

/// The message of a read of a local slot that holds no value yet.
pub open spec fn unset_local_msg(idx: nat) -> Seq<char> {
    "Variable sans valeur (slot="@ + nat_to_dec(idx) + ")\n"@
}

/// Where a jump stored at slot `at` with stored distance `arg` leads.
pub open spec fn jump_target(at: usize, arg: u16) -> usize {
    ((((at as i16) + ((arg as i16) - JUMP_OFFSET)) + 1) as i16) as usize
}

/// The values `vs` once slot `idx` holds `v`, the stack first grown with
/// `nul` to reach it.
pub open spec fn stack_with_slot(vs: Seq<Value>, idx: int, v: Value) -> Seq<Value> {
    if idx < vs.len() {
        vs.update(idx, v)
    } else {
        (vs + Seq::new((idx + 1 - vs.len()) as nat, |_i: int| Value::Nul)).update(idx, v)
    }
}

/// The index `i` counted from the end when negative, for a sequence of
/// length `len`.
fn index_from_end(i: i64, len: usize) -> (r: i128)
    ensures
        r == from_end(i as int, len as int),
{
    if i < 0 {
        (len as i128) + (i as i128)
    } else {
        i as i128
    }
}

/// The item that indexing `obj` with `slice` gives.
fn get_item(obj: &Value, slice: &Value) -> (r: Value)
    requires
        item_access_ok(*obj, *slice),
    ensures
        item_of(*obj, *slice, r),
{
    match (obj, slice) {
        (Value::Liste(l), Value::Entier(i)) => {
            let k = index_from_end(*i, l.len());
            l[k as usize].copy()
        },
        (Value::Texte(t), Value::Entier(i)) => {
            let s: &str = t.as_str();
            let len = s.as_bytes().len();
            let k = index_from_end(*i, len) as usize;
            proof {
                let bs = encode_utf8(t@);
                encode_utf8_valid_utf8(t@);
                valid_utf8_split(bs, k + 1);
                is_char_boundary_iff_not_is_continuation_byte(bs, k as int);
                is_char_boundary_iff_not_is_continuation_byte(bs.subrange(0, k + 1), k as int);
            }
            let (head, _) = s.split_at(k + 1);
            let (_, one) = head.split_at(k);
            proof {
                assert(one.spec_bytes() =~= encode_utf8(t@).subrange(k as int, k + 1));
            }
            Value::Texte(one.to_owned())
        },
        (Value::Liste(l), Value::Liste(r)) => {
            let mut out: Vec<Value> = Vec::new();
            let mut j: usize = 0;
            while j < r.len()
                invariant
                    j <= r@.len(),
                    indices_in_range(r@, l@.len() as int),
                    out@ == picked(l@, r@.take(j as int)),
                decreases r@.len() - j,
            {
                proof {
                    assert(r@.take(j + 1).drop_last() =~= r@.take(j as int));
                    assert(r@.take(j + 1).last() == r@[j as int]);
                }
                match &r[j] {
                    Value::Entier(i) => {
                        let k = index_from_end(*i, l.len());
                        out.push(l[k as usize].copy());
                    },
                    _ => {},
                }
                j = j + 1;
            }
            assert(r@.take(r@.len() as int) =~= r@);
            Value::Liste(Arc::new(out))
        },
        (Value::Texte(t), Value::Liste(r)) => {
            let s: &str = t.as_str();
            let blen = s.as_bytes().len();
            let clen = s.unicode_len();
            let mut out = String::new();
            let mut j: usize = 0;
            while j < r.len()
                invariant
                    j <= r@.len(),
                    s@ == t@,
                    clen == t@.len(),
                    blen == encode_utf8(t@).len(),
                    forall|k: int|
                        0 <= k < r@.len() ==> (#[trigger] r@[k] matches Value::Entier(i) ==> 0 <= from_end(
                            i as int,
                            blen as int,
                        ) < t@.len()),
                    out@ == picked_chars(t@, r@.take(j as int), blen as int),
                decreases r@.len() - j,
            {
                proof {
                    assert(r@.take(j + 1).drop_last() =~= r@.take(j as int));
                    assert(r@.take(j + 1).last() == r@[j as int]);
                }
                match &r[j] {
                    Value::Entier(i) => {
                        let k0 = index_from_end(*i, blen);
                        assert(0 <= k0 < clen);
                        let k = k0 as usize;
                        let one = crate::script::substring_chars(s, k, k + 1);
                        out.append(one);
                        proof {
                            assert(one@ =~= seq![t@[k as int]]);
                        }
                    },
                    _ => {},
                }
                j = j + 1;
            }
            assert(r@.take(r@.len() as int) =~= r@);
            Value::Texte(out)
        },
        _ => {
            assert(false);
            Value::Nul
        },
    }
}

impl VM {
    /// Carries out the instruction at the current position of the innermost
    /// call. Every instruction has its effect stated. What the library cannot
    /// do itself is handed back as an [`Action`]: reading a line, running a
    /// builtin, running a function whose failure is caught, loading a module
    /// not loaded yet, an operation on decimals or on the methods of the
    /// standard modules, and the instructions that change a list, an object
    /// or a structure in place (`SET_ITEM`, `SET_ATTR`, `SET_METHOD`,
    /// `SET_DEFAULT_FIELD`), which are handed back with the stack untouched.
    pub fn execute_instruction(&mut self) -> (r: Result<Option<Action>, RuntimeError>)
        requires
            old(self).frames().len() > 0,
            ({
                let f = old(self).frames().last();
                let code = f.closure.function.code@;
                let consts = f.closure.function.constants@;
                let ip = f.ip as int;
                ip < code.len() ==> {
                    &&& code[ip] < crate::bytecode::NB_OPCODES
                    &&& ip + 1 + opcode_of(code[ip]).spec_nargs() <= code.len()
                    &&& ip + 1 + opcode_of(code[ip]).spec_nargs() < usize::MAX
                    &&& match opcode_of(code[ip]) {
                        Opcode::Dup => old(self).values().len() > 0,
                        Opcode::Constant => code[ip + 1] < consts.len(),
                        Opcode::Closure => code[ip + 1] < consts.len() && (consts[code[ip + 1] as int] matches Value::Function(
                            Function::ClosureProto(c),
                        ) ==> slots_fit(f, c.function.upvalue_specs@)),
                        Opcode::GetLocal => f.base + code[ip + 1] <= usize::MAX,
                        Opcode::SetLocal => f.base + code[ip + 1] < usize::MAX,
                        Opcode::GetGlobal | Opcode::SetGlobal => code[ip + 1] < consts.len() && consts[code[ip + 1] as int] is Texte,
                        Opcode::Jump => {
                            &&& i16::MIN <= ((ip + 1) as usize as i16) + ((code[ip + 1] as i16) - JUMP_OFFSET) + 1 <= i16::MAX
                            &&& i16::MIN <= (code[ip + 1] as i16) - JUMP_OFFSET
                            &&& i16::MIN <= ((ip + 1) as usize as i16) + ((code[ip + 1] as i16) - JUMP_OFFSET)
                        },
                        Opcode::NewList => code[ip + 1] <= old(self).values().len(),
                        Opcode::ReadWithMsg | Opcode::Not => old(self).values().len() > 0,
                        Opcode::ReadCallWithMsg => old(self).values().len() > 0 && i16::MIN <= (code[ip + 1] as i16) - JUMP_OFFSET,
                        Opcode::TryCall => {
                            let vs = old(self).values();
                            &&& code[ip + 2] < vs.len()
                            &&& vs[vs.len() - 1 - code[ip + 2]] is Function
                            &&& i16::MIN <= (code[ip + 1] as i16) - JUMP_OFFSET
                        },
                        Opcode::ReadCall => i16::MIN <= (code[ip + 1] as i16) - JUMP_OFFSET,
                        Opcode::LoadModule => code[ip + 1] < consts.len(),
                        Opcode::NewStruct => new_struct_ok(old(self).values(), code[ip + 1] as int),
                        Opcode::GetField => code[ip + 1] < consts.len() && consts[code[ip + 1] as int] is Texte
                            && old(self).values().len() > 0,
                        Opcode::Return => return_ok(old(self).frames(), old(self).values(), old(self).cells(), old(self).open_upvalues()),
                        Opcode::SetUpvalue => set_upvalue_ok(f, code[ip + 1], old(self).values(), old(self).cells()),
                        Opcode::Neg => old(self).values().len() > 0 && (old(self).values().last() matches Value::Entier(i)
                            ==> i != i64::MIN),
                        Opcode::BinOp => binary_ok(true, old(self).values(), code[ip + 1]),
                        Opcode::BinComp => binary_ok(false, old(self).values(), code[ip + 1]),
                        Opcode::JumpIfFalse => {
                            &&& old(self).values().len() > 0
                            &&& i16::MIN <= (code[ip + 1] as i16) - JUMP_OFFSET
                            &&& i16::MIN <= ((ip + 2) as usize as i16) + ((code[ip + 1] as i16) - JUMP_OFFSET) <= i16::MAX
                        },
                        Opcode::JumpTest => {
                            &&& old(self).values().len() > 0
                            &&& i16::MIN <= (code[ip + 1] as i16) - JUMP_OFFSET
                            &&& i16::MIN <= ((ip + 3) as usize as i16) + ((code[ip + 1] as i16) - JUMP_OFFSET) <= i16::MAX
                        },
                        Opcode::GetItem => {
                            let vs = old(self).values();
                            vs.len() >= 2 && (item_computed(vs[vs.len() - 2], vs.last()) ==> item_access_ok(
                                vs[vs.len() - 2],
                                vs.last(),
                            ))
                        },
                        Opcode::ForNext => {
                            let vs = old(self).values();
                            let slot = f.base + code[ip + 1];
                            &&& slot + 1 < vs.len()
                            &&& ip + 4 <= usize::MAX
                            &&& !(vs[slot] is Function) && !(vs[slot] is Objet)
                            &&& vs[slot + 1] matches Value::Entier(st) ==> st < i64::MAX
                            &&& vs[slot + 1] matches Value::Entier(st) ==> (vs[slot] matches Value::Texte(t) ==> (
                            (st as usize) < encode_utf8(t@).len() ==> is_char_boundary(encode_utf8(t@), (st as usize) as int)
                                && is_char_boundary(encode_utf8(t@), (st as usize) + 1)))
                        },
                        Opcode::GetUpvalue => captured(f, code[ip + 1], old(self).cells()) matches Some(u) ==> (
                        u.location matches UpvalueLocation::Open(i) ==> i < old(self).values().len()),
                        Opcode::Call => {
                            let vs = old(self).values();
                            &&& code[ip + 1] < vs.len()
                            &&& vs[vs.len() - 1 - code[ip + 1]] matches Value::Function(Function::ClosureProto(c)) ==> slots_fit(
                                f,
                                c.function.upvalue_specs@,
                            )
                        },
                        _ => true,
                    }
                }
            }),
        ensures
            ({
                let f = old(self).frames().last();
                let code = f.closure.function.code@;
                let consts = f.closure.function.constants@;
                let ip = f.ip as int;
                let vs = old(self).values();
                if ip >= code.len() {
                    &&& r matches Err(RuntimeError::RuntimeError(m)) && m@ == "IP out of range"@
                    &&& *final(self) == *old(self)
                } else {
                    let op = opcode_of(code[ip]);
                    let next = (ip + 1 + op.spec_nargs()) as usize;
                    let arg = code[ip + 1];
                    &&& final(self).globals() == if op is SetGlobal && r is Ok {
                        crate::vm::globals_after_insert(old(self).globals(), (consts[arg as int]->Texte_0, vs.last()))
                    } else {
                        old(self).globals()
                    }
                    &&& match op {
                        Opcode::Pop => r matches Ok(None) && final(self).values() == (if vs.len() > 0 { vs.drop_last() } else { vs })
                            && final(self).frames() == frames_at(old(self).frames(), next),
                        Opcode::Dup => r matches Ok(None) && final(self).values() == vs.push(vs.last())
                            && final(self).frames() == frames_at(old(self).frames(), next),
                        Opcode::Constant => r matches Ok(None) && final(self).values() == vs.push(consts[arg as int])
                            && final(self).frames() == frames_at(old(self).frames(), next),
                        Opcode::Closure => match consts[arg as int] {
                            Value::Function(Function::ClosureProto(c)) => if source_out_of_range(f, c.function.upvalue_specs@) {
                                r is Err && final(self).values() == vs
                            } else {
                                &&& r matches Ok(None)
                                &&& final(self).values().len() == vs.len() + 1
                                &&& final(self).values().drop_last() == vs
                                &&& final(self).values().last() matches Value::Function(Function::ClosureInst(ci))
                                    && ci.function == c.function && wires(f, c.function.upvalue_specs@, ci.upvalues@, final(self).cells())
                                &&& final(self).frames() == frames_at(old(self).frames(), next)
                            },
                            _ => (r matches Err(RuntimeError::RuntimeError(m)) && m@
                                == "CLOSURE constant must be a Function wrapped as Closure"@) && final(self).values() == vs,
                        },
                        Opcode::GetLocal => if f.base + arg < vs.len() {
                            r matches Ok(None) && final(self).values() == vs.push(vs[f.base + arg])
                                && final(self).frames() == frames_at(old(self).frames(), next)
                        } else {
                            (r matches Err(RuntimeError::RuntimeError(m)) && m@ == unset_local_msg((f.base + arg) as nat))
                                && final(self).values() == vs
                        },
                        Opcode::SetLocal => if vs.len() == 0 {
                            (r matches Err(RuntimeError::RuntimeError(m)) && m@ == "Missing value in SET_LOCAL"@)
                                && final(self).values() == vs
                        } else {
                            r matches Ok(None) && final(self).values() == stack_with_slot(vs.drop_last(), f.base + arg, vs.last())
                                && final(self).frames() == frames_at(old(self).frames(), next)
                        },
                        Opcode::GetGlobal => {
                            let name = consts[arg as int]->Texte_0@;
                            let g = last_named(old(self).globals(), name);
                            if g >= 0 {
                                r matches Ok(None) && final(self).values() == vs.push(old(self).globals()[g].1)
                                    && final(self).frames() == frames_at(old(self).frames(), next)
                            } else {
                                (r matches Err(RuntimeError::RuntimeError(m)) && m@ == unknown_global_msg(name))
                                    && final(self).values() == vs
                            }
                        },
                        Opcode::SetGlobal => if vs.len() == 0 {
                            (r matches Err(RuntimeError::RuntimeError(m)) && m@ == "Missing value in SET_LOCAL"@)
                                && final(self).values() == vs
                        } else {
                            r matches Ok(None) && final(self).values() == vs.drop_last()
                                && final(self).frames() == frames_at(old(self).frames(), next)
                        },
                        Opcode::Jump => r matches Ok(None) && final(self).values() == vs
                            && final(self).frames() == frames_at(old(self).frames(), jump_target((ip + 1) as usize, arg)),
                        Opcode::NewList => {
                            let n = arg as int;
                            &&& r matches Ok(None)
                            &&& final(self).values().len() == vs.len() - n + 1
                            &&& final(self).values().drop_last() == vs.take(vs.len() - n)
                            &&& final(self).values().last() matches Value::Liste(l) && l@ == vs.skip(vs.len() - n)
                            &&& final(self).frames() == frames_at(old(self).frames(), next)
                        },
                        Opcode::ForNext => {
                            let slot = f.base + arg;
                            let it = vs[slot];
                            let st = vs[slot + 1];
                            if !(it is Texte || it is Liste) {
                                (r matches Err(RuntimeError::RuntimeError(m)) && m@ == not_iterable_msg(it))
                                    && final(self).values() == vs
                            } else if !(st is Entier) {
                                (r matches Err(RuntimeError::RuntimeError(m)) && m@ == loop_state_msg(st))
                                    && final(self).values() == vs
                            } else {
                                let k = st->Entier_0;
                                let stepped = vs.update(slot + 1, Value::Entier((k + 1) as i64));
                                &&& r matches Ok(None)
                                &&& (k as usize) >= loop_len(it) ==> final(self).values() == stepped
                                    && final(self).frames() == frames_at(old(self).frames(), next)
                                &&& (k as usize) < loop_len(it) ==> final(self).values().drop_last() == stepped
                                    && final(self).values().len() == stepped.len() + 1
                                    && loop_item(it, (k as usize) as int, final(self).values().last())
                                    && final(self).frames() == frames_at(old(self).frames(), (next + 2) as usize)
                            }
                        },
                        Opcode::Return => return_effect(
                            old(self).frames(),
                            vs,
                            old(self).cells(),
                            old(self).open_upvalues(),
                            final(self).frames(),
                            final(self).values(),
                            final(self).cells(),
                            final(self).open_upvalues(),
                            r,
                        ),
                        Opcode::SetUpvalue => set_upvalue_effect(f, arg, vs, old(self).cells(), final(self).values(), final(self).cells(), r)
                            && final(self).frames() == frames_at(old(self).frames(), next),
                        Opcode::LoadModule => final(self).frames() == frames_at(old(self).frames(), next) && match consts[arg as int] {
                            Value::Texte(t) => {
                                let key = module_key(t@);
                                let i = last_named(old(self).loaded(), key);
                                if i >= 0 {
                                    r matches Ok(None) && final(self).values() == vs.push(Value::Module(old(self).loaded()[i].1))
                                } else {
                                    (r matches Ok(Some(Action::LoadModule { name, standard })) && name@ == key && standard
                                        == string_views(old(self).standard_modules()).contains(key)) && final(self).values() == vs
                                }
                            },
                            _ => (r matches Err(RuntimeError::ValueError(m)) && m@ == "le nom d'un module doit être un texte"@)
                                && final(self).values() == vs,
                        },
                        Opcode::NewStruct => new_struct_step(vs, arg as int, final(self).values(), r, arg)
                            && final(self).frames() == frames_at(old(self).frames(), next),
                        Opcode::GetField => get_field_step(vs, consts[arg as int]->Texte_0@, final(self).values(), r, arg)
                            && final(self).frames() == frames_at(old(self).frames(), next),
                        Opcode::TryCall => {
                            let nargs = code[ip + 2] as int;
                            &&& r matches Ok(Some(Action::TryCall { function, args, stack_len, frames_len, catch_dist }))
                                && Value::Function(function) == vs[vs.len() - 1 - nargs] && args@ == vs.skip(vs.len() - nargs).reverse()
                                && stack_len == vs.len() - nargs - 1 && frames_len == old(self).frames().len()
                                && catch_dist == (arg as i16) - JUMP_OFFSET
                            &&& final(self).values() == vs.take(vs.len() - nargs)
                            &&& final(self).frames() == frames_at(old(self).frames(), next)
                        },
                        Opcode::ReadCall => (r matches Ok(Some(Action::ReadCall { prompt, dist })) && prompt matches Value::Texte(t)
                            && t@ == "> "@ && dist == (arg as i16) - JUMP_OFFSET) && final(self).values() == vs
                            && final(self).frames() == frames_at(old(self).frames(), next),
                        Opcode::ReadCallWithMsg => (r matches Ok(Some(Action::ReadCall { prompt, dist })) && prompt == vs.last()
                            && dist == (arg as i16) - JUMP_OFFSET) && final(self).values() == vs.drop_last()
                            && final(self).frames() == frames_at(old(self).frames(), next),
                        Opcode::Not => r matches Ok(None) && final(self).values() == vs.drop_last().push(
                            Value::Booleen(!truthy(vs.last())),
                        ) && final(self).frames() == frames_at(old(self).frames(), next),
                        Opcode::Neg => final(self).frames() == frames_at(old(self).frames(), next) && match vs.last() {
                            Value::Entier(i) => r matches Ok(None) && final(self).values() == vs.drop_last().push(
                                Value::Entier((0 - i) as i64),
                            ),
                            _ => operate_handoff(r, Opcode::Neg, 0, seq![vs.last()]) && final(self).values()
                                == vs.drop_last(),
                        },
                        Opcode::BinOp => binary_step(true, vs, arg, final(self).values(), r)
                            && final(self).frames() == frames_at(old(self).frames(), next),
                        Opcode::BinComp => binary_step(false, vs, arg, final(self).values(), r)
                            && final(self).frames() == frames_at(old(self).frames(), next),
                        Opcode::JumpIfFalse => r matches Ok(None) && final(self).values() == vs.drop_last()
                            && final(self).frames() == frames_at(
                            old(self).frames(),
                            if truthy(vs.last()) {
                                next
                            } else {
                                (((next as i16) + ((arg as i16) - JUMP_OFFSET)) as i16) as usize
                            },
                        ),
                        Opcode::JumpTest => {
                            let cond = code[ip + 2] == 1;
                            if truthy(vs.last()) == cond {
                                r matches Ok(None) && final(self).values() == vs && final(self).frames() == frames_at(
                                    old(self).frames(),
                                    (((next as i16) + ((arg as i16) - JUMP_OFFSET)) as i16) as usize,
                                )
                            } else {
                                r matches Ok(None) && final(self).values() == vs.drop_last() && final(self).frames()
                                    == frames_at(old(self).frames(), next)
                            }
                        },
                        Opcode::GetItem => final(self).frames() == frames_at(old(self).frames(), next) && if item_computed(
                            vs[vs.len() - 2],
                            vs.last(),
                        ) {
                            &&& r matches Ok(None)
                            &&& final(self).values().len() == vs.len() - 1
                            &&& final(self).values().drop_last() == vs.drop_last().drop_last()
                            &&& item_of(vs[vs.len() - 2], vs.last(), final(self).values().last())
                        } else {
                            operate_handoff(r, Opcode::GetItem, 0, seq![vs[vs.len() - 2], vs.last()])
                                && final(self).values() == vs.drop_last().drop_last()
                        },
                        Opcode::Read => (r matches Ok(Some(Action::Read { prompt })) && prompt matches Value::Texte(t)
                            && t@ == "> "@) && final(self).values() == vs
                            && final(self).frames() == frames_at(old(self).frames(), next),
                        Opcode::ReadWithMsg => (r matches Ok(Some(Action::Read { prompt })) && prompt == vs.last())
                            && final(self).values() == vs.drop_last()
                            && final(self).frames() == frames_at(old(self).frames(), next),
                        Opcode::GetUpvalue => if let Some(u) = captured(f, arg, old(self).cells()) {
                            r matches Ok(None) && final(self).values() == vs.push(upvalue_value(u, vs))
                                && final(self).frames() == frames_at(old(self).frames(), next)
                        } else {
                            (r matches Err(RuntimeError::RuntimeError(m)) && m@ == "get upvalue out of range"@)
                                && final(self).values() == vs
                        },
                        Opcode::Call => call_effect(
                            frames_at(old(self).frames(), next),
                            vs,
                            arg as usize,
                            vs[vs.len() - 1 - arg],
                            final(self).frames(),
                            final(self).values(),
                            final(self).cells(),
                            r,
                        ),
                        _ => operate_handoff(r, op, if op.spec_nargs() > 0 { arg } else { 0 }, Seq::empty())
                            && final(self).values() == vs && final(self).frames() == frames_at(old(self).frames(), next),
                    }
                }
            }),
    {
        let n = self.frames.len();
        let ip = self.frames[n - 1].ip;
        let function = Arc::clone(&self.frames[n - 1].closure.function);
        let ghost f = old(self).frames().last();
        assert(function == f.closure.function);
        assert(ip == f.ip);
        if ip >= function.code.len() {
            return Err(RuntimeError::generic_err("IP out of range"));
        }
        let op = match Opcode::try_from_byte(function.code[ip]) {
            Ok(op) => op,
            Err(_) => {
                assert(false);
                Opcode::Pop
            },
        };
        proof { lemma_opcode_of_code(op); }
        assert(opcode_of(function.code@[ip as int]) == op);
        let next = ip + 1 + op.nargs() as usize;
        match op {
            Opcode::Pop => {
                self.set_ip(next);
                self.stack.pop();
                Ok(None)
            },
            Opcode::Dup => {
                self.set_ip(next);
                let v = self.stack[self.stack.len() - 1].copy();
                self.stack.push(v);
                Ok(None)
            },
            Opcode::Constant => {
                let idx = function.code[ip + 1] as usize;
                self.set_ip(next);
                let v = function.constants[idx].copy();
                self.stack.push(v);
                Ok(None)
            },
            Opcode::Closure => {
                let idx = function.code[ip + 1] as usize;
                self.set_ip(next);
                let proto = match &function.constants[idx] {
                    Value::Function(Function::ClosureProto(c)) => Arc::clone(c),
                    _ => {
                        return Err(RuntimeError::generic_err("CLOSURE constant must be a Function wrapped as Closure"));
                    },
                };
                let c = self.resolve_proto_closure_upvalues(proto)?;
                self.stack.push(Value::Function(Function::ClosureInst(c)));
                Ok(None)
            },
            Opcode::GetLocal => {
                let slot = function.code[ip + 1] as usize;
                let base = self.frames[n - 1].base;
                let idx = base + slot;
                self.set_ip(next);
                if idx >= self.stack.len() {
                    let mut m = String::from_str("Variable sans valeur (slot=");
                    let shown = u64_to_string(idx as u64);
                    m.append(shown.as_str());
                    m.append(")\n");
                    return Err(RuntimeError::generic_err(m.as_str()));
                }
                let v = self.stack[idx].copy();
                self.stack.push(v);
                Ok(None)
            },
            Opcode::SetLocal => {
                let slot = function.code[ip + 1] as usize;
                let base = self.frames[n - 1].base;
                self.set_ip(next);
                let idx = base + slot;
                let val = match self.stack.pop() {
                    Some(v) => v,
                    None => { return Err(RuntimeError::generic_err("Missing value in SET_LOCAL")); },
                };
                let ghost grown = self.stack@;
                let ghost s0 = *self;
                while self.stack.len() <= idx
                    invariant
                        grown.len() <= idx ==> self.stack@.len() <= idx + 1,
                        grown.len() > idx ==> self.stack@ == grown,
                        grown.len() <= self.stack@.len(),
                        self.stack@.take(grown.len() as int) == grown,
                        forall|i: int| grown.len() <= i < self.stack@.len() ==> self.stack@[i] == Value::Nul,
                        *self == (VM { stack: self.stack, ..s0 }),
                    decreases idx + 1 - self.stack@.len(),
                {
                    self.stack.push(Value::Nul);
                }
                self.stack.set(idx, val);
                Ok(None)
            },
            Opcode::GetGlobal | Opcode::SetGlobal => {
                let slot = function.code[ip + 1] as usize;
                let name = match &function.constants[slot] {
                    Value::Texte(t) => t.clone(),
                    _ => {
                        assert(false);
                        String::new()
                    },
                };
                self.set_ip(next);
                if let Opcode::GetGlobal = op {
                    match find_last_named(&self.global_table, name.as_str()) {
                        Some(g) => {
                            let v = self.global_table[g].1.copy();
                            self.stack.push(v);
                            Ok(None)
                        },
                        None => {
                            let shown = crate::bytecode::debug_str(name.as_str());
                            let mut m = String::from_str("Variable inconnue ");
                            m.append(shown.as_str());
                            Err(RuntimeError::generic_err(m.as_str()))
                        },
                    }
                } else {
                    let val = match self.stack.pop() {
                        Some(v) => v,
                        None => { return Err(RuntimeError::generic_err("Missing value in SET_LOCAL")); },
                    };
                    self.insert_global((name, val));
                    Ok(None)
                }
            },
            Opcode::Call => {
                let nbargs = function.code[ip + 1] as usize;
                self.set_ip(next);
                let len = self.stack.len();
                let func = self.stack[len - 1 - nbargs].copy();
                self.call_fn(nbargs, func)
            },
            Opcode::Jump => {
                let at: i16 = (ip + 1) as i16;
                let dist: i16 = (function.code[ip + 1] as i16) - JUMP_OFFSET;
                let target: i16 = at + dist + 1;
                self.set_ip(target as usize);
                Ok(None)
            },
            Opcode::ForNext => {
                let base = self.frames[n - 1].base;
                let a = function.code[ip + 1] as usize;
                let len = self.stack.len();
                assert(base == f.base);
                assert(base + a + 1 < len);
                let slot = base + a;
                self.set_ip(next);
                let st: i64 = match &self.stack[slot] {
                    Value::Texte(_) | Value::Liste(_) => {
                        match &self.stack[slot + 1] {
                            Value::Entier(k) => *k,
                            other => {
                                let t = other.get_type();
                                let ts = t.to_string();
                                let mut m = String::from_str("il faut que l'état soit une entier, pas '");
                                m.append(ts.as_str());
                                m.append("'");
                                return Err(RuntimeError::generic_err(m.as_str()));
                            },
                        }
                    },
                    other => {
                        let t = other.get_type();
                        let ts = t.to_string();
                        let mut m = String::from_str("impossible d'itérer sur une valeur de type '");
                        m.append(ts.as_str());
                        m.append("'");
                        return Err(RuntimeError::generic_err(m.as_str()));
                    },
                };
                let it = self.stack[slot].copy();
                let ghost before = self.stack@;
                self.stack.set(slot + 1, Value::Entier(st + 1));
                let idx = st as usize;
                let item: Option<Value> = match &it {
                    Value::Texte(t) => {
                        let s: &str = t.as_str();
                        if idx >= s.as_bytes().len() {
                            None
                        } else {
                            proof {
                                let bs = encode_utf8(t@);
                                encode_utf8_valid_utf8(t@);
                                valid_utf8_split(bs, idx + 1);
                                is_char_boundary_iff_not_is_continuation_byte(bs, idx as int);
                                is_char_boundary_iff_not_is_continuation_byte(bs.subrange(0, idx + 1), idx as int);
                            }
                            let (head, _) = s.split_at(idx + 1);
                            let (_, one) = head.split_at(idx);
                            proof {
                                assert(one.spec_bytes() =~= encode_utf8(t@).subrange(idx as int, idx + 1));
                            }
                            Some(Value::Texte(one.to_owned()))
                        }
                    },
                    Value::Liste(l) => {
                        if idx >= l.len() {
                            None
                        } else {
                            Some(l[idx].copy())
                        }
                    },
                    _ => None,
                };
                match item {
                    Some(v) => {
                        self.stack.push(v);
                        self.set_ip(next + 2);
                    },
                    None => {},
                }
                Ok(None)
            },
            Opcode::NewStruct => {
                let nb = function.code[ip + 1];
                self.set_ip(next);
                self.exec_new_struct(nb, nb)
            },
            Opcode::GetField => {
                let idx = function.code[ip + 1] as usize;
                let arg = function.code[ip + 1];
                self.set_ip(next);
                let name = match &function.constants[idx] {
                    Value::Texte(t) => t.clone(),
                    _ => {
                        assert(false);
                        String::new()
                    },
                };
                self.exec_get_field(name.as_str(), arg)
            },
            Opcode::LoadModule => {
                let idx = function.code[ip + 1] as usize;
                self.set_ip(next);
                let name = match &function.constants[idx] {
                    Value::Texte(t) => t.clone(),
                    _ => {
                        return Err(RuntimeError::type_error("le nom d'un module doit être un texte"));
                    },
                };
                match self.lookup_module(name.as_str()) {
                    ModuleLookup::Loaded(m) => {
                        self.stack.push(Value::Module(m));
                        Ok(None)
                    },
                    ModuleLookup::Standard(k) => Ok(Some(Action::LoadModule { name: k, standard: true })),
                    ModuleLookup::File(k) => Ok(Some(Action::LoadModule { name: k, standard: false })),
                }
            },
            Opcode::TryCall => {
                let catch_dist: i16 = (function.code[ip + 1] as i16) - JUMP_OFFSET;
                let nargs = function.code[ip + 2] as usize;
                self.set_ip(next);
                let len = self.stack.len();
                let func = match &self.stack[len - 1 - nargs] {
                    Value::Function(f) => f.copy(),
                    _ => {
                        assert(false);
                        return Err(RuntimeError::generic_err(""));
                    },
                };
                let ghost vs = self.stack@;
                let mut args: Vec<Value> = Vec::new();
                let mut k: usize = 0;
                while k < nargs
                    invariant
                        k <= nargs,
                        nargs < vs.len(),
                        len == vs.len(),
                        self.stack@ == vs.take(len - k),
                        args@ == vs.skip(len - k).reverse(),
                        self.global_table == old(self).global_table,
                        self.frames@ == frames_at(old(self).frames(), next),
                    decreases nargs - k,
                {
                    let v = self.stack.pop().unwrap();
                    let ghost before = args@;
                    args.push(v);
                    proof {
                        assert(vs.skip(len - (k + 1)) =~= seq![vs[len - (k + 1)]] + vs.skip(len - k));
                        assert(args@ =~= vs.skip(len - (k + 1)).reverse());
                        assert(self.stack@ =~= vs.take(len - (k + 1)));
                    }
                    k = k + 1;
                }
                let stack_len = self.stack.len() - 1;
                let frames_len = self.frames.len();
                Ok(Some(Action::TryCall { function: func, args, stack_len, frames_len, catch_dist }))
            },
            Opcode::ReadCall => {
                let dist: i16 = (function.code[ip + 1] as i16) - JUMP_OFFSET;
                self.set_ip(next);
                Ok(Some(Action::ReadCall { prompt: Value::Texte(String::from_str("> ")), dist }))
            },
            Opcode::ReadCallWithMsg => {
                let dist: i16 = (function.code[ip + 1] as i16) - JUMP_OFFSET;
                self.set_ip(next);
                let prompt = self.stack.pop().unwrap();
                Ok(Some(Action::ReadCall { prompt, dist }))
            },
            Opcode::Return => self.exec_return(),
            Opcode::SetUpvalue => {
                let idx = function.code[ip + 1];
                self.set_ip(next);
                self.exec_set_upvalue(idx)
            },
            Opcode::Not => {
                self.set_ip(next);
                let v = self.stack.pop().unwrap();
                let t = to_bool(&v);
                self.stack.push(Value::Booleen(!t));
                Ok(None)
            },
            Opcode::Neg => {
                self.set_ip(next);
                let v = self.stack.pop().unwrap();
                match v {
                    Value::Entier(i) => {
                        self.stack.push(Value::Entier(0 - i));
                        Ok(None)
                    },
                    other => {
                        let mut operands: Vec<Value> = Vec::new();
                        operands.push(other);
                        assert(operands@ =~= seq![old(self).values().last()]);
                        Ok(Some(Action::Operate { op: Opcode::Neg, arg: 0, operands }))
                    },
                }
            },
            Opcode::BinOp | Opcode::BinComp => {
                let arg = function.code[ip + 1];
                self.set_ip(next);
                let arith = match op {
                    Opcode::BinOp => true,
                    _ => false,
                };
                self.exec_binary(arith, arg)
            },
            Opcode::JumpIfFalse => {
                let dist: i16 = (function.code[ip + 1] as i16) - JUMP_OFFSET;
                let after: i16 = next as i16;
                self.set_ip(next);
                let v = self.stack.pop().unwrap();
                if !to_bool(&v) {
                    let target: i16 = after + dist;
                    self.set_ip(target as usize);
                    assert(frames_at(frames_at(old(self).frames(), next), target as usize) =~= frames_at(
                        old(self).frames(),
                        target as usize,
                    ));
                }
                Ok(None)
            },
            Opcode::JumpTest => {
                let dist: i16 = (function.code[ip + 1] as i16) - JUMP_OFFSET;
                let cond = function.code[ip + 2] == 1;
                let after: i16 = next as i16;
                self.set_ip(next);
                let len = self.stack.len();
                let t = to_bool(&self.stack[len - 1]);
                if t == cond {
                    let target: i16 = after + dist;
                    self.set_ip(target as usize);
                    assert(frames_at(frames_at(old(self).frames(), next), target as usize) =~= frames_at(
                        old(self).frames(),
                        target as usize,
                    ));
                } else {
                    self.stack.pop();
                }
                Ok(None)
            },
            Opcode::GetItem => {
                self.set_ip(next);
                let slice = self.stack.pop().unwrap();
                let obj = self.stack.pop().unwrap();
                if item_computed_exec(&obj, &slice) {
                    let item = get_item(&obj, &slice);
                    self.stack.push(item);
                    Ok(None)
                } else {
                    let mut operands: Vec<Value> = Vec::new();
                    operands.push(obj);
                    operands.push(slice);
                    assert(operands@ =~= seq![old(self).values()[old(self).values().len() - 2], old(self).values().last()]);
                    Ok(Some(Action::Operate { op: Opcode::GetItem, arg: 0, operands }))
                }
            },
            Opcode::Read => {
                self.set_ip(next);
                Ok(Some(Action::Read { prompt: Value::Texte(String::from_str("> ")) }))
            },
            Opcode::ReadWithMsg => {
                self.set_ip(next);
                let prompt = match self.stack.pop() {
                    Some(v) => v,
                    None => {
                        assert(false);
                        Value::Nul
                    },
                };
                Ok(Some(Action::Read { prompt }))
            },
            Opcode::GetUpvalue => {
                let idx = function.code[ip + 1] as usize;
                let closure = Arc::clone(&self.frames[n - 1].closure);
                assert(closure == f.closure);
                self.set_ip(next);
                if idx >= closure.upvalues.len() || closure.upvalues[idx] >= self.upvalues.len() {
                    return Err(RuntimeError::generic_err("get upvalue out of range"));
                }
                let v = match &self.upvalues[closure.upvalues[idx]].location {
                    UpvalueLocation::Open(i) => self.stack[*i].copy(),
                    UpvalueLocation::Closed(v) => v.copy(),
                };
                self.stack.push(v);
                Ok(None)
            },
            Opcode::NewList => {
                let nb = function.code[ip + 1] as usize;
                self.set_ip(next);
                let len = self.stack.len();
                let items = self.stack.split_off(len - nb);
                self.stack.push(Value::Liste(Arc::new(items)));
                Ok(None)
            },
            _ => {
                let arg: u16 = if op.nargs() > 0 {
                    function.code[ip + 1]
                } else {
                    0
                };
                self.set_ip(next);
                let operands: Vec<Value> = Vec::new();
                assert(operands@ =~= Seq::<Value>::empty());
                Ok(Some(Action::Operate { op, arg, operands }))
            },
        }
    }

    /// Carries out a binary instruction (`BINOP` when `arith`, `BINCOMP`
    /// otherwise) with argument `arg`.
    fn exec_binary(&mut self, arith: bool, arg: u16) -> (r: Result<Option<Action>, RuntimeError>)
        requires
            binary_ok(arith, old(self).values(), arg),
        ensures
            binary_step(arith, old(self).values(), arg, final(self).values(), r),
            *final(self) == (VM { stack: final(self).stack, ..*old(self) }),
    {
        let ghost vs = self.stack@;
        let b = match self.stack.pop() {
            Some(v) => v,
            None => {
                let mut m = String::from_str("Missing rhs in ");
                let shown = u64_to_string(arg as u64);
                m.append(shown.as_str());
                return Err(RuntimeError::generic_err(m.as_str()));
            },
        };
        let a = match self.stack.pop() {
            Some(v) => v,
            None => {
                let mut m = String::from_str("Missing rhs in ");
                let shown = u64_to_string(arg as u64);
                m.append(shown.as_str());
                return Err(RuntimeError::generic_err(m.as_str()));
            },
        };
        assert(self.stack@ =~= vs.drop_last().drop_last());
        assert(a == vs[vs.len() - 2]);
        assert(b == vs.last());
        if arith {
            let op = match BinOpcode::try_from_byte(arg) {
                Some(op) => op,
                None => {
                    assert(false);
                    BinOpcode::Add
                },
            };
            proof {
                lemma_binop_of(op);
            }
            if crate::ops::binop_computed_exec(op, &a, &b) {
                let v = binop(op, &a, &b);
                self.stack.push(v);
                assert(self.stack@.drop_last() =~= vs.drop_last().drop_last());
                Ok(None)
            } else {
                let mut operands: Vec<Value> = Vec::new();
                operands.push(a);
                operands.push(b);
                assert(operands@ =~= seq![vs[vs.len() - 2], vs.last()]);
                Ok(Some(Action::Operate { op: Opcode::BinOp, arg, operands }))
            }
        } else {
            let op = match BinCompcode::try_from_byte(arg) {
                Some(op) => op,
                None => {
                    assert(false);
                    BinCompcode::Eq
                },
            };
            proof {
                lemma_bincomp_of(op);
            }
            if crate::ops::bincomp_computed_exec(op, &a, &b) {
                let t = bincomp(op, &a, &b);
                self.stack.push(Value::Booleen(t));
                assert(self.stack@ =~= vs.drop_last().drop_last().push(Value::Booleen(t)));
                Ok(None)
            } else {
                let mut operands: Vec<Value> = Vec::new();
                operands.push(a);
                operands.push(b);
                assert(operands@ =~= seq![vs[vs.len() - 2], vs.last()]);
                Ok(Some(Action::Operate { op: Opcode::BinComp, arg, operands }))
            }
        }
    }

    /// Closes the captured variables still open on a stack slot at or above
    /// `base`.
    fn close_upvalues(&mut self, base: usize)
        requires
            closable(old(self).cells(), old(self).open_upvalues(), base, old(self).values()),
        ensures
            (final(self).cells(), final(self).open_upvalues()) == close_from(
                old(self).cells(),
                old(self).open_upvalues(),
                base,
                old(self).values(),
            ),
            final(self).values() == old(self).values(),
            final(self).frames() == old(self).frames(),
            final(self).globals() == old(self).globals(),
    {
        let ghost cells0 = self.upvalues@;
        let ghost open0 = self.open_upvalues@;
        let ghost vs = self.stack@;
        let mut kept: Vec<UpvalueId> = Vec::new();
        let mut i: usize = 0;
        assert(open0.skip(0) =~= open0);
        assert(kept@ + close_from(cells0, open0, base, vs).1 =~= close_from(cells0, open0, base, vs).1);
        while i < self.open_upvalues.len()
            invariant
                self.open_upvalues@ == open0,
                self.stack@ == vs,
                i <= open0.len(),
                self.upvalues@.len() == cells0.len(),
                closable(self.upvalues@, open0.skip(i as int), base, vs),
                close_from(cells0, open0, base, vs) == ({
                    let rest = close_from(self.upvalues@, open0.skip(i as int), base, vs);
                    (rest.0, kept@ + rest.1)
                }),
                self.frames == old(self).frames,
                self.global_table == old(self).global_table,
            decreases open0.len() - i,
        {
            let id = self.open_upvalues[i];
            let ghost cells_i = self.upvalues@;
            let ghost rest_open = open0.skip(i as int);
            assert(rest_open[0] == id);
            assert(rest_open.drop_first() =~= open0.skip(i + 1));
            let close_at: Option<usize> = if id < self.upvalues.len() {
                match &self.upvalues[id].location {
                    UpvalueLocation::Open(idx) => if *idx >= base {
                        Some(*idx)
                    } else {
                        None
                    },
                    UpvalueLocation::Closed(_) => None,
                }
            } else {
                None
            };
            match close_at {
                Some(idx) => {
                    assert(closes(cells_i, rest_open[0], base));
                    let v = self.stack[idx].copy();
                    self.upvalues.set(id, Upvalue { location: UpvalueLocation::Closed(v) });
                    assert(self.upvalues@ =~= cells_i.update(id as int, Upvalue { location: UpvalueLocation::Closed(vs[idx as int]) }));
                    assert forall|k: int| 0 <= k < open0.skip(i + 1).len() && closes(self.upvalues@, #[trigger] open0.skip(i + 1)[k], base)
                        implies self.upvalues@[open0.skip(i + 1)[k] as int].location->Open_0 < vs.len() by {
                        assert(open0.skip(i + 1)[k] == rest_open[k + 1]);
                        assert(closes(cells_i, rest_open[k + 1], base));
                    }
                },
                None => {
                    let ghost kept0 = kept@;
                    kept.push(id);
                    assert(kept@ =~= kept0 + seq![id]);
                    assert forall|k: int| 0 <= k < open0.skip(i + 1).len() && closes(self.upvalues@, #[trigger] open0.skip(i + 1)[k], base)
                        implies self.upvalues@[open0.skip(i + 1)[k] as int].location->Open_0 < vs.len() by {
                        assert(open0.skip(i + 1)[k] == rest_open[k + 1]);
                    }
                    let ghost rest = close_from(cells_i, open0.skip(i + 1), base, vs);
                    assert(kept0 + (seq![id] + rest.1) =~= kept@ + rest.1);
                },
            }
            i = i + 1;
        }
        assert(open0.skip(i as int) =~= Seq::<UpvalueId>::empty());
        self.open_upvalues = kept;
    }

    /// Returns from the innermost call: closes the captured variables of its
    /// slots, and puts its result (the top of the stack, `nul` when it left
    /// none) where the function was, dropping its slots. When the outermost
    /// call returns, the run is over and the stack is left as it is.
    fn exec_return(&mut self) -> (r: Result<Option<Action>, RuntimeError>)
        requires
            return_ok(old(self).frames(), old(self).values(), old(self).cells(), old(self).open_upvalues()),
        ensures
            return_effect(
                old(self).frames(),
                old(self).values(),
                old(self).cells(),
                old(self).open_upvalues(),
                final(self).frames(),
                final(self).values(),
                final(self).cells(),
                final(self).open_upvalues(),
                r,
            ),
            final(self).globals() == old(self).globals(),
    {
        let ghost vs = self.stack@;
        let frame = self.frames.pop().unwrap();
        self.close_upvalues(frame.base);
        if self.frames.len() == 0 {
            return Ok(Some(Action::Finished));
        }
        let ret = if self.stack.len() > frame.base {
            self.stack.pop().unwrap()
        } else {
            Value::Nul
        };
        let ghost vs1 = self.stack@;
        self.stack.truncate(frame.base);
        proof {
            if vs1.len() <= frame.base {
                assert(self.stack@ =~= vs1);
            }
        }
        self.stack.set(frame.base - 1, ret);
        Ok(None)
    }

    /// Sets the captured variable at `idx` of the innermost call's closure to
    /// the value popped from the stack (`nul` when it is empty).
    fn exec_set_upvalue(&mut self, idx: u16) -> (r: Result<Option<Action>, RuntimeError>)
        requires
            old(self).frames().len() > 0,
            set_upvalue_ok(old(self).frames().last(), idx, old(self).values(), old(self).cells()),
        ensures
            set_upvalue_effect(
                old(self).frames().last(),
                idx,
                old(self).values(),
                old(self).cells(),
                final(self).values(),
                final(self).cells(),
                r,
            ),
            final(self).frames() == old(self).frames(),
            final(self).open_upvalues() == old(self).open_upvalues(),
            final(self).globals() == old(self).globals(),
    {
        let n = self.frames.len();
        let i = idx as usize;
        if i >= self.frames[n - 1].closure.upvalues.len() || self.frames[n - 1].closure.upvalues[i] >= self.upvalues.len() {
            return Err(RuntimeError::generic_err("set upvalue out of range"));
        }
        let id = self.frames[n - 1].closure.upvalues[i];
        let val = match self.stack.pop() {
            Some(v) => v,
            None => Value::Nul,
        };
        let slot: Option<usize> = match &self.upvalues[id].location {
            UpvalueLocation::Open(s) => Some(*s),
            UpvalueLocation::Closed(_) => None,
        };
        match slot {
            Some(s) => {
                self.stack.set(s, val);
            },
            None => {
                self.upvalues.set(id, Upvalue { location: UpvalueLocation::Closed(val) });
            },
        }
        Ok(None)
    }

    /// Takes the outcome of running the function of an [`Action::TryCall`]:
    /// on success the function left on the stack gives way to the value it
    /// gave; on failure the stack and the calls go back to what they were
    /// before the call, and the caller jumps `catch_dist`.
    pub fn finish_try_call(&mut self, outcome: Option<Value>, stack_len: usize, frames_len: usize, catch_dist: i16)
        requires
            outcome is None ==> ({
                let fs = truncated(old(self).frames(), frames_len as int);
                &&& fs.len() > 0
                &&& i16::MIN <= (fs.last().ip as i16) + catch_dist <= i16::MAX
            }),
        ensures
            final(self).globals() == old(self).globals(),
            final(self).cells() == old(self).cells(),
            match outcome {
                Some(v) => {
                    let vs = old(self).values();
                    final(self).values() == (if vs.len() > 0 { vs.drop_last() } else { vs }).push(v)
                        && final(self).frames() == old(self).frames()
                },
                None => {
                    let fs = truncated(old(self).frames(), frames_len as int);
                    &&& final(self).values() == truncated(old(self).values(), stack_len as int)
                    &&& final(self).frames() == frames_at(fs, (((fs.last().ip as i16) + catch_dist) as i16) as usize)
                },
            },
    {
        match outcome {
            Some(v) => {
                self.stack.pop();
                self.stack.push(v);
            },
            None => {
                let ghost vs = self.stack@;
                let ghost fs0 = self.frames@;
                self.stack.truncate(stack_len);
                self.frames.truncate(frames_len);
                proof {
                    if vs.len() <= stack_len {
                        assert(self.stack@ =~= vs);
                    }
                    if fs0.len() <= frames_len {
                        assert(self.frames@ =~= fs0);
                    }
                }
                let n = self.frames.len();
                let ip = self.frames[n - 1].ip;
                let target: i16 = (ip as i16) + catch_dist;
                self.set_ip(target as usize);
            },
        }
    }

    /// Takes the line read for an [`Action::ReadCall`]: pushes it as a text
    /// without its last character and calls the function below it with it;
    /// if the call fails, the stack goes back to what it was and the caller
    /// jumps `dist`. A call of a builtin is handed back.
    pub fn finish_read_call(&mut self, line: String, dist: i16) -> (r: Option<Action>)
        requires
            old(self).values().len() > 0,
            old(self).values().len() + 1 < usize::MAX,
            old(self).frames().len() > 0,
            old(self).values().last() matches Value::Function(Function::ClosureProto(c)) ==> slots_fit(
                old(self).frames().last(),
                c.function.upvalue_specs@,
            ),
            i16::MIN <= (old(self).frames().last().ip as i16) + dist <= i16::MAX,
            i16::MIN <= dist,
        ensures
            final(self).globals() == old(self).globals(),
            exists|t: String, fs2: Seq<CallFrame>, vs2: Seq<Value>, cells2: Seq<Upvalue>, rc: Result<Option<Action>, RuntimeError>|
                {
                    &&& encode_utf8(t@) == encode_utf8(line@).take(last_char_start(encode_utf8(line@)))
                    &&& call_effect(
                        old(self).frames(),
                        old(self).values().push(Value::Texte(t)),
                        1,
                        old(self).values().last(),
                        fs2,
                        vs2,
                        cells2,
                        rc,
                    )
                    &&& final(self).cells() == cells2
                    &&& rc is Err ==> final(self).values() == old(self).values() && final(self).frames() == frames_at(
                        fs2,
                        (((fs2.last().ip as i16) + dist) as i16) as usize,
                    ) && r is None
                    &&& rc matches Ok(a) ==> final(self).values() == vs2 && final(self).frames() == fs2 && r == a
                },
    {
        let len = self.stack.len();
        let func = self.stack[len - 1].copy();
        let ghost vs0 = self.stack@;
        self.finish_read(line);
        let ghost vs1 = self.stack@;
        let ghost fs1 = self.frames@;
        let result = self.call_fn(1, func);
        let ghost fs2 = self.frames@;
        let ghost vs2 = self.stack@;
        let ghost cells2 = self.upvalues@;
        match result {
            Ok(a) => {
                assert(vs1.last() matches Value::Texte(t) && vs1 == vs0.push(Value::Texte(t)));
                a
            },
            Err(_) => {
                assert(fs2.len() > 0);
                self.stack.truncate(len);
                proof {
                    assert(vs1.last() matches Value::Texte(t) && vs1 == vs0.push(Value::Texte(t)));
                }
                let n = self.frames.len();
                let ip = self.frames[n - 1].ip;
                let target: i16 = (ip as i16) + dist;
                self.set_ip(target as usize);
                None
            },
        }
    }

    /// Builds an object from a structure and `nb` name and value pairs above
    /// it on the stack.
    fn exec_new_struct(&mut self, nb: u16, arg: u16) -> (r: Result<Option<Action>, RuntimeError>)
        requires
            new_struct_ok(old(self).values(), nb as int),
        ensures
            new_struct_step(old(self).values(), nb as int, final(self).values(), r, arg),
            *final(self) == (VM { stack: final(self).stack, ..*old(self) }),
    {
        let ghost vs = self.stack@;
        let len = self.stack.len();
        let n = nb as usize;
        let mut pairs: Vec<(String, Value)> = Vec::new();
        let mut k: usize = 0;
        while k < n
            invariant
                k <= n,
                n == nb,
                len == vs.len(),
                self.stack@ == vs,
                new_struct_ok(vs, nb as int),
                pairs@ == struct_pairs(vs, nb as int).take(k as int),
            decreases n - k,
        {
            assert(vs[vs.len() - 1 - 2 * k] is Texte);
            let name = match &self.stack[len - 1 - 2 * k] {
                Value::Texte(t) => t.clone(),
                _ => {
                    assert(false);
                    String::new()
                },
            };
            let value = self.stack[len - 2 - 2 * k].copy();
            pairs.push((name, value));
            assert(pairs@ =~= struct_pairs(vs, nb as int).take(k + 1));
            k = k + 1;
        }
        assert(pairs@ =~= struct_pairs(vs, nb as int));
        let keep = len - 1 - 2 * n;
        let st = match &self.stack[keep] {
            Value::Structure(st) => Arc::clone(st),
            other => {
                let t = other.get_type();
                self.stack.truncate(keep);
                assert(self.stack@ =~= vs.take(vs.len() - 1 - 2 * nb));
                return Err(RuntimeError::invalid_struct(t));
            },
        };
        assert(vs[vs.len() - 1 - 2 * nb] == Value::Structure(st));
        let nf = st.fields.len();
        let mut i: usize = 0;
        while i < nf
            invariant
                i <= nf,
                nf == st.fields@.len(),
                pairs@ == struct_pairs(vs, nb as int),
                vs[vs.len() - 1 - 2 * nb] == Value::Structure(st),
                *self == *old(self),
                self.stack@ == vs,
                forall|j: int| 0 <= j < i ==> !(last_named(pairs@, (#[trigger] st.fields@[j]).name@) < 0 && st.fields@[j].value is Some),
            decreases nf - i,
        {
            let given = find_last_named(&pairs, st.fields[i].name.as_str());
            if given.is_none() && st.fields[i].value.is_some() {
                assert(needs_default(st.fields@, pairs@)) by {
                    assert(last_named(pairs@, st.fields@[i as int].name@) < 0 && st.fields@[i as int].value is Some);
                }
                let operands: Vec<Value> = Vec::new();
                assert(operands@ =~= Seq::<Value>::empty());
                return Ok(Some(Action::Operate { op: Opcode::NewStruct, arg, operands }));
            }
            i = i + 1;
        }
        assert(!needs_default(st.fields@, pairs@));
        let mut missing: Vec<String> = Vec::new();
        let mut fields: Vec<(String, ASField)> = Vec::new();
        let mut i: usize = 0;
        while i < nf
            invariant
                i <= nf,
                nf == st.fields@.len(),
                pairs@ == struct_pairs(vs, nb as int),
                *self == *old(self),
                self.stack@ == vs,
                new_struct_ok(vs, nb as int),
                keep < vs.len(),
                keep == vs.len() - 1 - 2 * nb,
                vs[keep as int] == Value::Structure(st),
                !needs_default(st.fields@, pairs@),
                string_views(missing@) == missing_names(st.fields@, pairs@, i as int),
                missing@.len() == 0 ==> fields@.len() == i,
                missing@.len() == 0 ==> forall|j: int| 0 <= j < i ==> {
                    let fi = #[trigger] st.fields@[j];
                    let f = fields@[j];
                    &&& f.0@ == fi.name@
                    &&& f.1.value == pairs@[last_named(pairs@, fi.name@)].1
                    &&& f.1.is_const == fi.is_const
                    &&& fi.field_type.value matches TypeSpecValue::BaseType(t) && f.1.field_type@ == t@
                },
            decreases nf - i,
        {
            let fi = &st.fields[i];
            let ghost before = missing@;
            match find_last_named(&pairs, fi.name.as_str()) {
                Some(g) => {
                    assert(st.fields@[i as int].field_type.value is BaseType);
                    if missing.len() == 0 {
                        let t = match &fi.field_type.value {
                            TypeSpecValue::BaseType(t) => t.copy(),
                            _ => {
                                assert(false);
                                Type::Nul
                            },
                        };
                        let v = pairs[g].1.copy();
                        fields.push((fi.name.clone(), ASField::new(fi.is_const, t, v)));
                    }
                    assert(string_views(missing@) =~= missing_names(st.fields@, pairs@, i + 1));
                },
                None => {
                    assert(!(last_named(pairs@, st.fields@[i as int].name@) < 0 && st.fields@[i as int].value is Some));
                    missing.push(fi.name.clone());
                    assert(string_views(missing@) =~= string_views(before).push(fi.name@));
                },
            }
            i = i + 1;
        }
        self.stack.truncate(keep);
        assert(self.stack@ =~= vs.take(vs.len() - 1 - 2 * nb));
        if missing.len() > 0 {
            return Err(RuntimeError::missing_struct_fields(st.name.as_str(), missing.as_slice()));
        }
        let ghost rest = self.stack@;
        let ghost st0 = st;
        let obj = ASObjet::new(st, fields);
        assert(built_object(obj, st0, pairs@));
        self.stack.push(Value::Objet(Arc::new(obj)));
        assert(self.stack@.drop_last() =~= rest);
        Ok(None)
    }

    /// Reads the field `name` of the value popped from the stack.
    fn exec_get_field(&mut self, name: &str, arg: u16) -> (r: Result<Option<Action>, RuntimeError>)
        requires
            old(self).values().len() > 0,
        ensures
            get_field_step(old(self).values(), name@, final(self).values(), r, arg),
            *final(self) == (VM { stack: final(self).stack, ..*old(self) }),
    {
        let ghost vs = self.stack@;
        let o = self.stack.pop().unwrap();
        match o {
            Value::Objet(ob) => {
                let res = ASObjet::get_field(&ob, name);
                match res {
                    Ok(v) => {
                        self.stack.push(v);
                        Ok(None)
                    },
                    Err(e) => Err(e),
                }
            },
            Value::Module(m) => {
                let res = m.get_member(name);
                match res {
                    Ok(v) => {
                        self.stack.push(v);
                        Ok(None)
                    },
                    Err(e) => Err(e),
                }
            },
            Value::Structure(st) => {
                match find_last_named(&st.methods, name) {
                    Some(i) => {
                        let c = Arc::clone(&st.methods[i].1);
                        self.stack.push(Value::Function(Function::ClosureInst(c)));
                        Ok(None)
                    },
                    None => {
                        let mut operands: Vec<Value> = Vec::new();
                        operands.push(Value::Structure(st));
                        assert(operands@ =~= seq![vs.last()]);
                        Ok(Some(Action::Operate { op: Opcode::GetField, arg, operands }))
                    },
                }
            },
            Value::Texte(_) | Value::Liste(_) => {
                let mut operands: Vec<Value> = Vec::new();
                operands.push(o);
                assert(operands@ =~= seq![vs.last()]);
                Ok(Some(Action::Operate { op: Opcode::GetField, arg, operands }))
            },
            other => {
                let t = other.get_type();
                let ts = t.to_string();
                let mut m = String::from_str("impossible d'accéder à un champs sur une valeur de type '");
                m.append(ts.as_str());
                m.append("'");
                Err(RuntimeError::type_error(m.as_str()))
            },
        }
    }

    /// Takes the line read for an [`Action::Read`]: pushes it as a text
    /// without its last character (the line end that reading keeps).
    pub fn finish_read(&mut self, line: String)
        ensures
            final(self).values().len() == old(self).values().len() + 1,
            final(self).values().drop_last() == old(self).values(),
            final(self).values().last() matches Value::Texte(t) && encode_utf8(t@) == encode_utf8(line@).take(
                last_char_start(encode_utf8(line@)),
            ),
            final(self).frames() == old(self).frames(),
            final(self).globals() == old(self).globals(),
            final(self).cells() == old(self).cells(),
    {
        let s: &str = line.as_str();
        let bytes: &[u8] = s.as_bytes();
        let ghost bs = encode_utf8(line@);
        proof {
            encode_utf8_valid_utf8(line@);
        }
        let mut mid: usize = bytes.len();
        proof {
            assert(bs.take(mid as int) =~= bs);
        }
        while mid > 0
            invariant_except_break
                last_char_start(bs) == last_char_start(bs.take(mid as int)),
            invariant
                bytes@ == bs,
                mid <= bs.len(),
            ensures
                mid == last_char_start(bs),
            decreases mid,
        {
            assert(bs.take(mid as int).drop_last() =~= bs.take(mid - 1));
            assert(bs.take(mid as int).last() == bs[mid - 1]);
            if !is_continuation_byte_exec(bytes[mid - 1]) {
                mid = mid - 1;
                break;
            }
            mid = mid - 1;
        }
        proof {
            encode_utf8_valid_utf8(line@);
            lemma_last_char_start(bs);
            if mid > 0 {
                is_char_boundary_iff_not_is_continuation_byte(bs, mid as int);
                lemma_last_char_start(bs);
            }
        }
        let (head, _) = s.split_at(mid);
        let t = head.to_owned();
        self.stack.push(Value::Texte(t));
    }

    /// Moves the innermost call to instruction `ip`.
    fn set_ip(&mut self, ip: usize)
        requires
            old(self).frames().len() > 0,
        ensures
            final(self).frames() == frames_at(old(self).frames(), ip),
            *final(self) == (VM { frames: final(self).frames, ..*old(self) }),
    {
        let mut f = self.frames.pop().unwrap();
        f.ip = ip;
        self.frames.push(f);
        assert(self.frames@ =~= frames_at(old(self).frames(), ip));
    }
}

} // verus!
