//! The built-in modules of the tree-walking interpreter, by name.
use vstd::prelude::*;

use crate::text::str_eq;

verus! {

/// A module that ships with the interpreter.
#[derive(Debug, PartialEq, Eq, Structural, Clone, Copy, Hash)]
pub enum ASModuleBuiltin {
    Builtin,
    Liste,
    Texte,
    Math,
    Temps,
    Voiture,
    Test,
}

/// The name under which a built-in module is imported.
pub open spec fn module_name(m: ASModuleBuiltin) -> Seq<char> {
    match m {
        ASModuleBuiltin::Builtin => "builtin"@,
        ASModuleBuiltin::Liste => "Liste"@,
        ASModuleBuiltin::Texte => "Texte"@,
        ASModuleBuiltin::Math => "Math"@,
        ASModuleBuiltin::Temps => "Temps"@,
        ASModuleBuiltin::Voiture => "Voiture"@,
        ASModuleBuiltin::Test => "Test"@,
    }
}

impl ASModuleBuiltin {
    /// The name under which the module is imported.
    pub fn name(&self) -> (r: String)
        ensures
            r@ == module_name(*self),
    {
        match self {
            ASModuleBuiltin::Builtin => String::from_str("builtin"),
            ASModuleBuiltin::Liste => String::from_str("Liste"),
            ASModuleBuiltin::Texte => String::from_str("Texte"),
            ASModuleBuiltin::Math => String::from_str("Math"),
            ASModuleBuiltin::Temps => String::from_str("Temps"),
            ASModuleBuiltin::Voiture => String::from_str("Voiture"),
            ASModuleBuiltin::Test => String::from_str("Test"),
        }
    }

    /// The built-in module of a name; `Err` holds a name that no built-in
    /// module has.
    pub fn try_from_name(mod_name: &str) -> (r: Result<ASModuleBuiltin, String>)
        ensures
            match r {
                Ok(m) => module_name(m) == mod_name@,
                Err(n) => n@ == mod_name@ && forall|m: ASModuleBuiltin| module_name(m) != mod_name@,
            },
    {
        if str_eq(mod_name, "builtin") {
            Ok(ASModuleBuiltin::Builtin)
        } else if str_eq(mod_name, "Math") {
            Ok(ASModuleBuiltin::Math)
        } else if str_eq(mod_name, "Liste") {
            Ok(ASModuleBuiltin::Liste)
        } else if str_eq(mod_name, "Texte") {
            Ok(ASModuleBuiltin::Texte)
        } else if str_eq(mod_name, "Temps") {
            Ok(ASModuleBuiltin::Temps)
        } else if str_eq(mod_name, "Voiture") {
            Ok(ASModuleBuiltin::Voiture)
        } else if str_eq(mod_name, "Test") {
            Ok(ASModuleBuiltin::Test)
        } else {
            Err(mod_name.to_string())
        }
    }
}

/// Names of distinct built-in modules differ.
pub proof fn lemma_module_names_distinct(a: ASModuleBuiltin, b: ASModuleBuiltin)
    ensures
        module_name(a) == module_name(b) ==> a == b,
{
    reveal_strlit("builtin");
    reveal_strlit("Liste");
    reveal_strlit("Texte");
    reveal_strlit("Math");
    reveal_strlit("Temps");
    reveal_strlit("Voiture");
    reveal_strlit("Test");
    if module_name(a) == module_name(b) && a != b {
        assert(module_name(a)[0] == module_name(b)[0]);
        assert(module_name(a)[2] == module_name(b)[2]);
    }
}

} // verus!
