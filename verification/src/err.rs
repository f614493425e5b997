//! Errors raised at run time, with the messages they show.
use vstd::prelude::*;

use crate::bytecode::{debug_str, debug_text};
use crate::text::string_views;
use crate::value::{type_str, Type};

verus! {

/// An error raised while running a program.
#[derive(Debug)]
pub enum RuntimeError {
    FieldError(String),
    ValueError(String),
    TypeError(String),
    CallError { func_name: String, msg: String },
    ModuleLoadError { module_name: String, message: String },
    AssignToConstVar { var_name: String },
    AssignToConstField { field_name: String },
    AssertionError(String),
    StackOverflow(String),
    PermissionError { permission_name: String, msg: String },
    RuntimeError(String),
}

/// The items shown by `{:?}`, each through [`debug_text`], separated by `", "`.
pub open spec fn debug_joined(items: Seq<Seq<char>>) -> Seq<char>
    decreases items.len(),
{
    if items.len() == 0 {
        Seq::empty()
    } else if items.len() == 1 {
        debug_text(items[0])
    } else {
        debug_joined(items.drop_last()) + ", "@ + debug_text(items.last())
    }
}

/// How a list of strings is shown by `{:?}`: each string as `{:?}` shows it,
/// separated by `", "`, in square brackets.
pub open spec fn debug_strings(items: Seq<Seq<char>>) -> Seq<char> {
    "["@ + debug_joined(items) + "]"@
}

/// `format!("{:?}", items)`, built item by item.
fn debug_list(items: &[String]) -> (r: String)
    ensures
        r@ == debug_strings(string_views(items@)),
{
    let ghost views = string_views(items@);
    let mut s = String::from_str("[");
    let mut i: usize = 0;
    while i < items.len()
        invariant
            i <= items@.len(),
            views == string_views(items@),
            s@ == "["@ + debug_joined(views.take(i as int)),
        decreases items@.len() - i,
    {
        if i > 0 {
            s.append(", ");
        }
        let shown = debug_str(items[i].as_str());
        s.append(shown.as_str());
        proof {
            assert(views.take(i + 1).drop_last() =~= views.take(i as int));
            assert(views.take(i + 1).last() == items@[i as int]@);
            if i == 0 {
                assert(views.take(0) =~= Seq::<Seq<char>>::empty());
                assert(debug_joined(views.take(1)) == debug_text(views.take(1)[0]));
            }
        }
        i = i + 1;
    }
    s.append("]");
    assert(views.take(items@.len() as int) =~= views);
    s
}

/// The message of an unknown field.
pub open spec fn invalid_field_msg(obj_str: Seq<char>, field_name: Seq<char>) -> Seq<char> {
    "le champs "@ + field_name + " n'existe pas dans l'objet "@ + obj_str
}

/// The message of a value that is not a structure being constructed.
pub open spec fn invalid_struct_msg(ty: Seq<char>) -> Seq<char> {
    "impossible de construire une valeur de type '"@ + ty
        + "'. Seule les structures peuvent être construite"@
}

/// The message of a construction that leaves fields without values.
pub open spec fn missing_fields_msg(struct_name: Seq<char>, missing: Seq<char>) -> Seq<char> {
    "lors de la construction de la structure '"@ + struct_name
        + "', certains champs n'ont pas reçu de valeurs: "@ + missing
        + ". Spécifiez une valeur dans la construction ou ajoutez une valeur par défaut à ces champs"@
}

/// The message of an operation applied to operands it does not support.
pub open spec fn invalid_op_msg(op: Seq<char>, lhs: Seq<char>, rhs: Seq<char>) -> Seq<char> {
    "opération '"@ + op + "' non supporté pour les opérandes: "@ + lhs + " et "@ + rhs
}

/// The message of an argument of the wrong type.
pub open spec fn invalid_arg_type_msg(
    func: Seq<char>,
    param_name: Seq<char>,
    param_type: Seq<char>,
    arg_type: Seq<char>,
) -> Seq<char> {
    "dans la fonction '"@ + func + "', le paramètre '"@ + param_name + "' est de type '"@
        + param_type + "', mais l'argument passé est de type '"@ + arg_type + "'"@
}

/// The text that an error shows.
pub open spec fn error_message(e: RuntimeError) -> Seq<char> {
    match e {
        RuntimeError::FieldError(m) => "Erreur de champs: "@ + m@,
        RuntimeError::ValueError(m) => "Erreur de valeur: "@ + m@,
        RuntimeError::TypeError(m) => "Erreur type: "@ + m@,
        RuntimeError::CallError { func_name, msg } => "Erreur lors de l'appel de la fonction '"@
            + func_name@ + "': "@ + msg@,
        RuntimeError::ModuleLoadError { module_name, message } => "Erreur lors du chargement du module "@
            + module_name@ + ": "@ + message@,
        RuntimeError::AssignToConstVar { var_name } => "Impossibe d'affecter la variable '"@
            + var_name@ + "' puisque c'est une constante."@,
        RuntimeError::AssignToConstField { field_name } => "Impossibe d'affecter le champs '"@
            + field_name@ + "' puisque c'est une constante."@,
        RuntimeError::AssertionError(m) => "Erreur d'affirmation: "@ + m@,
        RuntimeError::StackOverflow(m) => "Explosion de la pile d'appel: "@ + m@,
        RuntimeError::PermissionError { permission_name, msg } => "Erreur de permission ("@
            + permission_name@ + "): "@ + msg@,
        RuntimeError::RuntimeError(m) => "Erreur lors de l'exécution:\n"@ + m@,
    }
}

fn cat(a: &str, b: &str) -> (r: String)
    ensures
        r@ == a@ + b@,
{
    let mut s = String::from_str(a);
    s.append(b);
    s
}

fn cat3(a: &str, b: &str, c: &str) -> (r: String)
    ensures
        r@ == a@ + b@ + c@,
{
    let mut s = cat(a, b);
    s.append(c);
    s
}

impl RuntimeError {
    pub fn module_load_error(module_name: &str, msg: &str) -> (r: Self)
        ensures
            r matches RuntimeError::ModuleLoadError { module_name: n, message: m }
                && n@ == module_name@ && m@ == msg@,
    {
        RuntimeError::ModuleLoadError {
            module_name: String::from_str(module_name),
            message: String::from_str(msg),
        }
    }

    pub fn stackoverflow_error(msg: &str) -> (r: Self)
        ensures
            r matches RuntimeError::StackOverflow(m) && m@ == msg@,
    {
        RuntimeError::StackOverflow(String::from_str(msg))
    }

    pub fn value_error(msg: &str) -> (r: Self)
        ensures
            r matches RuntimeError::ValueError(m) && m@ == msg@,
    {
        RuntimeError::ValueError(String::from_str(msg))
    }

    pub fn call_error(func_name: &str, msg: &str) -> (r: Self)
        ensures
            r matches RuntimeError::CallError { func_name: f, msg: m } && f@ == func_name@ && m@ == msg@,
    {
        RuntimeError::CallError { func_name: String::from_str(func_name), msg: String::from_str(msg) }
    }

    pub fn assertion_error(msg: &str) -> (r: Self)
        ensures
            r matches RuntimeError::AssertionError(m) && m@ == msg@,
    {
        RuntimeError::AssertionError(String::from_str(msg))
    }

    /// A type error; it is raised as a value error.
    pub fn type_error(msg: &str) -> (r: Self)
        ensures
            r matches RuntimeError::ValueError(m) && m@ == msg@,
    {
        RuntimeError::ValueError(String::from_str(msg))
    }

    pub fn invalid_field(obj_str: &str, field_name: &str) -> (r: Self)
        ensures
            r matches RuntimeError::FieldError(m) && m@ == invalid_field_msg(obj_str@, field_name@),
    {
        let mut s = cat3("le champs ", field_name, " n'existe pas dans l'objet ");
        s.append(obj_str);
        RuntimeError::FieldError(s)
    }

    pub fn assign_to_const(var_name: &str) -> (r: Self)
        ensures
            r matches RuntimeError::AssignToConstVar { var_name: n } && n@ == var_name@,
    {
        RuntimeError::AssignToConstVar { var_name: String::from_str(var_name) }
    }

    pub fn assign_to_const_field(field_name: &str) -> (r: Self)
        ensures
            r matches RuntimeError::AssignToConstField { field_name: n } && n@ == field_name@,
    {
        RuntimeError::AssignToConstField { field_name: String::from_str(field_name) }
    }

    pub fn invalid_struct(ty: Type) -> (r: Self)
        ensures
            r matches RuntimeError::ValueError(m) && m@ == invalid_struct_msg(type_str(ty@)),
    {
        let t = ty.to_string();
        let s = cat3(
            "impossible de construire une valeur de type '",
            t.as_str(),
            "'. Seule les structures peuvent être construite",
        );
        RuntimeError::ValueError(s)
    }

    pub fn missing_struct_fields(struct_name: &str, missing_fields: &[String]) -> (r: Self)
        ensures
            r matches RuntimeError::ValueError(m) && m@ == missing_fields_msg(
                struct_name@,
                debug_strings(string_views(missing_fields@)),
            ),
    {
        let listed = debug_list(missing_fields);
        let mut s = cat3("lors de la construction de la structure '", struct_name, "', certains champs n'ont pas reçu de valeurs: ");
        s.append(listed.as_str());
        s.append(". Spécifiez une valeur dans la construction ou ajoutez une valeur par défaut à ces champs");
        RuntimeError::ValueError(s)
    }

    pub fn invalid_op(op: &str, lhs: Type, rhs: Type) -> (r: Self)
        ensures
            r matches RuntimeError::TypeError(m) && m@ == invalid_op_msg(op@, type_str(lhs@), type_str(rhs@)),
    {
        let l = lhs.to_string();
        let rs = rhs.to_string();
        let mut s = cat3("opération '", op, "' non supporté pour les opérandes: ");
        s.append(l.as_str());
        s.append(" et ");
        s.append(rs.as_str());
        RuntimeError::TypeError(s)
    }

    pub fn invalid_arg_type(func: &str, param_name: &str, param_type: Type, arg_type: Type) -> (r: Self)
        ensures
            r matches RuntimeError::TypeError(m) && m@ == invalid_arg_type_msg(
                func@,
                param_name@,
                type_str(param_type@),
                type_str(arg_type@),
            ),
    {
        let pt = param_type.to_string();
        let at = arg_type.to_string();
        let mut s = cat3("dans la fonction '", func, "', le paramètre '");
        s.append(param_name);
        s.append("' est de type '");
        s.append(pt.as_str());
        s.append("', mais l'argument passé est de type '");
        s.append(at.as_str());
        s.append("'");
        RuntimeError::TypeError(s)
    }

    pub fn permission_error(permission_name: &str, msg: &str) -> (r: Self)
        ensures
            r matches RuntimeError::PermissionError { permission_name: p, msg: m }
                && p@ == permission_name@ && m@ == msg@,
    {
        RuntimeError::PermissionError {
            permission_name: String::from_str(permission_name),
            msg: String::from_str(msg),
        }
    }

    pub fn generic_err(msg: &str) -> (r: Self)
        ensures
            r matches RuntimeError::RuntimeError(m) && m@ == msg@,
    {
        RuntimeError::RuntimeError(String::from_str(msg))
    }

    /// The text that this error shows.
    pub fn message(&self) -> (s: String)
        ensures
            s@ == error_message(*self),
    {
        match self {
            RuntimeError::FieldError(m) => cat("Erreur de champs: ", m.as_str()),
            RuntimeError::ValueError(m) => cat("Erreur de valeur: ", m.as_str()),
            RuntimeError::TypeError(m) => cat("Erreur type: ", m.as_str()),
            RuntimeError::CallError { func_name, msg } => {
                let mut s = cat3("Erreur lors de l'appel de la fonction '", func_name.as_str(), "': ");
                s.append(msg.as_str());
                s
            },
            RuntimeError::ModuleLoadError { module_name, message } => {
                let mut s = cat3("Erreur lors du chargement du module ", module_name.as_str(), ": ");
                s.append(message.as_str());
                s
            },
            RuntimeError::AssignToConstVar { var_name } => cat3(
                "Impossibe d'affecter la variable '",
                var_name.as_str(),
                "' puisque c'est une constante.",
            ),
            RuntimeError::AssignToConstField { field_name } => cat3(
                "Impossibe d'affecter le champs '",
                field_name.as_str(),
                "' puisque c'est une constante.",
            ),
            RuntimeError::AssertionError(m) => cat("Erreur d'affirmation: ", m.as_str()),
            RuntimeError::StackOverflow(m) => cat("Explosion de la pile d'appel: ", m.as_str()),
            RuntimeError::PermissionError { permission_name, msg } => {
                let mut s = cat3("Erreur de permission (", permission_name.as_str(), "): ");
                s.append(msg.as_str());
                s
            },
            RuntimeError::RuntimeError(m) => cat("Erreur lors de l'exécution:\n", m.as_str()),
        }
    }
}


/// An error found while compiling.
#[derive(Debug)]
pub enum CompilationErrorKind {
    GenericError(String),
    /// A method block names a structure declared in an enclosing function.
    InvalidImplBlock(String),
}

impl CompilationErrorKind {
    pub fn generic_error(msg: &str) -> (r: Self)
        ensures
            r matches CompilationErrorKind::GenericError(m) && m@ == msg@,
    {
        CompilationErrorKind::GenericError(String::from_str(msg))
    }

    pub fn invalid_impl_block(struct_name: &str) -> (r: Self)
        ensures
            r matches CompilationErrorKind::InvalidImplBlock(n) && n@ == struct_name@,
    {
        CompilationErrorKind::InvalidImplBlock(String::from_str(struct_name))
    }
}

} // verus!
