//! What the interpreter hands to the program that runs it.
use vstd::prelude::*;

verus! {

/// A message of the interpreter to its host.
#[derive(Debug)]
pub enum Data {
    Afficher(String),
    Erreur { texte: String, ligne: usize },
    Demander { prompt: Option<String> },
    NotifInfo { msg: String },
    NotifErr { msg: String },
}

impl Data {
    /// Whether the message reports an error.
    pub fn is_erreur(&self) -> (r: bool)
        ensures
            r == (self is Erreur),
    {
        matches!(self, Data::Erreur { .. })
    }
}

/// An answer of the host to the interpreter.
#[derive(Debug)]
pub enum Response {
    Text(String),
}

} // verus!
