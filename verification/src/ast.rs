//! The syntax tree pieces of the tree-walking interpreter that carry no code:
//! operators, declarations and type annotations.
use vstd::prelude::*;

use crate::as_obj::ASClasseFieldVis;

verus! {

/// Who may read a field of a class, as written in the source.
#[derive(Debug, PartialEq, Eq, Structural, Clone, Copy)]
pub enum ClasseFieldVis {
    Publique,
    Privee,
}

impl ClasseFieldVis {
    /// The visibility the runtime gives the field.
    pub fn into_field_vis(self) -> (r: ASClasseFieldVis)
        ensures
            (self is Publique) == (r is Publique),
            (self is Privee) == (r is Privee),
    {
        match self {
            ClasseFieldVis::Privee => ASClasseFieldVis::Privee,
            ClasseFieldVis::Publique => ASClasseFieldVis::Publique,
        }
    }
}

/// A type annotation as written in the source.
#[derive(Debug)]
pub enum Type {
    Lit(String),
    Opt(Box<Type>),
    Array(Vec<Box<Type>>),
    BinOp { lhs: Box<Type>, op: TypeBinOpcode, rhs: Box<Type> },
}

/// An operator between two type annotations.
#[derive(Debug, PartialEq, Eq, Structural, Clone, Copy)]
pub enum TypeBinOpcode {
    Union,
    Intersection,
}

/// The left-hand side of a declaration: a variable or a list to unpack.
#[derive(Debug)]
pub enum DeclVar {
    Var { name: String, static_type: Option<Box<Type>>, is_const: bool },
    ListUnpack(Vec<DeclVar>),
}

/// A unary operator.
#[derive(Debug, PartialEq, Eq, Structural, Clone, Copy)]
pub enum UnaryOpcode {
    Pas,
    Negate,
}

/// An arithmetic or bitwise operator.
#[derive(Debug, PartialEq, Eq, Structural, Clone, Copy)]
pub enum BinOpcode {
    Mul,
    Div,
    DivInt,
    Add,
    Sub,
    Exp,
    Mod,
    BitwiseOr,
    BitwiseAnd,
    BitwiseXor,
}

/// A comparison operator.
#[derive(Debug, PartialEq, Eq, Structural, Clone, Copy)]
pub enum BinCompcode {
    Eq,
    NotEq,
    Lth,
    Gth,
    Geq,
    Leq,
    Dans,
    PasDans,
}

/// A logical operator.
#[derive(Debug, PartialEq, Eq, Structural, Clone, Copy)]
pub enum BinLogiccode {
    Et,
    Ou,
    NonNul,
}

} // verus!
