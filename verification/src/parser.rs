//! From the grammar rules of operator tokens to the operations they denote.
use vstd::prelude::*;

use crate::bytecode::{BinCompcode, BinLogiccode, BinOpcode, UnaryOpcode};

verus! {

/// The grammar rules that the expression parser meets as operators: a node of
/// the parse tree is handed over by the rule it was matched by.
#[derive(Debug, Clone, Copy, PartialEq, Eq, Structural)]
pub enum OperatorRule {
    Ternary,
    Or,
    And,
    Not,
    NonNull,
    In,
    NotIn,
    Eq,
    Neq,
    Gt,
    Lt,
    Gte,
    Lte,
    Xor,
    Pipe,
    Ampersant,
    Range,
    RangeEq,
    BitwiseLeft,
    BitwiseRight,
    Add,
    Sub,
    Mul,
    Div,
    DivInt,
    Modulo,
    Neg,
    Pos,
    Pow,
    AccessProp,
    TypeArgs,
}

/// The arithmetic or bitwise operation an operator rule denotes, if any.
pub open spec fn binop_of_rule(rule: OperatorRule) -> Option<BinOpcode> {
    match rule {
        OperatorRule::Add => Some(BinOpcode::Add),
        OperatorRule::Sub => Some(BinOpcode::Sub),
        OperatorRule::Mul => Some(BinOpcode::Mul),
        OperatorRule::Div => Some(BinOpcode::Div),
        OperatorRule::DivInt => Some(BinOpcode::DivInt),
        OperatorRule::Pow => Some(BinOpcode::Exp),
        OperatorRule::Pipe => Some(BinOpcode::BitwiseOr),
        OperatorRule::Ampersant => Some(BinOpcode::BitwiseAnd),
        OperatorRule::Modulo => Some(BinOpcode::Mod),
        _ => None,
    }
}

/// The comparison an operator rule denotes, if any.
pub open spec fn bincomp_of_rule(rule: OperatorRule) -> Option<BinCompcode> {
    match rule {
        OperatorRule::Eq => Some(BinCompcode::Eq),
        OperatorRule::Neq => Some(BinCompcode::NotEq),
        OperatorRule::Lt => Some(BinCompcode::Lth),
        OperatorRule::Gt => Some(BinCompcode::Gth),
        OperatorRule::Lte => Some(BinCompcode::Leq),
        OperatorRule::Gte => Some(BinCompcode::Geq),
        OperatorRule::In => Some(BinCompcode::Dans),
        OperatorRule::NotIn => Some(BinCompcode::PasDans),
        _ => None,
    }
}

/// The unary operation an operator rule denotes, if any.
pub open spec fn unary_of_rule(rule: OperatorRule) -> Option<UnaryOpcode> {
    match rule {
        OperatorRule::Neg => Some(UnaryOpcode::Negate),
        OperatorRule::Not => Some(UnaryOpcode::Pas),
        OperatorRule::Pos => Some(UnaryOpcode::Positive),
        _ => None,
    }
}

/// The logical operation an operator rule denotes, if any.
pub open spec fn logic_of_rule(rule: OperatorRule) -> Option<BinLogiccode> {
    match rule {
        OperatorRule::And => Some(BinLogiccode::Et),
        OperatorRule::Or => Some(BinLogiccode::Ou),
        OperatorRule::NonNull => Some(BinLogiccode::NonNul),
        _ => None,
    }
}

impl BinOpcode {
    /// The arithmetic or bitwise operation of an operator node; `Err(())` for
    /// any other rule.
    pub fn try_from(rule: &OperatorRule) -> (r: Result<BinOpcode, ()>)
        ensures
            r is Ok <==> binop_of_rule(*rule) is Some,
            r matches Ok(op) ==> binop_of_rule(*rule) == Some(op),
    {
        match rule {
            OperatorRule::Add => Ok(BinOpcode::Add),
            OperatorRule::Sub => Ok(BinOpcode::Sub),
            OperatorRule::Mul => Ok(BinOpcode::Mul),
            OperatorRule::Div => Ok(BinOpcode::Div),
            OperatorRule::DivInt => Ok(BinOpcode::DivInt),
            OperatorRule::Pow => Ok(BinOpcode::Exp),
            OperatorRule::Pipe => Ok(BinOpcode::BitwiseOr),
            OperatorRule::Ampersant => Ok(BinOpcode::BitwiseAnd),
            OperatorRule::Modulo => Ok(BinOpcode::Mod),
            _ => Err(()),
        }
    }
}

impl BinCompcode {
    /// The comparison of an operator node; `Err(())` for any other rule.
    pub fn try_from(rule: &OperatorRule) -> (r: Result<BinCompcode, ()>)
        ensures
            r is Ok <==> bincomp_of_rule(*rule) is Some,
            r matches Ok(op) ==> bincomp_of_rule(*rule) == Some(op),
    {
        match rule {
            OperatorRule::Eq => Ok(BinCompcode::Eq),
            OperatorRule::Neq => Ok(BinCompcode::NotEq),
            OperatorRule::Lt => Ok(BinCompcode::Lth),
            OperatorRule::Gt => Ok(BinCompcode::Gth),
            OperatorRule::Lte => Ok(BinCompcode::Leq),
            OperatorRule::Gte => Ok(BinCompcode::Geq),
            OperatorRule::In => Ok(BinCompcode::Dans),
            OperatorRule::NotIn => Ok(BinCompcode::PasDans),
            _ => Err(()),
        }
    }
}

impl UnaryOpcode {
    /// The unary operation of an operator node; `Err(())` for any other rule.
    pub fn try_from(rule: &OperatorRule) -> (r: Result<UnaryOpcode, ()>)
        ensures
            r is Ok <==> unary_of_rule(*rule) is Some,
            r matches Ok(op) ==> unary_of_rule(*rule) == Some(op),
    {
        match rule {
            OperatorRule::Neg => Ok(UnaryOpcode::Negate),
            OperatorRule::Not => Ok(UnaryOpcode::Pas),
            OperatorRule::Pos => Ok(UnaryOpcode::Positive),
            _ => Err(()),
        }
    }
}

impl BinLogiccode {
    /// The logical operation of an operator node; `Err(())` for any other rule.
    pub fn try_from(rule: &OperatorRule) -> (r: Result<BinLogiccode, ()>)
        ensures
            r is Ok <==> logic_of_rule(*rule) is Some,
            r matches Ok(op) ==> logic_of_rule(*rule) == Some(op),
    {
        match rule {
            OperatorRule::And => Ok(BinLogiccode::Et),
            OperatorRule::Or => Ok(BinLogiccode::Ou),
            OperatorRule::NonNull => Ok(BinLogiccode::NonNul),
            _ => Err(()),
        }
    }
}

/// An operator rule denotes at most one kind of operation: the parser never
/// has two readings of one operator node.
pub proof fn lemma_operator_kinds_disjoint(rule: OperatorRule)
    ensures
        binop_of_rule(rule) is Some ==> bincomp_of_rule(rule) is None && unary_of_rule(rule) is None
            && logic_of_rule(rule) is None,
        bincomp_of_rule(rule) is Some ==> unary_of_rule(rule) is None && logic_of_rule(rule) is None,
        unary_of_rule(rule) is Some ==> logic_of_rule(rule) is None,
{
}

/// Distinct arithmetic rules denote distinct operations.
pub proof fn lemma_binop_rule_injective(a: OperatorRule, b: OperatorRule)
    requires
        binop_of_rule(a) is Some,
        binop_of_rule(a) == binop_of_rule(b),
    ensures
        a == b,
{
}

} // verus!
