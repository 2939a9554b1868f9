use vstd::prelude::*;

verus! {

/// The binary operators of the source language.  `Sub`, `Div` and `NotEqual`
/// are recognized by the parser but rejected by the typed IR build.
#[derive(Clone, Copy, Debug, PartialEq, Eq, Structural)]
pub enum Operator {
    Add,
    Sub,
    Mul,
    Div,
    Assignment,
    Equal,
    NotEqual,
}

impl Operator {
    /// The binding strength used by the right-recursive expression parser:
    /// assignment binds loosest, then comparison, then sum, then product.
    pub open spec fn precedence_spec(self) -> u8 {
        match self {
            Operator::Add => 3,
            Operator::Sub => 3,
            Operator::Mul => 4,
            Operator::Div => 4,
            Operator::Assignment => 1,
            Operator::Equal => 2,
            Operator::NotEqual => 2,
        }
    }

    pub fn precedence(&self) -> (r: u8)
        ensures r == self.precedence_spec(),
    {
        match *self {
            Operator::Add => 3,
            Operator::Sub => 3,
            Operator::Mul => 4,
            Operator::Div => 4,
            Operator::Assignment => 1,
            Operator::Equal => 2,
            Operator::NotEqual => 2,
        }
    }
}

} // verus!
