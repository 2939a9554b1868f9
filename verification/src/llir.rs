use vstd::prelude::*;

verus! {

/// A virtual register: an index naming one eight-byte stack slot of the
/// current function.  Registers are never reused; allocation is monotonic.
#[derive(Clone, Copy, Debug, PartialEq, Eq, Structural)]
pub struct Register(pub usize);

/// One instruction of the register-oriented low-level IR.  Branch targets are
/// indices into the enclosing function's instruction list.
#[derive(Debug, PartialEq)]
pub enum Node {
    Move { dst: Register, src: Register },
    MoveImmI64 { dst: Register, imm: i64 },
    Jump { target: usize },
    JumpOnZero { condition: Register, target: usize },
    Add { dst: Register, lhs: Register, rhs: Register },
    Mul { dst: Register, lhs: Register, rhs: Register },
    Equals { dst: Register, lhs: Register, rhs: Register },
    Return { value: Option<Register> },
    Call { dst: Register, function: usize, arguments: Vec<Register> },
}

/// The mathematical shape of one instruction: registers and targets as plain
/// integers, argument lists as sequences.
#[verifier::ext_equal]
pub enum Instr {
    Move { dst: int, src: int },
    MoveImmI64 { dst: int, imm: i64 },
    Jump { target: int },
    JumpOnZero { condition: int, target: int },
    Add { dst: int, lhs: int, rhs: int },
    Mul { dst: int, lhs: int, rhs: int },
    Equals { dst: int, lhs: int, rhs: int },
    Return { value: Option<int> },
    Call { dst: int, function: int, arguments: Seq<int> },
}

impl View for Node {
    type V = Instr;

    open spec fn view(&self) -> Instr {
        match *self {
            Node::Move { dst, src } => Instr::Move { dst: dst.0 as int, src: src.0 as int },
            Node::MoveImmI64 { dst, imm } => Instr::MoveImmI64 { dst: dst.0 as int, imm },
            Node::Jump { target } => Instr::Jump { target: target as int },
            Node::JumpOnZero { condition, target } => Instr::JumpOnZero {
                condition: condition.0 as int,
                target: target as int,
            },
            Node::Add { dst, lhs, rhs } => Instr::Add {
                dst: dst.0 as int,
                lhs: lhs.0 as int,
                rhs: rhs.0 as int,
            },
            Node::Mul { dst, lhs, rhs } => Instr::Mul {
                dst: dst.0 as int,
                lhs: lhs.0 as int,
                rhs: rhs.0 as int,
            },
            Node::Equals { dst, lhs, rhs } => Instr::Equals {
                dst: dst.0 as int,
                lhs: lhs.0 as int,
                rhs: rhs.0 as int,
            },
            Node::Return { value } => Instr::Return {
                value: match value {
                    Some(r) => Some(r.0 as int),
                    None => None,
                },
            },
            Node::Call { dst, function, arguments } => Instr::Call {
                dst: dst.0 as int,
                function: function as int,
                arguments: arguments@.map_values(|r: Register| r.0 as int),
            },
        }
    }
}

/// One lowered function: a flat instruction list, the byte widths of its
/// parameters, and the number of virtual registers it uses.
#[derive(Debug, PartialEq)]
pub struct Function {
    pub is_entry_point: bool,
    pub parameters: Vec<usize>,
    pub body: Vec<Node>,
    pub register_count: usize,
}

/// The mathematical shape of a lowered function.
#[verifier::ext_equal]
pub struct FunctionModel {
    pub is_entry_point: bool,
    pub parameters: Seq<int>,
    pub body: Seq<Instr>,
    pub register_count: int,
}

impl View for Function {
    type V = FunctionModel;

    open spec fn view(&self) -> FunctionModel {
        FunctionModel {
            is_entry_point: self.is_entry_point,
            parameters: self.parameters@.map_values(|p: usize| p as int),
            body: self.body@.map_values(|n: Node| n@),
            register_count: self.register_count as int,
        }
    }
}

impl Function {
    pub fn new(is_entry_point: bool, parameters: Vec<usize>) -> (r: Function)
        ensures
            r@.is_entry_point == is_entry_point,
            r@.parameters == parameters@.map_values(|p: usize| p as int),
            r@.body == Seq::<Instr>::empty(),
            r@.register_count == 0,
    {
        let r = Function { is_entry_point, parameters, body: Vec::new(), register_count: 0 };
        proof {
            assert(r@.body =~= Seq::<Instr>::empty());
        }
        r
    }
}

impl Instr {
    /// Every register the instruction names is below `rc`.
    pub open spec fn regs_bounded(self, rc: int) -> bool {
        match self {
            Instr::Move { dst, src } => dst < rc && src < rc,
            Instr::MoveImmI64 { dst, .. } => dst < rc,
            Instr::Jump { .. } => true,
            Instr::JumpOnZero { condition, .. } => condition < rc,
            Instr::Add { dst, lhs, rhs } => dst < rc && lhs < rc && rhs < rc,
            Instr::Mul { dst, lhs, rhs } => dst < rc && lhs < rc && rhs < rc,
            Instr::Equals { dst, lhs, rhs } => dst < rc && lhs < rc && rhs < rc,
            Instr::Return { value } => value matches Some(r) ==> r < rc,
            Instr::Call { dst, arguments, .. } => {
                dst < rc && forall|i: int| 0 <= i < arguments.len() ==> arguments[i] < rc
            }
        }
    }

    /// Every register the instruction names is at least zero (they are, by
    /// construction from `usize`; stated so the model can stand alone).
    pub open spec fn regs_nonneg(self) -> bool {
        match self {
            Instr::Move { dst, src } => dst >= 0 && src >= 0,
            Instr::MoveImmI64 { dst, .. } => dst >= 0,
            Instr::Jump { .. } => true,
            Instr::JumpOnZero { condition, .. } => condition >= 0,
            Instr::Add { dst, lhs, rhs } => dst >= 0 && lhs >= 0 && rhs >= 0,
            Instr::Mul { dst, lhs, rhs } => dst >= 0 && lhs >= 0 && rhs >= 0,
            Instr::Equals { dst, lhs, rhs } => dst >= 0 && lhs >= 0 && rhs >= 0,
            Instr::Return { value } => value matches Some(r) ==> r >= 0,
            Instr::Call { dst, arguments, .. } => {
                dst >= 0 && forall|i: int| 0 <= i < arguments.len() ==> arguments[i] >= 0
            }
        }
    }

    /// Every branch target of the instruction is at most `n`.
    pub open spec fn targets_le(self, n: int) -> bool {
        match self {
            Instr::Jump { target } => 0 <= target <= n,
            Instr::JumpOnZero { target, .. } => 0 <= target <= n,
            _ => true,
        }
    }

    /// Every branch target of the instruction is strictly below `n`.
    pub open spec fn targets_lt(self, n: int) -> bool {
        match self {
            Instr::Jump { target } => 0 <= target < n,
            Instr::JumpOnZero { target, .. } => 0 <= target < n,
            _ => true,
        }
    }
}

impl FunctionModel {
    /// What the lowering pass guarantees of every function it produces:
    /// registers stay below the register count, branch targets stay within
    /// the instruction list (an `if` ending the body may point one past it).
    pub open spec fn wf_loose(self) -> bool {
        &&& 0 <= self.register_count
        &&& forall|i: int| 0 <= i < self.body.len()
            ==> (#[trigger] self.body[i]).regs_bounded(self.register_count)
        &&& forall|i: int| 0 <= i < self.body.len()
            ==> (#[trigger] self.body[i]).regs_nonneg()
        &&& forall|i: int| 0 <= i < self.body.len()
            ==> (#[trigger] self.body[i]).targets_le(self.body.len() as int)
    }
}

} // verus!
