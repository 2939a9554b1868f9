use vstd::prelude::*;
use vstd::arithmetic::div_mod::{lemma_fundamental_div_mod, lemma_mod_multiples_vanish};
use crate::llir;
use crate::llir::{Instr, FunctionModel};

verus! {

/// The least residue of `n` modulo 2^32: what a 32-bit field wraps to.
pub open spec fn wrap32(n: int) -> int {
    n % 0x1_0000_0000
}

/// The four little-endian bytes of `n` (taken modulo 2^32).
pub open spec fn le32(n: int) -> Seq<u8> {
    seq![
        (n % 256) as u8,
        ((n / 0x100) % 256) as u8,
        ((n / 0x1_0000) % 256) as u8,
        ((n / 0x100_0000) % 256) as u8,
    ]
}

/// The eight little-endian bytes of `n` (taken modulo 2^64).
pub open spec fn le64(n: int) -> Seq<u8> {
    seq![
        (n % 256) as u8,
        ((n / 0x100) % 256) as u8,
        ((n / 0x1_0000) % 256) as u8,
        ((n / 0x100_0000) % 256) as u8,
        ((n / 0x1_0000_0000) % 256) as u8,
        ((n / 0x100_0000_0000) % 256) as u8,
        ((n / 0x1_0000_0000_0000) % 256) as u8,
        ((n / 0x100_0000_0000_0000) % 256) as u8,
    ]
}

/// `out` with the four bytes at `pos` replaced by the little-endian encoding
/// of `val`.
pub open spec fn write32(out: Seq<u8>, pos: int, val: int) -> Seq<u8> {
    out.update(pos, le32(val)[0])
        .update(pos + 1, le32(val)[1])
        .update(pos + 2, le32(val)[2])
        .update(pos + 3, le32(val)[3])
}

/// The emitter's state as mathematics: the bytes so far, the byte offset of
/// each instruction of the current function and of each function, the two
/// fixup lists, and the entry point offset.
#[verifier::ext_equal]
pub struct EState {
    pub out: Seq<u8>,
    pub positions: Seq<int>,
    pub function_positions: Seq<int>,
    pub branch_fixups: Seq<(int, int)>,
    pub function_fixups: Seq<(int, int)>,
    pub entry: int,
}

impl EState {
    pub open spec fn app(self, bytes: Seq<u8>) -> EState {
        EState { out: self.out + bytes, ..self }
    }
}

/// The stack-frame prologue: push rbp; mov rbp, rsp; sub rsp, `frame` —
/// exactly `register_count * 8` bytes of frame.
pub open spec fn prologue_bytes(frame: int) -> Seq<u8> {
    seq![0x55u8, 0x48u8, 0x89u8, 0xE5u8, 0x48u8, 0x81u8, 0xECu8] + le32(frame)
}

/// The epilogue emitted by every `Return`: mov rsp, rbp; pop rbp; ret.
pub open spec fn epilogue_bytes() -> Seq<u8> {
    seq![0x48u8, 0x89u8, 0xECu8, 0x5Du8, 0xC3u8]
}

/// The bytes one instruction contributes, with the fixups it records.
/// Loads go through rax (and rcx for the right operand); every virtual
/// register `r` lives in the eight bytes at `[rsp + 8 r]`.
pub open spec fn emit_instr_s(i: Instr, st: EState) -> EState {
    match i {
        Instr::Move { dst, src } => st.app(
            seq![0x48u8, 0x8Bu8, 0x84u8, 0x24u8] + le32(src * 8)
                + seq![0x48u8, 0x89u8, 0x84u8, 0x24u8] + le32(dst * 8),
        ),
        Instr::MoveImmI64 { dst, imm } => st.app(
            seq![0x48u8, 0xB8u8] + le64(imm as u64 as int)
                + seq![0x48u8, 0x89u8, 0x84u8, 0x24u8] + le32(dst * 8),
        ),
        Instr::Jump { target } => {
            let st1 = st.app(seq![0xE9u8]);
            EState {
                branch_fixups: st1.branch_fixups.push((st1.out.len() as int, target)),
                ..st1.app(seq![0u8, 0u8, 0u8, 0u8])
            }
        }
        Instr::JumpOnZero { condition, target } => {
            let st1 = st.app(
                seq![0x48u8, 0x8Bu8, 0x84u8, 0x24u8] + le32(condition * 8)
                    + seq![0x48u8, 0x85u8, 0xC0u8] + seq![0x0Fu8, 0x84u8],
            );
            EState {
                branch_fixups: st1.branch_fixups.push((st1.out.len() as int, target)),
                ..st1.app(seq![0u8, 0u8, 0u8, 0u8])
            }
        }
        Instr::Add { dst, lhs, rhs } => st.app(
            seq![0x48u8, 0x8Bu8, 0x84u8, 0x24u8] + le32(lhs * 8)
                + seq![0x48u8, 0x8Bu8, 0x8Cu8, 0x24u8] + le32(rhs * 8)
                + seq![0x48u8, 0x01u8, 0xC8u8]
                + seq![0x48u8, 0x89u8, 0x84u8, 0x24u8] + le32(dst * 8),
        ),
        Instr::Mul { dst, lhs, rhs } => st.app(
            seq![0x48u8, 0x8Bu8, 0x84u8, 0x24u8] + le32(lhs * 8)
                + seq![0x48u8, 0x8Bu8, 0x8Cu8, 0x24u8] + le32(rhs * 8)
                + seq![0x48u8, 0xF7u8, 0xE1u8]
                + seq![0x48u8, 0x89u8, 0x84u8, 0x24u8] + le32(dst * 8),
        ),
        Instr::Equals { dst, lhs, rhs } => st.app(
            seq![0x48u8, 0x8Bu8, 0x84u8, 0x24u8] + le32(lhs * 8)
                + seq![0x48u8, 0x8Bu8, 0x8Cu8, 0x24u8] + le32(rhs * 8)
                + seq![0x48u8, 0x39u8, 0xC8u8]
                + seq![0x0Fu8, 0x94u8, 0xC0u8]
                + seq![0x48u8, 0x0Fu8, 0xB6u8, 0xC0u8]
                + seq![0x48u8, 0x89u8, 0x84u8, 0x24u8] + le32(dst * 8),
        ),
        Instr::Return { value } => {
            let st1 = match value {
                Some(r) => st.app(seq![0x48u8, 0x8Bu8, 0x84u8, 0x24u8] + le32(r * 8)),
                None => st,
            };
            st1.app(epilogue_bytes())
        }
        Instr::Call { dst, function, arguments } => {
            let st1 = if arguments.len() >= 1 {
                st.app(seq![0x48u8, 0x8Bu8, 0xBCu8, 0x24u8] + le32(arguments[0] * 8))
            } else {
                st
            };
            let st2 = st1.app(seq![0xE8u8]);
            let st3 = EState {
                function_fixups: st2.function_fixups.push((st2.out.len() as int, function)),
                ..st2.app(seq![0u8, 0u8, 0u8, 0u8])
            };
            st3.app(seq![0x48u8, 0x89u8, 0x84u8, 0x24u8] + le32(dst * 8))
        }
    }
}

/// Emitting a function body: each instruction's start offset is recorded,
/// then its bytes appended.
pub open spec fn emit_body_s(body: Seq<Instr>, st: EState) -> EState
    decreases body.len(),
{
    if body.len() == 0 {
        st
    } else {
        emit_body_s(
            body.drop_first(),
            emit_instr_s(
                body[0],
                EState { positions: st.positions.push(st.out.len() as int), ..st },
            ),
        )
    }
}

/// Resolving recorded fixups in order: each displacement field at `p` is
/// rewritten to `target_byte - (p + 4)` as a wrapped 32-bit value.
pub open spec fn apply_fixups_s(out: Seq<u8>, fixups: Seq<(int, int)>, positions: Seq<int>) -> Seq<u8>
    decreases fixups.len(),
{
    if fixups.len() == 0 {
        out
    } else {
        apply_fixups_s(
            write32(out, fixups[0].0, wrap32(positions[fixups[0].1] - (fixups[0].0 + 4))),
            fixups.drop_first(),
            positions,
        )
    }
}

/// Emitting one function: record its start (and the entry point when it is
/// the entry function), lay down the prologue, spill the first parameter
/// from rdi, emit the body, then resolve this function's branch fixups and
/// clear the per-function tables.
pub open spec fn emit_function_s(f: FunctionModel, st: EState) -> EState {
    let st0 = EState {
        entry: if f.is_entry_point { st.out.len() as int } else { st.entry },
        function_positions: st.function_positions.push(st.out.len() as int),
        ..st
    };
    let st1 = st0.app(prologue_bytes(f.register_count * 8));
    let st2 = if f.parameters.len() >= 1 {
        st1.app(seq![0x48u8, 0x89u8, 0xBCu8, 0x24u8] + le32(0))
    } else {
        st1
    };
    let st3 = emit_body_s(f.body, st2);
    EState {
        out: apply_fixups_s(st3.out, st3.branch_fixups, st3.positions),
        positions: Seq::empty(),
        branch_fixups: Seq::empty(),
        ..st3
    }
}

pub open spec fn emit_functions_s(funcs: Seq<FunctionModel>, st: EState) -> EState
    decreases funcs.len(),
{
    if funcs.len() == 0 {
        st
    } else {
        emit_functions_s(funcs.drop_first(), emit_function_s(funcs[0], st))
    }
}

/// The whole emission pass: every function in order, then the inter-function
/// call fixups against the recorded function start offsets.
pub open spec fn emit_program_s(funcs: Seq<FunctionModel>, st: EState) -> EState {
    let st1 = emit_functions_s(funcs, st);
    EState {
        out: apply_fixups_s(st1.out, st1.function_fixups, st1.function_positions),
        ..st1
    }
}

/// What the emitter demands of one function so that no lookup or cast can
/// go wrong: at most one parameter, a frame that fits a 32-bit immediate,
/// registers in range, branch targets strictly inside the body, at most one
/// call argument and only callees that exist among the `fcount` functions.
pub open spec fn emitable_fn(f: FunctionModel, fcount: int) -> bool {
    &&& 0 <= f.register_count
    &&& f.register_count * 8 <= 0xFFFF_FFFF
    &&& f.parameters.len() <= 1
    &&& forall|i: int| 0 <= i < f.body.len()
        ==> (#[trigger] f.body[i]).regs_bounded(f.register_count)
    &&& forall|i: int| 0 <= i < f.body.len()
        ==> (#[trigger] f.body[i]).regs_nonneg()
    &&& forall|i: int| 0 <= i < f.body.len()
        ==> (#[trigger] f.body[i]).targets_lt(f.body.len() as int)
    &&& forall|i: int| 0 <= i < f.body.len()
        ==> ((#[trigger] f.body[i]) matches Instr::Call { function, arguments, .. }
            ==> 0 <= function < fcount && arguments.len() <= 1)
}

pub open spec fn emitable(funcs: Seq<FunctionModel>) -> bool {
    forall|i: int| 0 <= i < funcs.len()
        ==> emitable_fn(#[trigger] funcs[i], funcs.len() as int)
}

/// Machine-code emission is a function of the LLIR alone: identical LLIR
/// yields byte-identical machine code and the same entry offset.
pub proof fn lemma_emission_deterministic(a: Seq<FunctionModel>, b: Seq<FunctionModel>, st: EState)
    requires a == b,
    ensures emit_program_s(a, st) == emit_program_s(b, st),
{
}

/// Every `Return` ends in the five epilogue bytes that restore rsp from rbp,
/// pop rbp and return.
pub proof fn lemma_return_epilogue(i: Instr, st: EState)
    requires i is Return,
    ensures
        emit_instr_s(i, st).out.len() >= 5,
        emit_instr_s(i, st).out =~= emit_instr_s(i, st).out.subrange(
            0,
            emit_instr_s(i, st).out.len() - 5,
        ) + epilogue_bytes(),
{
}

/// The compiled image: the emitted bytes and the byte offset of the entry
/// point within them.  Running it is the embedder's business.
pub struct Executable {
    pub code: Vec<u8>,
    pub entry_point_offset: usize,
}

impl Executable {
    pub fn new(code: Vec<u8>, entry_point_offset: usize) -> (r: Executable)
        ensures
            r.code@ == code@,
            r.entry_point_offset == entry_point_offset,
    {
        Executable { code, entry_point_offset }
    }
}

/// The LLIR to x86-64 emitter: instruction encoding, stack frames, and
/// two-pass resolution of branch and call displacements.
pub struct Compiler {
    output: Vec<u8>,
    positions: Vec<usize>,
    function_positions: Vec<usize>,
    branch_fixups: Vec<(usize, usize)>,
    function_fixups: Vec<(usize, usize)>,
    entry_point_offset: usize,
}

impl Compiler {
    /// The emitter's state as mathematics.
    pub closed spec fn estate(self) -> EState {
        EState {
            out: self.output@,
            positions: self.positions@.map_values(|p: usize| p as int),
            function_positions: self.function_positions@.map_values(|p: usize| p as int),
            branch_fixups: self.branch_fixups@.map_values(
                |p: (usize, usize)| (p.0 as int, p.1 as int),
            ),
            function_fixups: self.function_fixups@.map_values(
                |p: (usize, usize)| (p.0 as int, p.1 as int),
            ),
            entry: self.entry_point_offset as int,
        }
    }

    pub fn new() -> (r: Compiler)
        ensures
            r.estate() == (EState {
                out: Seq::<u8>::empty(),
                positions: Seq::<int>::empty(),
                function_positions: Seq::<int>::empty(),
                branch_fixups: Seq::<(int, int)>::empty(),
                function_fixups: Seq::<(int, int)>::empty(),
                entry: 0,
            }),
    {
        let r = Compiler {
            output: Vec::new(),
            positions: Vec::new(),
            function_positions: Vec::new(),
            branch_fixups: Vec::new(),
            function_fixups: Vec::new(),
            entry_point_offset: 0,
        };
        proof {
            assert(r.estate().out =~= Seq::<u8>::empty());
            assert(r.estate().positions =~= Seq::<int>::empty());
            assert(r.estate().function_positions =~= Seq::<int>::empty());
            assert(r.estate().branch_fixups =~= Seq::<(int, int)>::empty());
            assert(r.estate().function_fixups =~= Seq::<(int, int)>::empty());
        }
        r
    }

    /// Appends one byte.
    fn emit1(&mut self, a: u8)
        ensures final(self).estate() == old(self).estate().app(seq![a]),
    {
        self.output.push(a);
        proof {
            assert(self.estate().out =~= old(self).estate().out + seq![a]);
            assert(self.estate() =~~= old(self).estate().app(seq![a]));
        }
    }

    /// Appends two bytes.
    fn emit2(&mut self, a: u8, b: u8)
        ensures final(self).estate() == old(self).estate().app(seq![a, b]),
    {
        self.output.push(a);
        self.output.push(b);
        proof {
            assert(self.estate().out =~= old(self).estate().out + seq![a, b]);
            assert(self.estate() =~~= old(self).estate().app(seq![a, b]));
        }
    }

    /// Appends three bytes.
    fn emit3(&mut self, a: u8, b: u8, c: u8)
        ensures final(self).estate() == old(self).estate().app(seq![a, b, c]),
    {
        self.output.push(a);
        self.output.push(b);
        self.output.push(c);
        proof {
            assert(self.estate().out =~= old(self).estate().out + seq![a, b, c]);
            assert(self.estate() =~~= old(self).estate().app(seq![a, b, c]));
        }
    }

    /// Appends four bytes.
    fn emit4(&mut self, a: u8, b: u8, c: u8, d: u8)
        ensures final(self).estate() == old(self).estate().app(seq![a, b, c, d]),
    {
        self.output.push(a);
        self.output.push(b);
        self.output.push(c);
        self.output.push(d);
        proof {
            assert(self.estate().out =~= old(self).estate().out + seq![a, b, c, d]);
            assert(self.estate() =~~= old(self).estate().app(seq![a, b, c, d]));
        }
    }

    /// Appends the four little-endian bytes of `v`.
    fn emit_le32(&mut self, v: u32)
        ensures final(self).estate() == old(self).estate().app(le32(v as int)),
    {
        self.output.push((v % 256) as u8);
        self.output.push(((v / 0x100) % 256) as u8);
        self.output.push(((v / 0x1_0000) % 256) as u8);
        self.output.push(((v / 0x100_0000) % 256) as u8);
        proof {
            assert(self.estate().out =~= old(self).estate().out + le32(v as int));
            assert(self.estate() =~~= old(self).estate().app(le32(v as int)));
        }
    }

    /// Appends the eight little-endian bytes of `v`.
    fn emit_le64(&mut self, v: u64)
        ensures final(self).estate() == old(self).estate().app(le64(v as int)),
    {
        self.output.push((v % 256) as u8);
        self.output.push(((v / 0x100) % 256) as u8);
        self.output.push(((v / 0x1_0000) % 256) as u8);
        self.output.push(((v / 0x100_0000) % 256) as u8);
        self.output.push(((v / 0x1_0000_0000) % 256) as u8);
        self.output.push(((v / 0x100_0000_0000) % 256) as u8);
        self.output.push(((v / 0x1_0000_0000_0000) % 256) as u8);
        self.output.push(((v / 0x100_0000_0000_0000) % 256) as u8);
        proof {
            assert(self.estate().out =~= old(self).estate().out + le64(v as int));
            assert(self.estate() =~~= old(self).estate().app(le64(v as int)));
        }
    }

    /// Rewrites the four bytes at `position` to the little-endian wrapped
    /// 32-bit displacement from just past the field to `target`.
    fn encode_relative_32(&mut self, position: usize, target: usize)
        requires
            position + 4 <= old(self).output@.len(),
        ensures
            final(self).estate() == (EState {
                out: write32(
                    old(self).estate().out,
                    position as int,
                    wrap32(target - (position + 4)),
                ),
                ..old(self).estate()
            }),
    {
        let n = self.output.len();
        proof {
            assert(position + 4 <= n);
        }
        let m: u64 = 0x1_0000_0000;
        let disp: u64 = if target >= position + 4 {
            ((target - (position + 4)) as u64) % m
        } else {
            let diff = (((position + 4) - target) as u64) % m;
            (m - diff) % m
        };
        proof {
            let t = target as int;
            let p = (position + 4) as int;
            let mi = 0x1_0000_0000int;
            if t < p {
                let x = p - t;
                lemma_fundamental_div_mod(x, mi);
                let q = x / mi;
                let r = x % mi;
                lemma_mod_multiples_vanish(-q - 1, mi - r, mi);
                assert(-x == (-q - 1) * mi + (mi - r)) by (nonlinear_arith)
                    requires x == q * mi + r,
                {}
                assert(disp as int == wrap32(t - p));
            } else {
                assert(disp as int == wrap32(t - p));
            }
        }
        let b0: u8 = (disp % 256) as u8;
        let b1: u8 = ((disp / 0x100) % 256) as u8;
        let b2: u8 = ((disp / 0x1_0000) % 256) as u8;
        let b3: u8 = ((disp / 0x100_0000) % 256) as u8;
        self.output[position] = b0;
        self.output[position + 1] = b1;
        self.output[position + 2] = b2;
        self.output[position + 3] = b3;
        proof {
            let v = wrap32(target - (position + 4));
            assert(le32(v)[0] == b0 && le32(v)[1] == b1 && le32(v)[2] == b2 && le32(v)[3] == b3);
            assert(self.estate().out =~= write32(old(self).estate().out, position as int, v));
            assert(self.estate() =~~= (EState {
                out: write32(old(self).estate().out, position as int, v),
                ..old(self).estate()
            }));
        }
    }
}

/// A virtual register whose stack-slot offset fits a 32-bit field.
pub open spec fn slot_ok(r: int) -> bool {
    0 <= r && r * 8 <= 0xFFFF_FFFF
}

/// The per-instruction demands of the encoder: every named register's slot
/// offset fits 32 bits, and a call passes at most one argument.
pub open spec fn instr_fits(i: Instr) -> bool {
    match i {
        Instr::Move { dst, src } => slot_ok(dst) && slot_ok(src),
        Instr::MoveImmI64 { dst, .. } => slot_ok(dst),
        Instr::Jump { .. } => true,
        Instr::JumpOnZero { condition, .. } => slot_ok(condition),
        Instr::Add { dst, lhs, rhs } => slot_ok(dst) && slot_ok(lhs) && slot_ok(rhs),
        Instr::Mul { dst, lhs, rhs } => slot_ok(dst) && slot_ok(lhs) && slot_ok(rhs),
        Instr::Equals { dst, lhs, rhs } => slot_ok(dst) && slot_ok(lhs) && slot_ok(rhs),
        Instr::Return { value } => value matches Some(r) ==> slot_ok(r),
        Instr::Call { dst, arguments, .. } => {
            slot_ok(dst) && arguments.len() <= 1
                && (arguments.len() == 1 ==> slot_ok(arguments[0]))
        }
    }
}

/// How one instruction's emission relates the state before to the state
/// after: bytes only grow, the position tables and entry are untouched, and
/// every newly recorded fixup points at a fresh, fully emitted displacement
/// field with an in-range target.
pub proof fn lemma_emit_instr_growth(i: Instr, st: EState)
    ensures ({
        let st2 = emit_instr_s(i, st);
        &&& st2.out.len() >= st.out.len()
        &&& st2.out.subrange(0, st.out.len() as int) == st.out
        &&& st2.positions == st.positions
        &&& st2.function_positions == st.function_positions
        &&& st2.entry == st.entry
        &&& st2.branch_fixups.len() >= st.branch_fixups.len()
        &&& forall|k: int| 0 <= k < st.branch_fixups.len()
            ==> #[trigger] st2.branch_fixups[k] == st.branch_fixups[k]
        &&& forall|k: int| st.branch_fixups.len() <= k < st2.branch_fixups.len()
            ==> (#[trigger] st2.branch_fixups[k]).0 + 4 <= st2.out.len()
                && st2.branch_fixups[k].0 >= st.out.len()
                && forall|n: int| i.targets_lt(n) ==> 0 <= st2.branch_fixups[k].1 < n
        &&& st2.function_fixups.len() >= st.function_fixups.len()
        &&& forall|k: int| 0 <= k < st.function_fixups.len()
            ==> #[trigger] st2.function_fixups[k] == st.function_fixups[k]
        &&& forall|k: int| st.function_fixups.len() <= k < st2.function_fixups.len()
            ==> (#[trigger] st2.function_fixups[k]).0 + 4 <= st2.out.len()
                && st2.function_fixups[k].0 >= st.out.len()
                && (i matches Instr::Call { function, .. }
                    ==> st2.function_fixups[k].1 == function)
    }),
{
    match i {
        Instr::Move { .. } => {
            assert(emit_instr_s(i, st).out.subrange(0, st.out.len() as int) =~= st.out);
        }
        Instr::MoveImmI64 { .. } => {
            assert(emit_instr_s(i, st).out.subrange(0, st.out.len() as int) =~= st.out);
        }
        Instr::Jump { .. } => {
            assert(emit_instr_s(i, st).out.subrange(0, st.out.len() as int) =~= st.out);
        }
        Instr::JumpOnZero { .. } => {
            assert(emit_instr_s(i, st).out.subrange(0, st.out.len() as int) =~= st.out);
        }
        Instr::Add { .. } => {
            assert(emit_instr_s(i, st).out.subrange(0, st.out.len() as int) =~= st.out);
        }
        Instr::Mul { .. } => {
            assert(emit_instr_s(i, st).out.subrange(0, st.out.len() as int) =~= st.out);
        }
        Instr::Equals { .. } => {
            assert(emit_instr_s(i, st).out.subrange(0, st.out.len() as int) =~= st.out);
        }
        Instr::Return { .. } => {
            assert(emit_instr_s(i, st).out.subrange(0, st.out.len() as int) =~= st.out);
        }
        Instr::Call { .. } => {
            assert(emit_instr_s(i, st).out.subrange(0, st.out.len() as int) =~= st.out);
        }
    }
}

impl Compiler {
    /// Encodes one LLIR instruction, recording any displacement fields it
    /// leaves for the fixup passes.
    #[verifier::rlimit(60)]
    fn compile_node(&mut self, node: &llir::Node)
        requires
            instr_fits(node@),
        ensures
            final(self).estate() == emit_instr_s(node@, old(self).estate()),
    {
        match node {
            llir::Node::Move { dst, src } => {
                // mov rax, [rsp + src * 8]; mov [rsp + dst * 8], rax
                self.emit4(0x48, 0x8B, 0x84, 0x24);
                self.emit_le32((src.0 * 8) as u32);
                self.emit4(0x48, 0x89, 0x84, 0x24);
                self.emit_le32((dst.0 * 8) as u32);
                proof {
                    assert(self.estate() =~~= emit_instr_s(node@, old(self).estate()));
                }
            }
            llir::Node::MoveImmI64 { dst, imm } => {
                // movabs rax, imm; mov [rsp + dst * 8], rax
                self.emit2(0x48, 0xB8);
                self.emit_le64(#[verifier::truncate] (*imm as u64));
                self.emit4(0x48, 0x89, 0x84, 0x24);
                self.emit_le32((dst.0 * 8) as u32);
                proof {
                    assert(self.estate() =~~= emit_instr_s(node@, old(self).estate()));
                }
            }
            llir::Node::Jump { target } => {
                // jmp rel32, resolved by the per-function fixup pass
                self.emit1(0xE9);
                let pos = self.output.len();
                self.emit4(0x00, 0x00, 0x00, 0x00);
                self.branch_fixups.push((pos, *target));
                proof {
                    assert(self.estate().branch_fixups =~= old(self).estate().branch_fixups
                        .push((pos as int, *target as int)));
                    assert(self.estate() =~~= emit_instr_s(node@, old(self).estate()));
                }
            }
            llir::Node::JumpOnZero { condition, target } => {
                // mov rax, [rsp + condition * 8]; test rax, rax; jz rel32
                self.emit4(0x48, 0x8B, 0x84, 0x24);
                self.emit_le32((condition.0 * 8) as u32);
                self.emit3(0x48, 0x85, 0xC0);
                self.emit2(0x0F, 0x84);
                let pos = self.output.len();
                self.emit4(0x00, 0x00, 0x00, 0x00);
                self.branch_fixups.push((pos, *target));
                proof {
                    assert(self.estate().branch_fixups =~= old(self).estate().branch_fixups
                        .push((pos as int, *target as int)));
                    assert(self.estate() =~~= emit_instr_s(node@, old(self).estate()));
                }
            }
            llir::Node::Add { dst, lhs, rhs } => {
                // rax <- lhs slot; rcx <- rhs slot; add rax, rcx; store dst
                self.emit4(0x48, 0x8B, 0x84, 0x24);
                self.emit_le32((lhs.0 * 8) as u32);
                self.emit4(0x48, 0x8B, 0x8C, 0x24);
                self.emit_le32((rhs.0 * 8) as u32);
                self.emit3(0x48, 0x01, 0xC8);
                self.emit4(0x48, 0x89, 0x84, 0x24);
                self.emit_le32((dst.0 * 8) as u32);
                proof {
                    assert(self.estate() =~~= emit_instr_s(node@, old(self).estate()));
                }
            }
            llir::Node::Mul { dst, lhs, rhs } => {
                // rax <- lhs slot; rcx <- rhs slot; mul rcx; store dst
                self.emit4(0x48, 0x8B, 0x84, 0x24);
                self.emit_le32((lhs.0 * 8) as u32);
                self.emit4(0x48, 0x8B, 0x8C, 0x24);
                self.emit_le32((rhs.0 * 8) as u32);
                self.emit3(0x48, 0xF7, 0xE1);
                self.emit4(0x48, 0x89, 0x84, 0x24);
                self.emit_le32((dst.0 * 8) as u32);
                proof {
                    assert(self.estate() =~~= emit_instr_s(node@, old(self).estate()));
                }
            }
            llir::Node::Equals { dst, lhs, rhs } => {
                // cmp rax, rcx; sete al; movzx rax, al; store dst
                self.emit4(0x48, 0x8B, 0x84, 0x24);
                self.emit_le32((lhs.0 * 8) as u32);
                self.emit4(0x48, 0x8B, 0x8C, 0x24);
                self.emit_le32((rhs.0 * 8) as u32);
                self.emit3(0x48, 0x39, 0xC8);
                self.emit3(0x0F, 0x94, 0xC0);
                self.emit4(0x48, 0x0F, 0xB6, 0xC0);
                self.emit4(0x48, 0x89, 0x84, 0x24);
                self.emit_le32((dst.0 * 8) as u32);
                proof {
                    assert(self.estate() =~~= emit_instr_s(node@, old(self).estate()));
                }
            }
            llir::Node::Return { value } => {
                // optional load into rax, then the epilogue
                if let Some(v) = value {
                    self.emit4(0x48, 0x8B, 0x84, 0x24);
                    self.emit_le32((v.0 * 8) as u32);
                }
                self.emit3(0x48, 0x89, 0xEC);
                self.emit1(0x5D);
                self.emit1(0xC3);
                proof {
                    assert(self.estate() =~~= emit_instr_s(node@, old(self).estate()));
                }
            }
            llir::Node::Call { dst, function, arguments } => {
                // first argument into rdi, call rel32, store rax into dst
                if arguments.len() >= 1 {
                    let a0 = arguments[0];
                    self.emit4(0x48, 0x8B, 0xBC, 0x24);
                    self.emit_le32((a0.0 * 8) as u32);
                }
                self.emit1(0xE8);
                let pos = self.output.len();
                self.emit4(0x00, 0x00, 0x00, 0x00);
                self.function_fixups.push((pos, *function));
                self.emit4(0x48, 0x89, 0x84, 0x24);
                self.emit_le32((dst.0 * 8) as u32);
                proof {
                    if arguments@.len() >= 1 {
                        assert(node@->arguments[0] == arguments@[0].0 as int);
                    }
                    assert(self.estate().function_fixups =~= old(self).estate().function_fixups
                        .push((pos as int, *function as int)));
                    assert(self.estate() =~~= emit_instr_s(node@, old(self).estate()));
                }
            }
        }
    }
}

/// Every instruction of an emitable function meets the encoder's
/// per-instruction demands.
pub proof fn lemma_emitable_fits(f: FunctionModel, fcount: int, j: int)
    requires
        emitable_fn(f, fcount),
        0 <= j < f.body.len(),
    ensures
        instr_fits(f.body[j]),
{
    let i = f.body[j];
    assert(i.regs_bounded(f.register_count));
    assert(i.regs_nonneg());
    match i {
        Instr::Move { dst, src } => {
            assert(dst * 8 <= (f.register_count - 1) * 8) by (nonlinear_arith)
                requires dst < f.register_count,
            {}
            assert(src * 8 <= (f.register_count - 1) * 8) by (nonlinear_arith)
                requires src < f.register_count,
            {}
        }
        Instr::MoveImmI64 { dst, .. } => {
            assert(dst * 8 <= (f.register_count - 1) * 8) by (nonlinear_arith)
                requires dst < f.register_count,
            {}
        }
        Instr::Jump { .. } => {}
        Instr::JumpOnZero { condition, .. } => {
            assert(condition * 8 <= (f.register_count - 1) * 8) by (nonlinear_arith)
                requires condition < f.register_count,
            {}
        }
        Instr::Add { dst, lhs, rhs } => {
            assert(dst * 8 <= (f.register_count - 1) * 8
                && lhs * 8 <= (f.register_count - 1) * 8
                && rhs * 8 <= (f.register_count - 1) * 8) by (nonlinear_arith)
                requires
                    dst < f.register_count,
                    lhs < f.register_count,
                    rhs < f.register_count,
            {}
        }
        Instr::Mul { dst, lhs, rhs } => {
            assert(dst * 8 <= (f.register_count - 1) * 8
                && lhs * 8 <= (f.register_count - 1) * 8
                && rhs * 8 <= (f.register_count - 1) * 8) by (nonlinear_arith)
                requires
                    dst < f.register_count,
                    lhs < f.register_count,
                    rhs < f.register_count,
            {}
        }
        Instr::Equals { dst, lhs, rhs } => {
            assert(dst * 8 <= (f.register_count - 1) * 8
                && lhs * 8 <= (f.register_count - 1) * 8
                && rhs * 8 <= (f.register_count - 1) * 8) by (nonlinear_arith)
                requires
                    dst < f.register_count,
                    lhs < f.register_count,
                    rhs < f.register_count,
            {}
        }
        Instr::Return { value } => {
            if value is Some {
                let r = value->0;
                assert(r * 8 <= (f.register_count - 1) * 8) by (nonlinear_arith)
                    requires r < f.register_count,
                {}
            }
        }
        Instr::Call { dst, arguments, .. } => {
            assert(dst * 8 <= (f.register_count - 1) * 8) by (nonlinear_arith)
                requires dst < f.register_count,
            {}
            if arguments.len() == 1 {
                let a = arguments[0];
                assert(a < f.register_count && a >= 0);
                assert(a * 8 <= (f.register_count - 1) * 8) by (nonlinear_arith)
                    requires a < f.register_count,
                {}
            }
        }
    }
}

/// Whether one instruction stays inside the encoder's bounds.
fn check_instr(node: &llir::Node, rc: usize, blen: usize, fcount: usize) -> (r: bool)
    ensures
        r == (node@.regs_bounded(rc as int) && node@.targets_lt(blen as int)
            && (node@ matches Instr::Call { function, arguments, .. }
                ==> 0 <= function < fcount && arguments.len() <= 1)),
{
    match node {
        llir::Node::Move { dst, src } => dst.0 < rc && src.0 < rc,
        llir::Node::MoveImmI64 { dst, .. } => dst.0 < rc,
        llir::Node::Jump { target } => *target < blen,
        llir::Node::JumpOnZero { condition, target } => condition.0 < rc && *target < blen,
        llir::Node::Add { dst, lhs, rhs } => dst.0 < rc && lhs.0 < rc && rhs.0 < rc,
        llir::Node::Mul { dst, lhs, rhs } => dst.0 < rc && lhs.0 < rc && rhs.0 < rc,
        llir::Node::Equals { dst, lhs, rhs } => dst.0 < rc && lhs.0 < rc && rhs.0 < rc,
        llir::Node::Return { value } => match value {
            Some(v) => v.0 < rc,
            None => true,
        },
        llir::Node::Call { dst, function, arguments } => {
            let r = dst.0 < rc && *function < fcount && arguments.len() <= 1;
            proof {
                assert(node@->arguments.len() == arguments@.len());
                if arguments@.len() > 0 {
                    assert(node@->arguments[0] == arguments@[0].0 as int);
                }
                assert(forall|k: int| 0 <= k < arguments@.len()
                    ==> node@->arguments[k] == (#[trigger] arguments@[k]).0 as int);
            }
            r && (arguments.len() == 0 || arguments[0].0 < rc)
        }
    }
}

/// Whether `compile` accepts the functions: used by embedders to test
/// lowered code before handing it to the encoder.
#[verifier::loop_isolation(false)]
pub fn check_emitable(functions: &Vec<llir::Function>) -> (r: bool)
    ensures r == emitable(functions@.map_values(|f: llir::Function| f@)),
{
    let ghost fv = functions@.map_values(|f: llir::Function| f@);
    let mut i: usize = 0;
    while i < functions.len()
        invariant
            0 <= i <= functions@.len(),
            forall|k: int| 0 <= k < i
                ==> emitable_fn(#[trigger] fv[k], fv.len() as int),
        decreases functions@.len() - i,
    {
        let f = &functions[i];
        if f.register_count > 0x1FFF_FFFF {
            proof {
                assert(!emitable_fn(fv[i as int], fv.len() as int));
            }
            return false;
        }
        if f.parameters.len() > 1 {
            proof {
                assert(!emitable_fn(fv[i as int], fv.len() as int));
            }
            return false;
        }
        let mut j: usize = 0;
        while j < f.body.len()
            invariant
                0 <= j <= f.body@.len(),
                forall|k: int| 0 <= k < j
                    ==> (#[trigger] fv[i as int].body[k]).regs_bounded(
                            fv[i as int].register_count)
                        && fv[i as int].body[k].targets_lt(fv[i as int].body.len() as int)
                        && (fv[i as int].body[k] matches Instr::Call { function, arguments, .. }
                            ==> 0 <= function < fv.len() && arguments.len() <= 1),
            decreases f.body@.len() - j,
        {
            if !check_instr(&f.body[j], f.register_count, f.body.len(), functions.len()) {
                proof {
                    assert(fv[i as int].body[j as int] == f.body@[j as int]@);
                    assert(!emitable_fn(fv[i as int], fv.len() as int));
                }
                return false;
            }
            proof {
                assert(fv[i as int].body[j as int] == f.body@[j as int]@);
            }
            j = j + 1;
        }
        proof {
            assert(forall|k: int| 0 <= k < fv[i as int].body.len()
                ==> (#[trigger] fv[i as int].body[k]).regs_nonneg());
            assert(emitable_fn(fv[i as int], fv.len() as int));
        }
        i = i + 1;
    }
    true
}

/// Every emitted function's frame-setup prologue stands intact at its
/// recorded start offset: the final image still allocates exactly
/// `register_count * 8` bytes there.
pub open spec fn prologues_intact(funcs: Seq<FunctionModel>, st: EState) -> bool {
    forall|k: int| 0 <= k < funcs.len() ==> {
        &&& 0 <= #[trigger] st.function_positions[k]
        &&& st.function_positions[k] + 11 <= st.out.len()
        &&& st.out.subrange(st.function_positions[k], st.function_positions[k] + 11)
            == prologue_bytes(funcs[k].register_count * 8)
    }
}

impl Compiler {
    /// Emits one function: entry-point bookkeeping, prologue, parameter
    /// spill, body, and this function's branch-fixup resolution.
    #[verifier::loop_isolation(false)]
    #[verifier::rlimit(100)]
    fn compile_function(&mut self, f: &llir::Function, fcount: Ghost<int>)
        requires
            emitable_fn(f@, fcount@),
            old(self).estate().positions == Seq::<int>::empty(),
            old(self).estate().branch_fixups == Seq::<(int, int)>::empty(),
        ensures
            final(self).estate() == emit_function_s(f@, old(self).estate()),
            final(self).estate().positions == Seq::<int>::empty(),
            final(self).estate().branch_fixups == Seq::<(int, int)>::empty(),
            final(self).estate().function_positions
                == old(self).estate().function_positions.push(
                    old(self).estate().out.len() as int,
                ),
            final(self).estate().out.len() >= old(self).estate().out.len() + 11,
            final(self).estate().out.subrange(0, old(self).estate().out.len() as int)
                == old(self).estate().out,
            final(self).estate().out.subrange(
                old(self).estate().out.len() as int,
                old(self).estate().out.len() as int + 11,
            ) == prologue_bytes(f@.register_count * 8),
            final(self).estate().function_fixups.len()
                >= old(self).estate().function_fixups.len(),
            forall|k: int| 0 <= k < old(self).estate().function_fixups.len()
                ==> #[trigger] final(self).estate().function_fixups[k]
                    == old(self).estate().function_fixups[k],
            forall|k: int|
                old(self).estate().function_fixups.len() <= k
                    < final(self).estate().function_fixups.len()
                ==> (#[trigger] final(self).estate().function_fixups[k]).0
                        >= old(self).estate().out.len() + 11
                    && final(self).estate().function_fixups[k].0 + 4
                        <= final(self).estate().out.len()
                    && 0 <= final(self).estate().function_fixups[k].1 < fcount@,
    {
        let ghost fm = f@;
        let ghost stf = old(self).estate();
        let ghost fstart = stf.out.len() as int;

        if f.is_entry_point {
            self.entry_point_offset = self.output.len();
        }
        self.function_positions.push(self.output.len());
        proof {
            let ghost stA = EState {
                entry: if fm.is_entry_point { fstart } else { stf.entry },
                function_positions: stf.function_positions.push(fstart),
                ..stf
            };
            assert(self.estate().function_positions =~= stA.function_positions);
            assert(self.estate() =~~= stA);
        }

        // push rbp; mov rbp, rsp; sub rsp, register_count * 8
        self.emit1(0x55);
        self.emit3(0x48, 0x89, 0xE5);
        self.emit3(0x48, 0x81, 0xEC);
        let frame: usize = f.register_count * 8;
        self.emit_le32(frame as u32);
        proof {
            let ghost stA = EState {
                entry: if fm.is_entry_point { fstart } else { stf.entry },
                function_positions: stf.function_positions.push(fstart),
                ..stf
            };
            assert(self.estate().out =~= stA.out + prologue_bytes(fm.register_count * 8));
            assert(self.estate() =~~= stA.app(prologue_bytes(fm.register_count * 8)));
        }

        // the first (and only supported) parameter arrives in rdi and is
        // spilled to slot 0
        if f.parameters.len() >= 1 {
            self.emit4(0x48, 0x89, 0xBC, 0x24);
            self.emit_le32(0);
        }
        let ghost st2v = self.estate();
        proof {
            let ghost stA = EState {
                entry: if fm.is_entry_point { fstart } else { stf.entry },
                function_positions: stf.function_positions.push(fstart),
                ..stf
            };
            let st1 = stA.app(prologue_bytes(fm.register_count * 8));
            assert(fm.parameters.len() == f.parameters@.len());
            if f.parameters.len() >= 1 {
                assert(st2v =~~= st1.app(seq![0x48u8, 0x89u8, 0xBCu8, 0x24u8] + le32(0)));
            }
            assert(st2v.out.subrange(fstart, fstart + 11)
                =~= prologue_bytes(fm.register_count * 8));
        }

        let ghost bodyv = fm.body;
        proof {
            assert(bodyv =~= f.body@.map_values(|n: llir::Node| n@));
            assert(bodyv.subrange(0, bodyv.len() as int) =~= bodyv);
        }
        let mut j: usize = 0;
        while j < f.body.len()
            invariant
                0 <= j <= f.body@.len(),
                bodyv.len() == f.body@.len(),
                emit_body_s(bodyv, st2v)
                    == emit_body_s(bodyv.subrange(j as int, bodyv.len() as int), self.estate()),
                self.estate().positions.len() == j,
                self.estate().function_positions == st2v.function_positions,
                self.estate().entry == st2v.entry,
                self.estate().out.len() >= st2v.out.len(),
                st2v.out.len() >= fstart + 11,
                self.estate().out.subrange(0, fstart) == stf.out,
                self.estate().out.subrange(fstart, fstart + 11)
                    == prologue_bytes(fm.register_count * 8),
                forall|k: int| 0 <= k < self.estate().branch_fixups.len()
                    ==> (#[trigger] self.estate().branch_fixups[k]).0 + 4
                            <= self.estate().out.len()
                        && 0 <= self.estate().branch_fixups[k].1 < bodyv.len()
                        && self.estate().branch_fixups[k].0 >= fstart + 11,
                self.estate().function_fixups.len() >= stf.function_fixups.len(),
                forall|k: int| 0 <= k < stf.function_fixups.len()
                    ==> #[trigger] self.estate().function_fixups[k]
                        == stf.function_fixups[k],
                forall|k: int|
                    stf.function_fixups.len() <= k < self.estate().function_fixups.len()
                    ==> (#[trigger] self.estate().function_fixups[k]).0 >= fstart + 11
                        && self.estate().function_fixups[k].0 + 4 <= self.estate().out.len()
                        && 0 <= self.estate().function_fixups[k].1 < fcount@,
            decreases f.body@.len() - j,
        {
            let ghost remb = bodyv.subrange(j as int, bodyv.len() as int);
            proof {
                assert(remb[0] == bodyv[j as int]);
                assert(remb.drop_first() =~= bodyv.subrange(j + 1, bodyv.len() as int));
                assert(bodyv[j as int] == f.body@[j as int]@);
                lemma_emitable_fits(fm, fcount@, j as int);
            }
            let ghost stb = self.estate();
            self.positions.push(self.output.len());
            let ghost stp = self.estate();
            proof {
                assert(stp.positions =~= stb.positions.push(stb.out.len() as int));
                assert(stp =~~= EState {
                    positions: stb.positions.push(stb.out.len() as int),
                    ..stb
                });
            }
            self.compile_node(&f.body[j]);
            proof {
                lemma_emit_instr_growth(bodyv[j as int], stp);
                assert(bodyv[j as int].targets_lt(bodyv.len() as int));
                assert(self.estate().out.subrange(0, fstart)
                    =~= stp.out.subrange(0, fstart));
                assert(self.estate().out.subrange(fstart, fstart + 11)
                    =~= stp.out.subrange(fstart, fstart + 11));
            }
            j = j + 1;
        }
        proof {
            assert(bodyv.subrange(bodyv.len() as int, bodyv.len() as int)
                =~= Seq::<Instr>::empty());
        }

        // resolve this function's branch displacements against the recorded
        // instruction offsets
        let ghost st3 = self.estate();
        let ghost bfv = st3.branch_fixups;
        proof {
            assert(bfv.subrange(0, bfv.len() as int) =~= bfv);
        }
        let mut k: usize = 0;
        while k < self.branch_fixups.len()
            invariant
                0 <= k <= self.branch_fixups@.len(),
                self.estate().branch_fixups == bfv,
                bfv.len() == self.branch_fixups@.len(),
                self.estate().positions == st3.positions,
                self.estate().function_positions == st3.function_positions,
                self.estate().function_fixups == st3.function_fixups,
                self.estate().entry == st3.entry,
                self.estate().out.len() == st3.out.len(),
                apply_fixups_s(st3.out, bfv, st3.positions)
                    == apply_fixups_s(
                        self.estate().out,
                        bfv.subrange(k as int, bfv.len() as int),
                        st3.positions,
                    ),
                self.estate().out.subrange(0, fstart) == stf.out,
                self.estate().out.subrange(fstart, fstart + 11)
                    == prologue_bytes(fm.register_count * 8),
            decreases self.branch_fixups@.len() - k,
        {
            let ghost remf = bfv.subrange(k as int, bfv.len() as int);
            proof {
                assert(remf[0] == bfv[k as int]);
                assert(remf.drop_first() =~= bfv.subrange(k + 1, bfv.len() as int));
                assert(bfv[k as int]
                    == (self.branch_fixups@[k as int].0 as int,
                        self.branch_fixups@[k as int].1 as int));
                assert(0 <= bfv[k as int].1 < st3.positions.len());
            }
            let pt = self.branch_fixups[k];
            let target_byte = self.positions[pt.1];
            proof {
                assert(target_byte as int == st3.positions[pt.1 as int]);
            }
            let ghost ste = self.estate();
            self.encode_relative_32(pt.0, target_byte);
            proof {
                assert(self.estate().out =~= write32(
                    ste.out,
                    bfv[k as int].0,
                    wrap32(st3.positions[bfv[k as int].1] - (bfv[k as int].0 + 4)),
                ));
                assert(bfv[k as int].0 >= fstart + 11);
                assert(self.estate().out.subrange(0, fstart)
                    =~= ste.out.subrange(0, fstart));
                assert(self.estate().out.subrange(fstart, fstart + 11)
                    =~= ste.out.subrange(fstart, fstart + 11));
            }
            k = k + 1;
        }
        proof {
            assert(bfv.subrange(bfv.len() as int, bfv.len() as int)
                =~= Seq::<(int, int)>::empty());
        }

        self.branch_fixups.clear();
        self.positions.clear();
        proof {
            assert(self.estate().branch_fixups =~= Seq::<(int, int)>::empty());
            assert(self.estate().positions =~= Seq::<int>::empty());
            assert(self.estate() =~~= emit_function_s(fm, stf));
        }
    }

    /// Emits every function in order and resolves both fixup passes,
    /// yielding the byte image and the entry point offset: the offset of the
    /// last function flagged as entry point, or zero when none is.  In the
    /// final image every function's prologue stands intact at its recorded
    /// start offset.
    #[verifier::loop_isolation(false)]
    #[verifier::rlimit(100)]
    pub fn compile(self, functions: Vec<llir::Function>) -> (r: Executable)
        requires
            emitable(functions@.map_values(|f: llir::Function| f@)),
            self.estate().positions == Seq::<int>::empty(),
            self.estate().branch_fixups == Seq::<(int, int)>::empty(),
            self.estate().function_fixups == Seq::<(int, int)>::empty(),
            self.estate().function_positions == Seq::<int>::empty(),
        ensures
            r.code@ == emit_program_s(
                functions@.map_values(|f: llir::Function| f@),
                self.estate(),
            ).out,
            r.entry_point_offset as int == emit_program_s(
                functions@.map_values(|f: llir::Function| f@),
                self.estate(),
            ).entry,
            prologues_intact(
                functions@.map_values(|f: llir::Function| f@),
                emit_program_s(functions@.map_values(|f: llir::Function| f@), self.estate()),
            ),
    {
        let mut this = self;
        let ghost fv = functions@.map_values(|f: llir::Function| f@);
        let ghost st0 = this.estate();
        let mut i: usize = 0;
        proof {
            assert(fv.subrange(0, fv.len() as int) =~= fv);
        }
        while i < functions.len()
            invariant
                0 <= i <= functions@.len(),
                emit_functions_s(fv, st0)
                    == emit_functions_s(fv.subrange(i as int, fv.len() as int), this.estate()),
                this.estate().positions == Seq::<int>::empty(),
                this.estate().branch_fixups == Seq::<(int, int)>::empty(),
                this.estate().function_positions.len() == i,
                forall|k: int| 0 <= k < this.estate().function_fixups.len()
                    ==> (#[trigger] this.estate().function_fixups[k]).0 + 4
                            <= this.estate().out.len()
                        && 0 <= this.estate().function_fixups[k].1 < fv.len(),
                forall|k: int| 0 <= k < i
                    ==> 0 <= #[trigger] this.estate().function_positions[k]
                        && this.estate().function_positions[k] + 11
                            <= this.estate().out.len(),
                forall|k: int| 0 <= k < i
                    ==> this.estate().out.subrange(
                            #[trigger] this.estate().function_positions[k],
                            this.estate().function_positions[k] + 11,
                        ) == prologue_bytes(fv[k].register_count * 8),
                forall|m: int, k: int|
                    0 <= m < this.estate().function_fixups.len() && 0 <= k < i
                    ==> (#[trigger] this.estate().function_fixups[m]).0
                            >= #[trigger] this.estate().function_positions[k] + 11
                        || this.estate().function_fixups[m].0 + 4
                            <= this.estate().function_positions[k],
            decreases functions@.len() - i,
        {
            let ghost rem = fv.subrange(i as int, fv.len() as int);
            let ghost stf = this.estate();
            proof {
                assert(rem[0] == fv[i as int]);
                assert(rem.drop_first() =~= fv.subrange(i + 1, fv.len() as int));
                assert(fv[i as int] == functions@[i as int]@);
                assert(emitable_fn(fv[i as int], fv.len() as int));
            }

            this.compile_function(&functions[i], Ghost(fv.len() as int));

            proof {
                assert(emit_functions_s(rem, stf)
                    == emit_functions_s(rem.drop_first(), this.estate()));
                let ghost fstart = stf.out.len() as int;
                assert(this.estate().function_positions[i as int] == fstart);
                assert forall|k: int| 0 <= k < i implies
                    this.estate().out.subrange(
                        #[trigger] this.estate().function_positions[k],
                        this.estate().function_positions[k] + 11,
                    ) == prologue_bytes(fv[k].register_count * 8) by {
                    assert(this.estate().function_positions[k]
                        == stf.function_positions[k]);
                    assert(this.estate().out.subrange(
                        stf.function_positions[k],
                        stf.function_positions[k] + 11,
                    ) =~= stf.out.subrange(
                        stf.function_positions[k],
                        stf.function_positions[k] + 11,
                    ));
                }
            }
            i = i + 1;
        }
        proof {
            assert(fv.subrange(fv.len() as int, fv.len() as int) =~= Seq::<FunctionModel>::empty());
        }

        // resolve inter-function call displacements against the recorded
        // function start offsets
        let ghost stA = this.estate();
        let ghost ffv = stA.function_fixups;
        proof {
            assert(ffv.subrange(0, ffv.len() as int) =~= ffv);
            assert(stA.function_positions.len() == fv.len());
        }
        let mut k: usize = 0;
        while k < this.function_fixups.len()
            invariant
                0 <= k <= this.function_fixups@.len(),
                this.estate().function_fixups == ffv,
                ffv.len() == this.function_fixups@.len(),
                this.estate().positions == stA.positions,
                this.estate().function_positions == stA.function_positions,
                this.estate().branch_fixups == stA.branch_fixups,
                this.estate().entry == stA.entry,
                this.estate().out.len() == stA.out.len(),
                apply_fixups_s(stA.out, ffv, stA.function_positions)
                    == apply_fixups_s(
                        this.estate().out,
                        ffv.subrange(k as int, ffv.len() as int),
                        stA.function_positions,
                    ),
                forall|q: int| 0 <= q < fv.len()
                    ==> this.estate().out.subrange(
                            #[trigger] this.estate().function_positions[q],
                            this.estate().function_positions[q] + 11,
                        ) == prologue_bytes(fv[q].register_count * 8),
            decreases this.function_fixups@.len() - k,
        {
            let ghost remf = ffv.subrange(k as int, ffv.len() as int);
            proof {
                assert(remf[0] == ffv[k as int]);
                assert(remf.drop_first() =~= ffv.subrange(k + 1, ffv.len() as int));
                assert(ffv[k as int]
                    == (this.function_fixups@[k as int].0 as int,
                        this.function_fixups@[k as int].1 as int));
                assert(0 <= ffv[k as int].1 < stA.function_positions.len());
            }
            let pt = this.function_fixups[k];
            let target_byte = this.function_positions[pt.1];
            proof {
                assert(target_byte as int == stA.function_positions[pt.1 as int]);
            }
            let ghost ste = this.estate();
            this.encode_relative_32(pt.0, target_byte);
            proof {
                assert(this.estate().out =~= write32(
                    ste.out,
                    ffv[k as int].0,
                    wrap32(stA.function_positions[ffv[k as int].1] - (ffv[k as int].0 + 4)),
                ));
                assert forall|q: int| 0 <= q < fv.len() implies
                    this.estate().out.subrange(
                        #[trigger] this.estate().function_positions[q],
                        this.estate().function_positions[q] + 11,
                    ) == prologue_bytes(fv[q].register_count * 8) by {
                    assert(ffv[k as int].0 >= this.estate().function_positions[q] + 11
                        || ffv[k as int].0 + 4 <= this.estate().function_positions[q]);
                    assert(this.estate().out.subrange(
                        this.estate().function_positions[q],
                        this.estate().function_positions[q] + 11,
                    ) =~= ste.out.subrange(
                        this.estate().function_positions[q],
                        this.estate().function_positions[q] + 11,
                    ));
                }
            }
            k = k + 1;
        }
        proof {
            assert(ffv.subrange(ffv.len() as int, ffv.len() as int)
                =~= Seq::<(int, int)>::empty());
            assert(this.estate().out == emit_program_s(fv, st0).out);
            assert(this.estate().entry == emit_program_s(fv, st0).entry);
            assert(emit_program_s(fv, st0).function_positions == stA.function_positions);
            assert(prologues_intact(fv, emit_program_s(fv, st0)));
        }

        let entry_point_offset = this.entry_point_offset;
        Executable::new(this.output, entry_point_offset)
    }
}

} // verus!
