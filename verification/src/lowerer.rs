use vstd::prelude::*;
use crate::hlir;
use crate::llir;
use crate::llir::{Instr, FunctionModel};

verus! {

/// The lowering state as mathematics: the functions produced so far and the
/// current function's map from local slot index to virtual register.
#[verifier::ext_equal]
pub struct LState {
    pub funcs: Seq<FunctionModel>,
    pub map: Seq<Option<int>>,
}

impl LState {
    /// Whether a function is being built (emission needs one).
    pub open spec fn has_cur(self) -> bool {
        self.funcs.len() > 0
    }

    pub open spec fn cur(self) -> FunctionModel {
        self.funcs.last()
    }

    pub open spec fn set_cur(self, f: FunctionModel) -> LState {
        LState { funcs: self.funcs.update(self.funcs.len() - 1, f), map: self.map }
    }

    /// The next virtual register to hand out.
    pub open spec fn regs(self) -> int {
        self.cur().register_count
    }

    pub open spec fn body_len(self) -> int {
        self.cur().body.len() as int
    }

    /// Appends one instruction to the current function.
    pub open spec fn emit_i(self, i: Instr) -> LState {
        self.set_cur(FunctionModel { body: self.cur().body.push(i), ..self.cur() })
    }

    /// Advances the register counter by one.
    pub open spec fn bump(self) -> LState {
        self.set_cur(FunctionModel { register_count: self.cur().register_count + 1, ..self.cur() })
    }

    /// Every produced function is well formed and every mapped local names a
    /// register below the current counter.
    pub open spec fn wf(self) -> bool {
        &&& forall|i: int| 0 <= i < self.funcs.len()
            ==> (#[trigger] self.funcs[i]).wf_loose()
        &&& forall|i: int| 0 <= i < self.map.len()
            ==> ((#[trigger] self.map[i]) matches Some(r)
                ==> self.has_cur() && 0 <= r < self.regs())
    }
}

/// The nodes whose lowering yields a value register.
pub open spec fn produces_value(node: hlir::Node) -> bool {
    match node {
        hlir::Node::I64(_) => true,
        hlir::Node::Local(_) => true,
        hlir::Node::Add { .. } => true,
        hlir::Node::Mul { .. } => true,
        hlir::Node::Equals { .. } => true,
        hlir::Node::Call { .. } => true,
        _ => false,
    }
}

/// The nodes the lowerer accepts inside a function body of `nlocals` local
/// slots: locals stay in range, every callee is a resolved function index,
/// every position that needs a value holds a value-producing node, and no
/// nested function or global scope appears.
pub open spec fn body_ok(node: hlir::Node, nlocals: int) -> bool
    decreases node,
{
    match node {
        hlir::Node::GlobalScope { .. } => false,
        hlir::Node::FunctionDefinition { .. } => false,
        hlir::Node::Function(_) => false,
        hlir::Node::ParameterDefinition(_) => false,
        hlir::Node::Block(nodes) => {
            forall|i: int| 0 <= i < nodes@.len()
                ==> body_ok(#[trigger] nodes@[i], nlocals)
        }
        hlir::Node::If { condition, true_branch, .. } => {
            &&& body_ok(*condition, nlocals)
            &&& produces_value(*condition)
            &&& body_ok(*true_branch, nlocals)
        }
        hlir::Node::Call { function, arguments } => {
            &&& *function is Function
            &&& forall|i: int| 0 <= i < arguments@.len()
                ==> body_ok(#[trigger] arguments@[i], nlocals)
                    && produces_value(arguments@[i])
        }
        hlir::Node::Ret { value } => {
            value matches Some(v) ==> body_ok(*v, nlocals) && produces_value(*v)
        }
        hlir::Node::Assignment { variable, value } => {
            &&& body_ok(*variable, nlocals)
            &&& produces_value(*variable)
            &&& body_ok(*value, nlocals)
            &&& produces_value(*value)
        }
        hlir::Node::Add { lhs, rhs } => {
            &&& body_ok(*lhs, nlocals)
            &&& produces_value(*lhs)
            &&& body_ok(*rhs, nlocals)
            &&& produces_value(*rhs)
        }
        hlir::Node::Mul { lhs, rhs } => {
            &&& body_ok(*lhs, nlocals)
            &&& produces_value(*lhs)
            &&& body_ok(*rhs, nlocals)
            &&& produces_value(*rhs)
        }
        hlir::Node::Equals { lhs, rhs } => {
            &&& body_ok(*lhs, nlocals)
            &&& produces_value(*lhs)
            &&& body_ok(*rhs, nlocals)
            &&& produces_value(*rhs)
        }
        hlir::Node::I64(_) => true,
        hlir::Node::Local(i) => 0 <= i < nlocals,
    }
}

/// How many virtual registers lowering a node can allocate, at most.
pub open spec fn w(node: hlir::Node) -> nat
    decreases node,
{
    match node {
        hlir::Node::I64(_) => 1,
        hlir::Node::Local(_) => 1,
        hlir::Node::Add { lhs, rhs } => 1 + w(*lhs) + w(*rhs),
        hlir::Node::Mul { lhs, rhs } => 1 + w(*lhs) + w(*rhs),
        hlir::Node::Equals { lhs, rhs } => 1 + w(*lhs) + w(*rhs),
        hlir::Node::Call { arguments, .. } => 1 + wlist(arguments@),
        hlir::Node::Block(nodes) => wlist(nodes@),
        hlir::Node::If { condition, true_branch, .. } => w(*condition) + w(*true_branch),
        hlir::Node::Ret { value } => match value {
            Some(v) => w(*v),
            None => 0,
        },
        hlir::Node::Assignment { variable, value } => w(*variable) + w(*value),
        _ => 0,
    }
}

pub open spec fn wlist(nodes: Seq<hlir::Node>) -> nat
    decreases nodes,
{
    if nodes.len() == 0 {
        0
    } else {
        w(nodes[0]) + wlist(nodes.drop_first())
    }
}

/// One function definition the lowerer accepts: parameters are parameter
/// nodes, the parameter slots fit inside the locals, the body is lowerable,
/// and the register demand stays far below the machine limit.
pub open spec fn fd_ok(node: hlir::Node) -> bool {
    node matches hlir::Node::FunctionDefinition { body, parameters, locals, .. } ==> {
        &&& parameters@.len() <= locals@.len()
        &&& forall|i: int| 0 <= i < parameters@.len()
            ==> (#[trigger] parameters@[i]) is ParameterDefinition
        &&& body_ok(*body, locals@.len() as int)
        &&& parameters@.len() + w(*body) <= 0xFFFF_FFFF
    }
}

/// What the public lowering entry accepts: a global scope of function
/// definitions, or one function definition.
pub open spec fn top_ok(node: hlir::Node) -> bool {
    match node {
        hlir::Node::GlobalScope { functions } => {
            forall|i: int| 0 <= i < functions@.len()
                ==> (#[trigger] functions@[i]) is FunctionDefinition && fd_ok(functions@[i])
        }
        hlir::Node::FunctionDefinition { .. } => fd_ok(node),
        _ => false,
    }
}

/// The byte width a parameter's value type occupies.
pub open spec fn param_size(node: hlir::Node) -> int {
    match node {
        hlir::Node::ParameterDefinition(t) => match t {
            hlir::ValueType::Unit => 0,
            hlir::ValueType::I64 => 8,
            hlir::ValueType::Boolean => 1,
        },
        _ => 0,
    }
}

/// Lowering a value-producing node: the new state and the register holding
/// the value.
pub open spec fn lower_value_s(node: hlir::Node, st: LState) -> (LState, int)
    decreases node, 0int,
{
    match node {
        hlir::Node::I64(x) => {
            let dst = st.regs();
            (st.bump().emit_i(Instr::MoveImmI64 { dst, imm: x }), dst)
        }
        hlir::Node::Local(i) => {
            if 0 <= i < st.map.len() && st.map[i as int] is Some {
                (st, st.map[i as int]->0)
            } else {
                let dst = st.regs();
                let st1 = st.bump();
                (LState { funcs: st1.funcs, map: st1.map.update(i as int, Some(dst)) }, dst)
            }
        }
        hlir::Node::Add { lhs, rhs } => {
            let dst = st.regs();
            let (st1, rl) = lower_value_s(*lhs, st.bump());
            let (st2, rr) = lower_value_s(*rhs, st1);
            (st2.emit_i(Instr::Add { dst, lhs: rl, rhs: rr }), dst)
        }
        hlir::Node::Mul { lhs, rhs } => {
            let dst = st.regs();
            let (st1, rl) = lower_value_s(*lhs, st.bump());
            let (st2, rr) = lower_value_s(*rhs, st1);
            (st2.emit_i(Instr::Mul { dst, lhs: rl, rhs: rr }), dst)
        }
        hlir::Node::Equals { lhs, rhs } => {
            let dst = st.regs();
            let (st1, rl) = lower_value_s(*lhs, st.bump());
            let (st2, rr) = lower_value_s(*rhs, st1);
            (st2.emit_i(Instr::Equals { dst, lhs: rl, rhs: rr }), dst)
        }
        hlir::Node::Call { function, arguments } => {
            let dst = st.regs();
            let fi = match *function {
                hlir::Node::Function(i) => i as int,
                _ => 0,
            };
            let (st1, args) = lower_args_s(arguments@, st.bump());
            (st1.emit_i(Instr::Call { dst, function: fi, arguments: args }), dst)
        }
        _ => (st, 0),
    }
}

/// Lowering a list of argument expressions left to right.
pub open spec fn lower_args_s(nodes: Seq<hlir::Node>, st: LState) -> (LState, Seq<int>)
    decreases nodes, 2int,
{
    if nodes.len() == 0 {
        (st, Seq::empty())
    } else {
        let (st1, r) = lower_value_s(nodes[0], st);
        let (st2, rest) = lower_args_s(nodes.drop_first(), st1);
        (st2, rest.insert(0, r))
    }
}

/// Lowering any node of a function body; statements yield no register.
pub open spec fn lower_any_s(node: hlir::Node, st: LState) -> (LState, Option<int>)
    decreases node, 1int,
{
    match node {
        hlir::Node::Block(nodes) => (lower_list_s(nodes@, st), None),
        hlir::Node::If { condition, true_branch, .. } => {
            let (st1, rc) = lower_value_s(*condition, st);
            let j = st1.body_len();
            let st2 = st1.emit_i(Instr::JumpOnZero { condition: rc, target: 0 });
            let st3 = lower_any_s(*true_branch, st2).0;
            let st4 = st3.set_cur(
                FunctionModel {
                    body: st3.cur().body.update(
                        j,
                        Instr::JumpOnZero { condition: rc, target: st3.body_len() },
                    ),
                    ..st3.cur()
                },
            );
            (st4, None)
        }
        hlir::Node::Ret { value } => match value {
            Some(v) => {
                let (st1, r) = lower_value_s(*v, st);
                (st1.emit_i(Instr::Return { value: Some(r) }), None)
            }
            None => (st.emit_i(Instr::Return { value: None }), None),
        },
        hlir::Node::Assignment { variable, value } => {
            let (st1, rd) = lower_value_s(*variable, st);
            let (st2, rs) = lower_value_s(*value, st1);
            (st2.emit_i(Instr::Move { dst: rd, src: rs }), None)
        }
        hlir::Node::I64(_) | hlir::Node::Local(_) | hlir::Node::Add { .. }
        | hlir::Node::Mul { .. } | hlir::Node::Equals { .. } | hlir::Node::Call { .. } => {
            let (st1, r) = lower_value_s(node, st);
            (st1, Some(r))
        }
        _ => (st, None),
    }
}

/// Lowering the statements of a block in order.
pub open spec fn lower_list_s(nodes: Seq<hlir::Node>, st: LState) -> LState
    decreases nodes, 2int,
{
    if nodes.len() == 0 {
        st
    } else {
        lower_list_s(nodes.drop_first(), lower_any_s(nodes[0], st).0)
    }
}

/// Lowering one function definition: parameters claim the first registers,
/// the body is lowered into a fresh instruction list, and the local map is
/// cleared afterwards.
pub open spec fn lower_fn_s(node: hlir::Node, st: LState) -> LState
    decreases node, 2int,
{
    match node {
        hlir::Node::FunctionDefinition { body, parameters, locals, is_entry_point, .. } => {
            let arity = parameters@.len() as int;
            let fm = FunctionModel {
                is_entry_point,
                parameters: parameters@.map_values(|p: hlir::Node| param_size(p)),
                body: Seq::empty(),
                register_count: arity,
            };
            let st1 = LState {
                funcs: st.funcs.push(fm),
                map: Seq::new(locals@.len(), |i: int| if i < arity { Some(i) } else { None }),
            };
            let st2 = lower_any_s(*body, st1).0;
            LState { funcs: st2.funcs, map: Seq::empty() }
        }
        _ => st,
    }
}

/// Lowering the functions of a global scope in order.
pub open spec fn lower_fns_s(nodes: Seq<hlir::Node>, st: LState) -> LState
    decreases nodes,
{
    if nodes.len() == 0 {
        st
    } else {
        lower_fns_s(nodes.drop_first(), lower_fn_s(nodes[0], st))
    }
}

/// The whole lowering pass.
pub open spec fn lower_top_s(node: hlir::Node, st: LState) -> LState
    decreases node, 3int,
{
    match node {
        hlir::Node::GlobalScope { functions } => lower_fns_s(functions@, st),
        hlir::Node::FunctionDefinition { .. } => lower_fn_s(node, st),
        _ => st,
    }
}

/// Lowering is a function of the HLIR alone: byte-identical HLIR trees lower
/// to identical LLIR, whatever they are.
pub proof fn lemma_lowering_deterministic(a: hlir::Node, b: hlir::Node, st: LState)
    requires a == b,
    ensures lower_top_s(a, st) == lower_top_s(b, st),
{
}

/// Adds with saturation at `u64::MAX`.
fn sat_add(a: u64, b: u64) -> (r: u64)
    ensures
        a + b <= u64::MAX ==> r == a + b,
        a + b > u64::MAX ==> r == u64::MAX,
{
    if a > u64::MAX - b {
        u64::MAX
    } else {
        a + b
    }
}

/// The register demand of a node, saturated at `u64::MAX`.
#[verifier::loop_isolation(false)]
fn weight_of(node: &hlir::Node) -> (r: u64)
    ensures
        w(*node) <= u64::MAX ==> r == w(*node),
        w(*node) > u64::MAX ==> r == u64::MAX,
    decreases *node, 0int,
{
    match node {
        hlir::Node::I64(_) => 1,
        hlir::Node::Local(_) => 1,
        hlir::Node::Add { lhs, rhs } | hlir::Node::Mul { lhs, rhs }
        | hlir::Node::Equals { lhs, rhs } => {
            let a = weight_of(lhs);
            let b = weight_of(rhs);
            sat_add(1, sat_add(a, b))
        }
        hlir::Node::Call { arguments, .. } => {
            let mut acc: u64 = 1;
            let mut i: usize = 0;
            let ghost argsv = arguments@;
            proof {
                assert(argsv.subrange(0, argsv.len() as int) =~= argsv);
            }
            while i < arguments.len()
                invariant
                    0 <= i <= argsv.len(),
                    1 + wlist(argsv) <= u64::MAX
                        ==> acc + wlist(argsv.subrange(i as int, argsv.len() as int))
                            == 1 + wlist(argsv),
                    1 + wlist(argsv) > u64::MAX ==> acc == u64::MAX
                        || acc + wlist(argsv.subrange(i as int, argsv.len() as int))
                            == 1 + wlist(argsv),
                    acc <= u64::MAX,
                decreases argsv.len() - i,
            {
                let ghost rem = argsv.subrange(i as int, argsv.len() as int);
                proof {
                    assert(rem[0] == argsv[i as int]);
                    assert(rem.drop_first() =~= argsv.subrange(i + 1, argsv.len() as int));
                    assert(wlist(rem) == w(rem[0]) + wlist(rem.drop_first()));
                }
                let a = weight_of(&arguments[i]);
                acc = sat_add(acc, a);
                i = i + 1;
            }
            proof {
                assert(argsv.subrange(argsv.len() as int, argsv.len() as int)
                    =~= Seq::<hlir::Node>::empty());
            }
            acc
        }
        hlir::Node::Block(nodes) => {
            let mut acc: u64 = 0;
            let mut i: usize = 0;
            let ghost nodesv = nodes@;
            proof {
                assert(nodesv.subrange(0, nodesv.len() as int) =~= nodesv);
            }
            while i < nodes.len()
                invariant
                    0 <= i <= nodesv.len(),
                    wlist(nodesv) <= u64::MAX
                        ==> acc + wlist(nodesv.subrange(i as int, nodesv.len() as int))
                            == wlist(nodesv),
                    wlist(nodesv) > u64::MAX ==> acc == u64::MAX
                        || acc + wlist(nodesv.subrange(i as int, nodesv.len() as int))
                            == wlist(nodesv),
                    acc <= u64::MAX,
                decreases nodesv.len() - i,
            {
                let ghost rem = nodesv.subrange(i as int, nodesv.len() as int);
                proof {
                    assert(rem[0] == nodesv[i as int]);
                    assert(rem.drop_first() =~= nodesv.subrange(i + 1, nodesv.len() as int));
                    assert(wlist(rem) == w(rem[0]) + wlist(rem.drop_first()));
                }
                let a = weight_of(&nodes[i]);
                acc = sat_add(acc, a);
                i = i + 1;
            }
            proof {
                assert(nodesv.subrange(nodesv.len() as int, nodesv.len() as int)
                    =~= Seq::<hlir::Node>::empty());
            }
            acc
        }
        hlir::Node::If { condition, true_branch, .. } => {
            let a = weight_of(condition);
            let b = weight_of(true_branch);
            sat_add(a, b)
        }
        hlir::Node::Ret { value } => match value {
            Some(v) => weight_of(v),
            None => 0,
        },
        hlir::Node::Assignment { variable, value } => {
            let a = weight_of(variable);
            let b = weight_of(value);
            sat_add(a, b)
        }
        _ => 0,
    }
}

/// Whether the lowerer accepts a node inside a body of `nlocals` locals.
#[verifier::loop_isolation(false)]
fn check_body(node: &hlir::Node, nlocals: usize) -> (r: bool)
    ensures r == body_ok(*node, nlocals as int),
    decreases *node, 1int,
{
    match node {
        hlir::Node::GlobalScope { .. } => false,
        hlir::Node::FunctionDefinition { .. } => false,
        hlir::Node::Function(_) => false,
        hlir::Node::ParameterDefinition(_) => false,
        hlir::Node::Block(nodes) => {
            let mut i: usize = 0;
            while i < nodes.len()
                invariant
                    0 <= i <= nodes@.len(),
                    forall|k: int| 0 <= k < i ==> body_ok(#[trigger] nodes@[k], nlocals as int),
                decreases nodes@.len() - i,
            {
                if !check_body(&nodes[i], nlocals) {
                    return false;
                }
                i = i + 1;
            }
            true
        }
        hlir::Node::If { condition, true_branch, .. } => {
            check_body(condition, nlocals) && check_value(condition)
                && check_body(true_branch, nlocals)
        }
        hlir::Node::Call { function, arguments } => {
            let callee_ok = match &**function {
                hlir::Node::Function(_) => true,
                _ => false,
            };
            if !callee_ok {
                return false;
            }
            let mut i: usize = 0;
            while i < arguments.len()
                invariant
                    0 <= i <= arguments@.len(),
                    forall|k: int| 0 <= k < i
                        ==> body_ok(#[trigger] arguments@[k], nlocals as int)
                            && produces_value(arguments@[k]),
                decreases arguments@.len() - i,
            {
                if !check_body(&arguments[i], nlocals) {
                    return false;
                }
                if !check_value(&arguments[i]) {
                    return false;
                }
                i = i + 1;
            }
            true
        }
        hlir::Node::Ret { value } => match value {
            Some(v) => check_body(v, nlocals) && check_value(v),
            None => true,
        },
        hlir::Node::Assignment { variable, value } => {
            check_body(variable, nlocals) && check_value(variable)
                && check_body(value, nlocals) && check_value(value)
        }
        hlir::Node::Add { lhs, rhs } | hlir::Node::Mul { lhs, rhs }
        | hlir::Node::Equals { lhs, rhs } => {
            check_body(lhs, nlocals) && check_value(lhs) && check_body(rhs, nlocals)
                && check_value(rhs)
        }
        hlir::Node::I64(_) => true,
        hlir::Node::Local(i) => *i < nlocals,
    }
}

/// Whether lowering the node yields a value register.
fn check_value(node: &hlir::Node) -> (r: bool)
    ensures r == produces_value(*node),
{
    match node {
        hlir::Node::I64(_) => true,
        hlir::Node::Local(_) => true,
        hlir::Node::Add { .. } => true,
        hlir::Node::Mul { .. } => true,
        hlir::Node::Equals { .. } => true,
        hlir::Node::Call { .. } => true,
        _ => false,
    }
}

/// Whether the lowerer accepts one function definition.
#[verifier::loop_isolation(false)]
fn check_fd(node: &hlir::Node) -> (r: bool)
    requires *node is FunctionDefinition,
    ensures r == fd_ok(*node),
{
    match node {
        hlir::Node::FunctionDefinition { body, parameters, locals, .. } => {
            if parameters.len() > locals.len() {
                return false;
            }
            let mut i: usize = 0;
            while i < parameters.len()
                invariant
                    0 <= i <= parameters@.len(),
                    forall|k: int| 0 <= k < i
                        ==> (#[trigger] parameters@[k]) is ParameterDefinition,
                decreases parameters@.len() - i,
            {
                let is_param = match &parameters[i] {
                    hlir::Node::ParameterDefinition(_) => true,
                    _ => false,
                };
                if !is_param {
                    return false;
                }
                i = i + 1;
            }
            if !check_body(body, locals.len()) {
                return false;
            }
            let wb = weight_of(body);
            let arity = parameters.len() as u64;
            if arity > 0xFFFF_FFFF || wb > 0xFFFF_FFFF - arity {
                return false;
            }
            true
        }
        _ => false,
    }
}

/// Whether `lower` accepts the node: used by embedders to test the input
/// before handing it to the lowering pass.
#[verifier::loop_isolation(false)]
pub fn check_lowerable(node: &hlir::Node) -> (r: bool)
    ensures r == top_ok(*node),
{
    match node {
        hlir::Node::GlobalScope { functions } => {
            let mut i: usize = 0;
            while i < functions.len()
                invariant
                    0 <= i <= functions@.len(),
                    forall|k: int| 0 <= k < i
                        ==> (#[trigger] functions@[k]) is FunctionDefinition
                            && fd_ok(functions@[k]),
                decreases functions@.len() - i,
            {
                let is_fd = match &functions[i] {
                    hlir::Node::FunctionDefinition { .. } => true,
                    _ => false,
                };
                if !is_fd {
                    return false;
                }
                if !check_fd(&functions[i]) {
                    return false;
                }
                i = i + 1;
            }
            true
        }
        hlir::Node::FunctionDefinition { .. } => check_fd(node),
        _ => false,
    }
}

/// The HLIR to LLIR lowering pass: walks the typed tree, allocates virtual
/// registers, and flattens control flow into instruction lists with resolved
/// branch targets.
pub struct Lowerer {
    functions: Vec<llir::Function>,
    locals: Vec<Option<usize>>,
}

impl Lowerer {
    /// The produced functions and the local-to-register map, as mathematics.
    pub closed spec fn lstate(self) -> LState {
        LState {
            funcs: self.functions@.map_values(|f: llir::Function| f@),
            map: self.locals@.map_values(
                |o: Option<usize>| match o {
                    Some(r) => Some(r as int),
                    None => None,
                },
            ),
        }
    }

    pub fn new() -> (r: Lowerer)
        ensures
            r.lstate().funcs == Seq::<FunctionModel>::empty(),
            r.lstate().map == Seq::<Option<int>>::empty(),
            r.lstate().wf(),
    {
        let r = Lowerer { functions: Vec::new(), locals: Vec::new() };
        proof {
            assert(r.lstate().funcs =~= Seq::<FunctionModel>::empty());
            assert(r.lstate().map =~= Seq::<Option<int>>::empty());
        }
        r
    }

    /// Hands out the next virtual register of the current function.
    fn register(&mut self) -> (r: llir::Register)
        requires
            old(self).lstate().has_cur(),
            old(self).lstate().regs() < usize::MAX,
        ensures
            final(self).lstate() == old(self).lstate().bump(),
            r.0 as int == old(self).lstate().regs(),
    {
        let idx = self.functions.len() - 1;
        proof {
            assert(old(self).lstate().funcs.last() == self.functions@[idx as int]@);
        }
        let f = &mut self.functions[idx];
        let r = llir::Register(f.register_count);
        f.register_count = f.register_count + 1;
        proof {
            assert(self.lstate().funcs =~~= old(self).lstate().bump().funcs);
            assert(self.lstate().map =~~= old(self).lstate().bump().map);
        }
        r
    }

    /// Appends one instruction to the current function's body, returning its
    /// index.
    fn emit(&mut self, node: llir::Node) -> (r: usize)
        requires
            old(self).lstate().has_cur(),
        ensures
            final(self).lstate() == old(self).lstate().emit_i(node@),
            r as int == old(self).lstate().body_len(),
    {
        let idx = self.functions.len() - 1;
        proof {
            assert(old(self).lstate().funcs.last() == self.functions@[idx as int]@);
        }
        let f = &mut self.functions[idx];
        let r = f.body.len();
        f.body.push(node);
        proof {
            assert(self.lstate().funcs =~~= old(self).lstate().emit_i(node@).funcs);
            assert(self.lstate().map =~~= old(self).lstate().emit_i(node@).map);
        }
        r
    }

    /// The index the next emitted instruction would get.
    fn label(&self) -> (r: usize)
        requires
            self.lstate().has_cur(),
        ensures
            r as int == self.lstate().body_len(),
    {
        let idx = self.functions.len() - 1;
        proof {
            assert(self.lstate().funcs.last() == self.functions@[idx as int]@);
        }
        self.functions[idx].body.len()
    }

    /// Lowers one value-producing node, returning the register that holds
    /// its value.
    #[verifier::loop_isolation(false)]
    fn lower_value(&mut self, node: &hlir::Node) -> (r: llir::Register)
        requires
            old(self).lstate().has_cur(),
            body_ok(*node, old(self).lstate().map.len() as int),
            produces_value(*node),
            old(self).lstate().regs() + w(*node) <= usize::MAX,
        ensures
            final(self).lstate() == lower_value_s(*node, old(self).lstate()).0,
            r.0 as int == lower_value_s(*node, old(self).lstate()).1,
            final(self).lstate().map.len() == old(self).lstate().map.len(),
            final(self).lstate().funcs.len() == old(self).lstate().funcs.len(),
            final(self).lstate().has_cur(),
            old(self).lstate().regs() <= final(self).lstate().regs()
                <= old(self).lstate().regs() + w(*node),
            old(self).lstate().body_len() <= final(self).lstate().body_len(),
            old(self).lstate().wf() ==> final(self).lstate().wf()
                && 0 <= r.0 as int && (r.0 as int) < final(self).lstate().regs(),
        decreases *node, 0int,
    {
        proof {
            assert(old(self).lstate().regs() >= 0);
        }
        match node {
            hlir::Node::I64(x) => {
                let dst = self.register();
                self.emit(llir::Node::MoveImmI64 { dst, imm: *x });
                dst
            }
            hlir::Node::Local(i) => {
                let i = *i;
                if let Some(rr) = self.locals[i] {
                    llir::Register(rr)
                } else {
                    let dst = self.register();
                    self.locals[i] = Some(dst.0);
                    proof {
                        let st1 = old(self).lstate().bump();
                        assert(self.lstate().funcs =~~= st1.funcs);
                        assert(self.lstate().map
                            =~= st1.map.update(i as int, Some(dst.0 as int)));
                    }
                    dst
                }
            }
            hlir::Node::Add { lhs, rhs } => {
                let dst = self.register();
                let rl = self.lower_value(lhs);
                let rr = self.lower_value(rhs);
                self.emit(llir::Node::Add { dst, lhs: rl, rhs: rr });
                dst
            }
            hlir::Node::Mul { lhs, rhs } => {
                let dst = self.register();
                let rl = self.lower_value(lhs);
                let rr = self.lower_value(rhs);
                self.emit(llir::Node::Mul { dst, lhs: rl, rhs: rr });
                dst
            }
            hlir::Node::Equals { lhs, rhs } => {
                let dst = self.register();
                let rl = self.lower_value(lhs);
                let rr = self.lower_value(rhs);
                self.emit(llir::Node::Equals { dst, lhs: rl, rhs: rr });
                dst
            }
            hlir::Node::Call { function, arguments } => {
                let dst = self.register();
                let fi = if let hlir::Node::Function(i) = &**function {
                    *i
                } else {
                    0
                };
                let args = self.lower_args(arguments);
                self.emit(llir::Node::Call { dst, function: fi, arguments: args });
                dst
            }
            _ => {
                // Excluded by `produces_value`.
                llir::Register(0)
            }
        }
    }

    /// Lowers a call's argument expressions left to right, collecting the
    /// registers that hold their values.
    #[verifier::loop_isolation(false)]
    fn lower_args(&mut self, v: &Vec<hlir::Node>) -> (r: Vec<llir::Register>)
        requires
            old(self).lstate().has_cur(),
            forall|i: int| 0 <= i < v@.len()
                ==> body_ok(#[trigger] v@[i], old(self).lstate().map.len() as int)
                    && produces_value(v@[i]),
            old(self).lstate().regs() + wlist(v@) <= usize::MAX,
        ensures
            final(self).lstate() == lower_args_s(v@, old(self).lstate()).0,
            r@.map_values(|g: llir::Register| g.0 as int) == lower_args_s(v@, old(self).lstate()).1,
            final(self).lstate().map.len() == old(self).lstate().map.len(),
            final(self).lstate().funcs.len() == old(self).lstate().funcs.len(),
            final(self).lstate().has_cur(),
            old(self).lstate().regs() <= final(self).lstate().regs()
                <= old(self).lstate().regs() + wlist(v@),
            old(self).lstate().body_len() <= final(self).lstate().body_len(),
            old(self).lstate().wf() ==> final(self).lstate().wf()
                && forall|k: int| 0 <= k < r@.len()
                    ==> 0 <= (#[trigger] r@[k]).0 as int && ((r@[k]).0 as int) < final(self).lstate().regs(),
        decreases v, 0int,
    {
        let ghost st0 = old(self).lstate();
        let ghost full = v@;
        let mut regs: Vec<llir::Register> = Vec::new();
        let mut i: usize = 0;
        proof {
            assert(full.subrange(0, full.len() as int) =~= full);
            assert(regs@.map_values(|g: llir::Register| g.0 as int) + lower_args_s(full, st0).1
                =~= lower_args_s(full, st0).1);
        }
        while i < v.len()
            invariant
                0 <= i <= v@.len(),
                self.lstate().has_cur(),
                self.lstate().map.len() == st0.map.len(),
                self.lstate().funcs.len() == st0.funcs.len(),
                st0.regs() <= self.lstate().regs(),
                st0.body_len() <= self.lstate().body_len(),
                self.lstate().regs() + wlist(v@.subrange(i as int, v@.len() as int))
                    <= st0.regs() + wlist(v@),
                lower_args_s(v@, st0).0
                    == lower_args_s(v@.subrange(i as int, v@.len() as int), self.lstate()).0,
                lower_args_s(v@, st0).1 =~= regs@.map_values(|g: llir::Register| g.0 as int)
                    + lower_args_s(v@.subrange(i as int, v@.len() as int), self.lstate()).1,
                st0.wf() ==> self.lstate().wf()
                    && forall|k: int| 0 <= k < regs@.len()
                        ==> 0 <= (#[trigger] regs@[k]).0 as int && ((regs@[k]).0 as int) < self.lstate().regs(),
            decreases v@.len() - i,
        {
            let ghost rem = v@.subrange(i as int, v@.len() as int);
            let ghost stb = self.lstate();
            proof {
                assert(rem[0] == v@[i as int]);
                assert(rem.drop_first() =~= v@.subrange(i + 1, v@.len() as int));
                assert(wlist(rem) == w(rem[0]) + wlist(rem.drop_first()));
            }
            let g = self.lower_value(&v[i]);
            regs.push(g);
            proof {
                let ghost prev = regs@.drop_last();
                assert(prev =~= regs@.subrange(0, regs@.len() - 1));
                let (stx, rx) = lower_value_s(v@[i as int], stb);
                let (sty, rest) = lower_args_s(rem.drop_first(), stx);
                assert(lower_args_s(rem, stb) == (sty, rest.insert(0, rx)));
                assert(prev.map_values(|q: llir::Register| q.0 as int)
                    + rest.insert(0, rx)
                    =~= regs@.map_values(|q: llir::Register| q.0 as int) + rest);
            }
            i = i + 1;
        }
        proof {
            assert(v@.subrange(v@.len() as int, v@.len() as int) =~= Seq::<hlir::Node>::empty());
            assert(lower_args_s(Seq::<hlir::Node>::empty(), self.lstate())
                == (self.lstate(), Seq::<int>::empty()));
            assert(regs@.map_values(|g: llir::Register| g.0 as int)
                + Seq::<int>::empty()
                =~= regs@.map_values(|g: llir::Register| g.0 as int));
        }
        regs
    }

    /// Lowers any body node; statements yield `None`, value nodes the
    /// register holding their value.
    #[verifier::loop_isolation(false)]
    fn lower_node(&mut self, node: &hlir::Node) -> (r: Option<llir::Register>)
        requires
            old(self).lstate().has_cur(),
            body_ok(*node, old(self).lstate().map.len() as int),
            old(self).lstate().regs() + w(*node) <= usize::MAX,
        ensures
            final(self).lstate() == lower_any_s(*node, old(self).lstate()).0,
            (match r {
                Some(g) => Some(g.0 as int),
                None => None,
            }) == lower_any_s(*node, old(self).lstate()).1,
            final(self).lstate().map.len() == old(self).lstate().map.len(),
            final(self).lstate().funcs.len() == old(self).lstate().funcs.len(),
            final(self).lstate().has_cur(),
            old(self).lstate().regs() <= final(self).lstate().regs()
                <= old(self).lstate().regs() + w(*node),
            old(self).lstate().body_len() <= final(self).lstate().body_len(),
            old(self).lstate().wf() ==> final(self).lstate().wf(),
        decreases *node, 1int,
    {
        proof {
            assert(old(self).lstate().regs() >= 0);
        }
        match node {
            hlir::Node::Block(nodes) => {
                let ghost st0 = old(self).lstate();
                let mut i: usize = 0;
                proof {
                    assert(nodes@.subrange(0, nodes@.len() as int) =~= nodes@);
                }
                while i < nodes.len()
                    invariant
                        0 <= i <= nodes@.len(),
                        self.lstate().has_cur(),
                        self.lstate().map.len() == st0.map.len(),
                        self.lstate().funcs.len() == st0.funcs.len(),
                        st0.regs() <= self.lstate().regs(),
                        st0.body_len() <= self.lstate().body_len(),
                        self.lstate().regs() + wlist(nodes@.subrange(i as int, nodes@.len() as int))
                            <= st0.regs() + wlist(nodes@),
                        lower_list_s(nodes@, st0)
                            == lower_list_s(
                                nodes@.subrange(i as int, nodes@.len() as int),
                                self.lstate(),
                            ),
                        st0.wf() ==> self.lstate().wf(),
                    decreases nodes@.len() - i,
                {
                    let ghost rem = nodes@.subrange(i as int, nodes@.len() as int);
                    proof {
                        assert(rem[0] == nodes@[i as int]);
                        assert(rem.drop_first() =~= nodes@.subrange(i + 1, nodes@.len() as int));
                        assert(wlist(rem) == w(rem[0]) + wlist(rem.drop_first()));
                    }
                    self.lower_node(&nodes[i]);
                    i = i + 1;
                }
                proof {
                    assert(nodes@.subrange(nodes@.len() as int, nodes@.len() as int)
                        =~= Seq::<hlir::Node>::empty());
                }
                None
            }
            hlir::Node::If { condition, true_branch, .. } => {
                let rc = self.lower_value(condition);
                let jmp = self.emit(llir::Node::JumpOnZero { condition: rc, target: 0 });
                self.lower_node(true_branch);
                let end = self.label();
                let idx = self.functions.len() - 1;
                proof {
                    assert(self.lstate().funcs.last() == self.functions@[idx as int]@);
                    assert(jmp < self.functions@[idx as int].body@.len());
                }
                let f = &mut self.functions[idx];
                f.body[jmp] = llir::Node::JumpOnZero { condition: rc, target: end };
                proof {
                    let spec4 = lower_any_s(*node, old(self).lstate()).0;
                    assert(self.lstate().funcs =~~= spec4.funcs);
                    assert(self.lstate().map =~~= spec4.map);
                }
                None
            }
            hlir::Node::Ret { value } => {
                match value {
                    Some(v) => {
                        let rr = self.lower_value(v);
                        self.emit(llir::Node::Return { value: Some(rr) });
                    }
                    None => {
                        self.emit(llir::Node::Return { value: None });
                    }
                }
                None
            }
            hlir::Node::Assignment { variable, value } => {
                let rd = self.lower_value(variable);
                let rs = self.lower_value(value);
                self.emit(llir::Node::Move { dst: rd, src: rs });
                None
            }
            hlir::Node::I64(_) | hlir::Node::Local(_) | hlir::Node::Add { .. }
            | hlir::Node::Mul { .. } | hlir::Node::Equals { .. } | hlir::Node::Call { .. } => {
                let g = self.lower_value(node);
                Some(g)
            }
            _ => {
                // Excluded by `body_ok`.
                None
            }
        }
    }

    /// Lowers one function definition: parameters claim the first registers
    /// and record their byte widths, the body is lowered into a fresh
    /// instruction list, and the local map is cleared afterwards.
    #[verifier::loop_isolation(false)]
    fn lower_function(&mut self, node: &hlir::Node)
        requires
            *node is FunctionDefinition,
            fd_ok(*node),
        ensures
            final(self).lstate() == lower_fn_s(*node, old(self).lstate()),
            final(self).lstate().funcs.len() == old(self).lstate().funcs.len() + 1,
            final(self).lstate().has_cur(),
            old(self).lstate().wf() ==> final(self).lstate().wf(),
    {
        match node {
            hlir::Node::FunctionDefinition { body, parameters, locals, is_entry_point, .. } => {
                let parameter_count = parameters.len();

                let mut sizes: Vec<usize> = Vec::new();
                let mut k: usize = 0;
                while k < parameters.len()
                    invariant
                        0 <= k <= parameters@.len(),
                        sizes@.len() == k,
                        forall|j: int| 0 <= j < k
                            ==> ((#[trigger] sizes@[j]) as int) == param_size(parameters@[j]),
                    decreases parameters@.len() - k,
                {
                    let p = &parameters[k];
                    let sz: usize = match p {
                        hlir::Node::ParameterDefinition(t) => match t {
                            hlir::ValueType::Unit => 0,
                            hlir::ValueType::I64 => 8,
                            hlir::ValueType::Boolean => 1,
                        },
                        // Excluded by `fd_ok`.
                        _ => 0,
                    };
                    proof {
                        assert(param_size(parameters@[k as int]) == sz as int);
                    }
                    sizes.push(sz);
                    k = k + 1;
                }
                proof {
                    assert(sizes@.map_values(|q: usize| q as int)
                        =~= parameters@.map_values(|q: hlir::Node| param_size(q)));
                }

                self.locals = Vec::new();
                let n = locals.len();
                let mut k2: usize = 0;
                while k2 < n
                    invariant
                        0 <= k2 <= n,
                        self.locals@.len() == k2,
                        forall|j: int| 0 <= j < k2
                            ==> self.locals@[j] == if j < parameter_count as int {
                                Some(j as usize)
                            } else {
                                None::<usize>
                            },
                        self.functions == old(self).functions,
                    decreases n - k2,
                {
                    if k2 < parameter_count {
                        self.locals.push(Some(k2));
                    } else {
                        self.locals.push(None);
                    }
                    k2 = k2 + 1;
                }

                self.functions.push(llir::Function {
                    is_entry_point: *is_entry_point,
                    parameters: sizes,
                    body: Vec::new(),
                    register_count: parameter_count,
                });

                let ghost st1 = self.lstate();
                proof {
                    let arity = parameters@.len() as int;
                    let fm = FunctionModel {
                        is_entry_point: *is_entry_point,
                        parameters: parameters@.map_values(|p: hlir::Node| param_size(p)),
                        body: Seq::empty(),
                        register_count: arity,
                    };
                    assert(st1.funcs =~~= old(self).lstate().funcs.push(fm));
                    assert(st1.map =~= Seq::new(
                        locals@.len(),
                        |i: int| if i < arity { Some(i) } else { None },
                    ));
                    assert(st1.has_cur());
                    assert(st1.cur() =~~= fm);
                    assert(st1.regs() == arity);
                    assert(old(self).lstate().wf() ==> st1.wf());
                }

                self.lower_node(body);
                self.locals = Vec::new();
                proof {
                    assert(self.lstate().map =~= Seq::<Option<int>>::empty());
                }
            }
            _ => {}
        }
    }

    /// The whole lowering pass over a program or one function definition.
    /// On a well-formed lowerer every produced function keeps its registers
    /// below `register_count` and its branch targets within (or one past)
    /// its body.
    #[verifier::loop_isolation(false)]
    pub fn lower(&mut self, node: hlir::Node) -> (r: Option<llir::Register>)
        requires
            top_ok(node),
        ensures
            final(self).lstate() == lower_top_s(node, old(self).lstate()),
            r is None,
            old(self).lstate().wf() ==> final(self).lstate().wf(),
    {
        match &node {
            hlir::Node::GlobalScope { functions } => {
                let ghost st0 = old(self).lstate();
                let mut i: usize = 0;
                proof {
                    assert(functions@.subrange(0, functions@.len() as int) =~= functions@);
                }
                while i < functions.len()
                    invariant
                        0 <= i <= functions@.len(),
                        lower_fns_s(functions@, st0)
                            == lower_fns_s(
                                functions@.subrange(i as int, functions@.len() as int),
                                self.lstate(),
                            ),
                        st0.wf() ==> self.lstate().wf(),
                    decreases functions@.len() - i,
                {
                    let ghost rem = functions@.subrange(i as int, functions@.len() as int);
                    proof {
                        assert(rem[0] == functions@[i as int]);
                        assert(rem.drop_first()
                            =~= functions@.subrange(i + 1, functions@.len() as int));
                    }
                    self.lower_function(&functions[i]);
                    i = i + 1;
                }
                proof {
                    assert(functions@.subrange(functions@.len() as int, functions@.len() as int)
                        =~= Seq::<hlir::Node>::empty());
                }
            }
            hlir::Node::FunctionDefinition { .. } => {
                self.lower_function(&node);
            }
            _ => {}
        }
        None
    }

    /// Hands the produced functions out.
    pub fn get(self) -> (r: Vec<llir::Function>)
        ensures
            r@.map_values(|f: llir::Function| f@) == self.lstate().funcs,
    {
        self.functions
    }
}

} // verus!
