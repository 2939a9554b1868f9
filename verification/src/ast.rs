use vstd::prelude::*;
use crate::error::CompileError;
use crate::hlir;
use crate::hlir::{Context, CtxModel, NodeModel, ValueType};
use crate::operator::Operator;

verus! {

/// The reserved entry-point name, as source bytes: `main`.
pub open spec fn main_name() -> Seq<u8> {
    seq![109u8, 97u8, 105u8, 110u8]
}

/// One expression or statement of the syntax tree.
#[derive(Debug)]
pub enum Node {
    BinaryOperation(BinaryOperation),
    Call(Call),
    If(If),
    Integer(Integer),
    Return(Return),
    Scope(Scope),
    VariableDefinition(VariableDefinition),
    VariableLookup(VariableLookup),
}

#[derive(Debug)]
pub struct BinaryOperation {
    pub lhs: Box<Node>,
    pub rhs: Box<Node>,
    pub op: Operator,
}

#[derive(Debug)]
pub struct Call {
    pub function: Box<Node>,
    pub arguments: Vec<Node>,
}

#[derive(Debug)]
pub struct If {
    pub condition: Box<Node>,
    pub true_branch: Scope,
    pub false_branch: Option<Scope>,
}

#[derive(Debug)]
pub struct Integer {
    pub value: i64,
}

#[derive(Debug)]
pub struct Return {
    pub value: Option<Box<Node>>,
}

#[derive(Debug)]
pub struct Scope {
    pub nodes: Vec<Node>,
}

#[derive(Debug)]
pub struct VariableDefinition {
    pub name: Vec<u8>,
    pub value: Box<Node>,
}

#[derive(Debug)]
pub struct VariableLookup {
    pub identifier: Vec<u8>,
}

#[derive(Debug)]
pub struct ParameterDefinition {
    pub name: Vec<u8>,
    pub typ: Vec<u8>,
}

#[derive(Debug)]
pub struct FunctionDefinition {
    pub name: Vec<u8>,
    pub parameters: Vec<ParameterDefinition>,
    pub return_type: usize,
    pub body: Scope,
}

#[derive(Debug)]
pub struct GlobalScope {
    pub functions: Vec<FunctionDefinition>,
}

impl BinaryOperation {
    pub fn new(lhs: Box<Node>, rhs: Box<Node>, op: Operator) -> (r: BinaryOperation)
        ensures r.lhs == lhs && r.rhs == rhs && r.op == op,
    {
        BinaryOperation { lhs, rhs, op }
    }
}

impl Call {
    pub fn new(function: Box<Node>, arguments: Vec<Node>) -> (r: Call)
        ensures r.function == function && r.arguments == arguments,
    {
        Call { function, arguments }
    }
}

impl If {
    pub fn new(condition: Box<Node>, true_branch: Scope, false_branch: Option<Scope>) -> (r: If)
        ensures
            r.condition == condition && r.true_branch == true_branch
                && r.false_branch == false_branch,
    {
        If { condition, true_branch, false_branch }
    }
}

impl Integer {
    pub fn new(value: i64) -> (r: Integer)
        ensures r.value == value,
    {
        Integer { value }
    }
}

impl Return {
    pub fn new(value: Option<Box<Node>>) -> (r: Return)
        ensures r.value == value,
    {
        Return { value }
    }
}

impl Scope {
    pub fn new(nodes: Vec<Node>) -> (r: Scope)
        ensures r.nodes == nodes,
    {
        Scope { nodes }
    }
}

impl VariableDefinition {
    pub fn new(name: Vec<u8>, value: Box<Node>) -> (r: VariableDefinition)
        ensures r.name == name && r.value == value,
    {
        VariableDefinition { name, value }
    }
}

impl VariableLookup {
    pub fn new(identifier: Vec<u8>) -> (r: VariableLookup)
        ensures r.identifier == identifier,
    {
        VariableLookup { identifier }
    }
}

impl ParameterDefinition {
    pub fn new(name: Vec<u8>, typ: Vec<u8>) -> (r: ParameterDefinition)
        ensures r.name == name && r.typ == typ,
    {
        ParameterDefinition { name, typ }
    }
}

impl FunctionDefinition {
    pub fn new(
        name: Vec<u8>,
        parameters: Vec<ParameterDefinition>,
        return_type: usize,
        body: Scope,
    ) -> (r: FunctionDefinition)
        ensures
            r.name == name && r.parameters == parameters && r.return_type == return_type
                && r.body == body,
    {
        FunctionDefinition { name, parameters, return_type, body }
    }
}

impl GlobalScope {
    pub fn new() -> (r: GlobalScope)
        ensures r.functions@ == Seq::<FunctionDefinition>::empty(),
    {
        GlobalScope { functions: Vec::new() }
    }

    pub fn push_function(&mut self, function: FunctionDefinition)
        ensures final(self).functions@ == old(self).functions@.push(function),
    {
        self.functions.push(function);
    }
}

/// The declaration pass as mathematics: each function name registered in
/// order against the running count.
pub open spec fn declare_fns_s(fs: Seq<FunctionDefinition>, m: CtxModel) -> CtxModel
    decreases fs,
{
    if fs.len() == 0 {
        m
    } else {
        declare_fns_s(fs.drop_first(), m.define_function(fs[0].name@))
    }
}

/// The id the declaration pass gives to `n`: functions are numbered from
/// `base` in order, and a repeated name keeps the id of its last occurrence.
pub open spec fn find_declared(names: Seq<Seq<u8>>, base: int, n: Seq<u8>) -> Option<int>
    decreases names.len(),
{
    if names.len() == 0 {
        None
    } else if names.last() == n {
        Some(base + names.len() - 1)
    } else {
        find_declared(names.drop_last(), base, n)
    }
}

impl GlobalScope {
    /// The declaration pass: registers every function name, in order, so
    /// that bodies may reference functions defined later.
    #[verifier::loop_isolation(false)]
    pub fn define_functions(&self, ctx: &mut Context)
        requires
            old(ctx).function_count_spec() + self.functions@.len() <= usize::MAX,
        ensures
            final(ctx).function_count_spec()
                == old(ctx).function_count_spec() + self.functions@.len(),
            forall|n: Seq<u8>| final(ctx).find_function_spec(n)
                == (match find_declared(
                    self.functions@.map_values(|f: FunctionDefinition| f.name@),
                    old(ctx).function_count_spec() as int,
                    n,
                ) {
                    Some(id) => Some(id as usize),
                    None => old(ctx).find_function_spec(n),
                }),
            forall|n: Seq<u8>|
                final(ctx).find_variable_spec(n) == old(ctx).find_variable_spec(n),
            final(ctx).locals_spec() == old(ctx).locals_spec(),
            final(ctx).scope_depth() == old(ctx).scope_depth(),
            old(ctx).wf() ==> final(ctx).wf(),
            final(ctx).model() == declare_fns_s(self.functions@, old(ctx).model()),
    {
        let ghost base = old(ctx).function_count_spec() as int;
        let ghost names = self.functions@.map_values(|f: FunctionDefinition| f.name@);
        let ghost full = self.functions@;
        let mut i: usize = 0;
        proof {
            assert(full.subrange(0, full.len() as int) =~= full);
        }
        while i < self.functions.len()
            invariant
                0 <= i <= self.functions@.len(),
                ctx.function_count_spec() == base + i,
                forall|n: Seq<u8>| ctx.find_function_spec(n)
                    == (match find_declared(names.subrange(0, i as int), base, n) {
                        Some(id) => Some(id as usize),
                        None => old(ctx).find_function_spec(n),
                    }),
                forall|n: Seq<u8>|
                    ctx.find_variable_spec(n) == old(ctx).find_variable_spec(n),
                ctx.locals_spec() == old(ctx).locals_spec(),
                ctx.scope_depth() == old(ctx).scope_depth(),
                old(ctx).wf() ==> ctx.wf(),
                declare_fns_s(full, old(ctx).model())
                    == declare_fns_s(full.subrange(i as int, full.len() as int), ctx.model()),
            decreases self.functions@.len() - i,
        {
            let ghost rem = full.subrange(i as int, full.len() as int);
            proof {
                assert(rem[0] == full[i as int]);
                assert(rem.drop_first() =~= full.subrange(i + 1, full.len() as int));
            }
            let name = crate::hlir::copy_bytes(&self.functions[i].name);
            ctx.define_function(name);
            proof {
                assert(names.subrange(0, i + 1).drop_last() =~= names.subrange(0, i as int));
                assert(names.subrange(0, i + 1).last() == names[i as int]);
                assert(names[i as int] == self.functions@[i as int].name@);
            }
            i = i + 1;
        }
        proof {
            assert(names.subrange(0, names.len() as int) =~= names);
            assert(full.subrange(full.len() as int, full.len() as int)
                =~= Seq::<FunctionDefinition>::empty());
        }
    }
}

/// The generate pass as mathematics: from an AST node and a context model to
/// the new context model and the produced typed IR node or the first error.
/// Each `generate` method's result and context change are fixed exactly by
/// these functions.
pub open spec fn gen_node_s(node: Node, m: CtxModel) -> (CtxModel, Result<NodeModel, CompileError>)
    decreases node, 1int,
{
    match node {
        Node::BinaryOperation(b) => gen_binop_s(b, m),
        Node::Call(c) => gen_call_s(c, m),
        Node::If(i) => gen_if_s(i, m),
        Node::Integer(i) => (m, Ok(NodeModel::I64(i.value))),
        Node::Return(r) => gen_return_s(r, m),
        Node::Scope(sc) => gen_scope_s(sc, m),
        Node::VariableDefinition(v) => gen_vardef_s(v, m),
        Node::VariableLookup(v) => gen_lookup_s(v, m),
    }
}

/// A name resolves to the nearest local first, then to a function;
/// otherwise it is the unresolved-identifier error.
pub open spec fn gen_lookup_s(v: VariableLookup, m: CtxModel) -> (CtxModel, Result<NodeModel, CompileError>) {
    match m.find_variable(v.identifier@) {
        Some(b) => (m, Ok(NodeModel::Local(b.0))),
        None => match m.find_function(v.identifier@) {
            Some(id) => (m, Ok(NodeModel::Function(id))),
            None => (m, Err(CompileError::UnknownIdentifier)),
        },
    }
}

/// Both operands are generated left first; an operand error propagates,
/// unequal (or undetermined) operand types are the type-mismatch error, and
/// the operator picks the node, with `Sub`, `Div` and `NotEqual` refused.
pub open spec fn gen_binop_s(b: BinaryOperation, m: CtxModel) -> (CtxModel, Result<NodeModel, CompileError>)
    decreases b, 0int,
{
    let (m1, r1) = gen_node_s(*b.lhs, m);
    match r1 {
        Err(e) => (m1, Err(e)),
        Ok(lhs) => {
            let (m2, r2) = gen_node_s(*b.rhs, m1);
            match r2 {
                Err(e) => (m2, Err(e)),
                Ok(rhs) => {
                    if !(typed_ok_s(lhs) && typed_ok_s(rhs) && type_of_s(lhs) == type_of_s(rhs)) {
                        (m2, Err(CompileError::TypeMismatch))
                    } else {
                        match b.op {
                            Operator::Add => (m2, Ok(NodeModel::Add {
                                lhs: Box::new(lhs),
                                rhs: Box::new(rhs),
                            })),
                            Operator::Mul => (m2, Ok(NodeModel::Mul {
                                lhs: Box::new(lhs),
                                rhs: Box::new(rhs),
                            })),
                            Operator::Equal => (m2, Ok(NodeModel::Equals {
                                lhs: Box::new(lhs),
                                rhs: Box::new(rhs),
                            })),
                            Operator::Assignment => (m2, Ok(NodeModel::Assignment {
                                variable: Box::new(lhs),
                                value: Box::new(rhs),
                            })),
                            _ => (m2, Err(CompileError::UnsupportedOperator)),
                        }
                    }
                }
            }
        }
    }
}

/// The callee is generated first, then the arguments left to right; any
/// error propagates unchanged.
pub open spec fn gen_call_s(c: Call, m: CtxModel) -> (CtxModel, Result<NodeModel, CompileError>)
    decreases c, 0int,
{
    let (m1, r1) = gen_node_s(*c.function, m);
    match r1 {
        Err(e) => (m1, Err(e)),
        Ok(function) => {
            let (m2, r2) = gen_list_s(c.arguments@, m1);
            match r2 {
                Err(e) => (m2, Err(e)),
                Ok(arguments) => (m2, Ok(NodeModel::Call {
                    function: Box::new(function),
                    arguments,
                })),
            }
        }
    }
}

/// The optional return value is generated; an error propagates.
pub open spec fn gen_return_s(r: Return, m: CtxModel) -> (CtxModel, Result<NodeModel, CompileError>)
    decreases r, 0int,
{
    match r.value {
        Some(v) => {
            let (m1, r1) = gen_node_s(*v, m);
            match r1 {
                Err(e) => (m1, Err(e)),
                Ok(value) => (m1, Ok(NodeModel::Ret { value: Some(Box::new(value)) })),
            }
        }
        None => (m, Ok(NodeModel::Ret { value: None })),
    }
}

/// The initializer is generated before the name is bound, so it cannot
/// reference the variable being defined; the new local takes the next slot.
pub open spec fn gen_vardef_s(v: VariableDefinition, m: CtxModel) -> (CtxModel, Result<NodeModel, CompileError>)
    decreases v, 0int,
{
    let (m1, r1) = gen_node_s(*v.value, m);
    match r1 {
        Err(e) => (m1, Err(e)),
        Ok(value) => {
            let index = m1.locals.len() as int;
            let m2 = m1.define_variable(v.name@, ValueType::I64);
            (m2, Ok(NodeModel::Assignment {
                variable: Box::new(NodeModel::Local(index)),
                value: Box::new(value),
            }))
        }
    }
}

/// The condition and the true branch are generated in order; then the
/// condition must carry type `Boolean`, else the build fails with the
/// expected-Boolean error.  A parsed else branch is not carried through.
pub open spec fn gen_if_s(i: If, m: CtxModel) -> (CtxModel, Result<NodeModel, CompileError>)
    decreases i, 0int,
{
    let (m1, r1) = gen_node_s(*i.condition, m);
    match r1 {
        Err(e) => (m1, Err(e)),
        Ok(condition) => {
            let (m2, r2) = gen_scope_s(i.true_branch, m1);
            match r2 {
                Err(e) => (m2, Err(e)),
                Ok(true_branch) => {
                    if !(typed_ok_s(condition) && type_of_s(condition) == ValueType::Boolean) {
                        (m2, Err(CompileError::ExpectedBoolean))
                    } else {
                        (m2, Ok(NodeModel::If {
                            condition: Box::new(condition),
                            true_branch: Box::new(true_branch),
                            false_branch: None,
                        }))
                    }
                }
            }
        }
    }
}

/// A block opens a scope, generates its statements in order (the first
/// error returns at once, with the scope left open for the caller's error
/// path), and pops the scope on success.
pub open spec fn gen_scope_s(sc: Scope, m: CtxModel) -> (CtxModel, Result<NodeModel, CompileError>)
    decreases sc, 0int,
{
    let (m1, r1) = gen_list_s(sc.nodes@, m.push_scope());
    match r1 {
        Err(e) => (m1, Err(e)),
        Ok(nodes) => (m1.pop_scope(), Ok(NodeModel::Block(nodes))),
    }
}

/// A node list, generated in order; the first error wins and nothing after
/// it is generated.
pub open spec fn gen_list_s(nodes: Seq<Node>, m: CtxModel) -> (CtxModel, Result<Seq<NodeModel>, CompileError>)
    decreases nodes, 2int,
{
    if nodes.len() == 0 {
        (m, Ok(Seq::empty()))
    } else {
        let (m1, r1) = gen_node_s(nodes[0], m);
        match r1 {
            Err(e) => (m1, Err(e)),
            Ok(h) => {
                let (m2, r2) = gen_list_s(nodes.drop_first(), m1);
                match r2 {
                    Err(e) => (m2, Err(e)),
                    Ok(rest) => (m2, Ok(rest.insert(0, h))),
                }
            }
        }
    }
}

/// A parameter is registered as an `I64` local in the innermost scope; its
/// type annotation is accepted but ignored.
pub open spec fn gen_param_s(p: ParameterDefinition, m: CtxModel) -> (CtxModel, NodeModel) {
    (m.define_variable(p.name@, ValueType::I64), NodeModel::ParameterDefinition(ValueType::I64))
}

/// The parameters, registered and generated in declaration order.
pub open spec fn gen_params_s(ps: Seq<ParameterDefinition>, m: CtxModel) -> (CtxModel, Seq<NodeModel>)
    decreases ps,
{
    if ps.len() == 0 {
        (m, Seq::empty())
    } else {
        let (m1, h) = gen_param_s(ps[0], m);
        let (m2, rest) = gen_params_s(ps.drop_first(), m1);
        (m2, rest.insert(0, h))
    }
}

/// One function: a pushed scope, the parameters in order, the body, a
/// snapshot of the local slots (parameters included, taken before the scope
/// pops), no declared result, and the entry flag for the name `main`.
pub open spec fn gen_fndef_s(f: FunctionDefinition, m: CtxModel) -> (CtxModel, Result<NodeModel, CompileError>)
    decreases f, 0int,
{
    let (m1, parameters) = gen_params_s(f.parameters@, m.push_scope());
    let (m2, rb) = gen_scope_s(f.body, m1);
    match rb {
        Err(e) => (m2, Err(e)),
        Ok(body) => {
            let locals = m2.locals;
            (m2.pop_scope(), Ok(NodeModel::FunctionDefinition {
                body: Box::new(body),
                parameters,
                result: None,
                locals,
                is_entry_point: f.name@ == main_name(),
            }))
        }
    }
}

/// The function definitions of a program, generated in order; the first
/// error wins.
pub open spec fn gen_fns_s(fs: Seq<FunctionDefinition>, m: CtxModel) -> (CtxModel, Result<Seq<NodeModel>, CompileError>)
    decreases fs,
{
    if fs.len() == 0 {
        (m, Ok(Seq::empty()))
    } else {
        let (m1, r1) = gen_fndef_s(fs[0], m);
        match r1 {
            Err(e) => (m1, Err(e)),
            Ok(h) => {
                let (m2, r2) = gen_fns_s(fs.drop_first(), m1);
                match r2 {
                    Err(e) => (m2, Err(e)),
                    Ok(rest) => (m2, Ok(rest.insert(0, h))),
                }
            }
        }
    }
}

/// A whole program: exactly one typed IR function per syntax function, in
/// source order, or the first error with no partial output.
pub open spec fn gen_global_s(g: GlobalScope, m: CtxModel) -> (CtxModel, Result<NodeModel, CompileError>)
    decreases g, 3int,
{
    let (m1, r1) = gen_fns_s(g.functions@, m);
    match r1 {
        Err(e) => (m1, Err(e)),
        Ok(functions) => (m1, Ok(NodeModel::GlobalScope { functions })),
    }
}

/// The type a model node carries, where defined — the model mirror of
/// `Node::type_spec` and `Node::type_ok`.
pub open spec fn type_of_s(n: NodeModel) -> ValueType
    decreases n,
{
    match n {
        NodeModel::Call { .. } => ValueType::I64,
        NodeModel::Add { lhs, .. } => type_of_s(*lhs),
        NodeModel::Mul { lhs, .. } => type_of_s(*lhs),
        NodeModel::Equals { .. } => ValueType::Boolean,
        NodeModel::I64(_) => ValueType::I64,
        NodeModel::Local(_) => ValueType::I64,
        NodeModel::ParameterDefinition(_) => ValueType::I64,
        _ => ValueType::Unit,
    }
}

pub open spec fn typed_ok_s(n: NodeModel) -> bool
    decreases n,
{
    match n {
        NodeModel::Call { function, .. } => *function is Function,
        NodeModel::Add { lhs, rhs } => {
            typed_ok_s(*lhs) && typed_ok_s(*rhs) && type_of_s(*lhs) == type_of_s(*rhs)
        }
        NodeModel::Mul { lhs, rhs } => {
            typed_ok_s(*lhs) && typed_ok_s(*rhs) && type_of_s(*lhs) == type_of_s(*rhs)
        }
        NodeModel::Equals { lhs, rhs } => {
            typed_ok_s(*lhs) && typed_ok_s(*rhs) && type_of_s(*lhs) == type_of_s(*rhs)
        }
        _ => true,
    }
}

/// The model mirrors the exec type rules node for node.
pub proof fn lemma_type_of_model(n: hlir::Node)
    ensures
        type_of_s(hlir::model_of(n)) == n.type_spec(),
        typed_ok_s(hlir::model_of(n)) == n.type_ok(),
    decreases n,
{
    match n {
        hlir::Node::Add { lhs, rhs } => {
            lemma_type_of_model(*lhs);
            lemma_type_of_model(*rhs);
        }
        hlir::Node::Mul { lhs, rhs } => {
            lemma_type_of_model(*lhs);
            lemma_type_of_model(*rhs);
        }
        hlir::Node::Equals { lhs, rhs } => {
            lemma_type_of_model(*lhs);
            lemma_type_of_model(*rhs);
        }
        hlir::Node::Call { function, .. } => {
            if *function is Function {
                assert(hlir::model_of(*function) is Function);
            } else {
                assert(!(hlir::model_of(*function) is Function)) by {
                    match *function {
                        hlir::Node::Function(_) => {}
                        _ => {}
                    }
                }
            }
        }
        _ => {}
    }
}

/// A generate result as a model: the produced node's model, or the error.
pub open spec fn result_model(r: Result<hlir::Node, CompileError>) -> Result<NodeModel, CompileError> {
    match r {
        Ok(h) => Ok(hlir::model_of(h)),
        Err(e) => Err(e),
    }
}

/// Whether generating the node may bind a variable outside any scope the
/// node opens itself; such nodes need an open scope in the context.
pub open spec fn needs_scope(node: Node) -> bool
    decreases node,
{
    match node {
        Node::VariableDefinition(_) => true,
        Node::BinaryOperation(b) => needs_scope(*b.lhs) || needs_scope(*b.rhs),
        Node::Call(c) => {
            needs_scope(*c.function)
                || exists|i: int| 0 <= i < c.arguments@.len()
                    && needs_scope(#[trigger] c.arguments@[i])
        }
        Node::Return(r) => r.value matches Some(v) && needs_scope(*v),
        Node::If(i) => needs_scope(*i.condition),
        _ => false,
    }
}

impl Node {
    /// The generate pass for one node: resolves names against the context
    /// and produces a well-typed HLIR node, or the first semantic error.
    pub fn generate(&self, ctx: &mut Context) -> (r: Result<hlir::Node, CompileError>)
        requires
            old(ctx).scope_depth() > 0 || !needs_scope(*self),
        ensures
            r matches Ok(h) ==> h.typed(),
            forall|n: Seq<u8>|
                final(ctx).find_function_spec(n) == old(ctx).find_function_spec(n),
            final(ctx).function_count_spec() == old(ctx).function_count_spec(),
            old(ctx).wf() ==> final(ctx).wf(),
            r is Ok ==> final(ctx).scope_depth() == old(ctx).scope_depth(),
            final(ctx).model() == gen_node_s(*self, old(ctx).model()).0,
            result_model(r) == gen_node_s(*self, old(ctx).model()).1,
        decreases *self, 1int,
    {
        match self {
            Node::BinaryOperation(b) => b.generate(ctx),
            Node::Call(c) => c.generate(ctx),
            Node::If(i) => i.generate(ctx),
            Node::Integer(i) => i.generate(ctx),
            Node::Return(rt) => rt.generate(ctx),
            Node::Scope(sc) => sc.generate(ctx),
            Node::VariableDefinition(v) => v.generate(ctx),
            Node::VariableLookup(v) => v.generate(ctx),
        }
    }
}

impl Integer {
    pub fn generate(&self, ctx: &mut Context) -> (r: Result<hlir::Node, CompileError>)
        ensures
            r == Ok::<hlir::Node, CompileError>(hlir::Node::I64(self.value)),
            *final(ctx) == *old(ctx),
            result_model(r) == Ok::<NodeModel, CompileError>(NodeModel::I64(self.value)),
        decreases *self, 0int,
    {
        Ok(hlir::Node::I64(self.value))
    }
}

impl VariableLookup {
    /// A name resolves to the nearest local binding first, then to a
    /// function; an unbound name is the `UnknownIdentifier` error.
    pub fn generate(&self, ctx: &mut Context) -> (r: Result<hlir::Node, CompileError>)
        ensures
            *final(ctx) == *old(ctx),
            r == (match old(ctx).find_variable_spec(self.identifier@) {
                Some(b) => Ok::<hlir::Node, CompileError>(hlir::Node::Local(b.0)),
                None => match old(ctx).find_function_spec(self.identifier@) {
                    Some(id) => Ok::<hlir::Node, CompileError>(hlir::Node::Function(id)),
                    None => Err::<hlir::Node, CompileError>(CompileError::UnknownIdentifier),
                },
            }),
            r matches Ok(h) ==> h.typed(),
            final(ctx).model() == gen_lookup_s(*self, old(ctx).model()).0,
            result_model(r) == gen_lookup_s(*self, old(ctx).model()).1,
        decreases *self, 0int,
    {
        if let Some((index, _)) = ctx.find_variable(&self.identifier) {
            Ok(hlir::Node::Local(index))
        } else if let Some(index) = ctx.find_function(&self.identifier) {
            Ok(hlir::Node::Function(index))
        } else {
            Err(CompileError::UnknownIdentifier)
        }
    }
}

impl BinaryOperation {
    /// Both operands are generated, must carry equal value types, and the
    /// operator picks the HLIR node; subtraction, division and inequality
    /// are reserved and refused.
    pub fn generate(&self, ctx: &mut Context) -> (r: Result<hlir::Node, CompileError>)
        requires
            old(ctx).scope_depth() > 0 || !needs_scope(Node::BinaryOperation(*self)),
        ensures
            r matches Ok(h) ==> h.typed(),
            forall|n: Seq<u8>|
                final(ctx).find_function_spec(n) == old(ctx).find_function_spec(n),
            final(ctx).function_count_spec() == old(ctx).function_count_spec(),
            old(ctx).wf() ==> final(ctx).wf(),
            r is Ok ==> final(ctx).scope_depth() == old(ctx).scope_depth(),
            (self.op is Sub || self.op is Div || self.op is NotEqual) ==> r is Err,
            final(ctx).model() == gen_binop_s(*self, old(ctx).model()).0,
            result_model(r) == gen_binop_s(*self, old(ctx).model()).1,
        decreases *self, 0int,
    {
        let lhs = self.lhs.generate(ctx)?;
        let rhs = self.rhs.generate(ctx)?;
        proof {
            lemma_type_of_model(lhs);
            lemma_type_of_model(rhs);
        }

        let lt = lhs.try_get_type();
        let rt = rhs.try_get_type();
        let same = match (lt, rt) {
            (Some(a), Some(b)) => a == b,
            _ => false,
        };
        if !same {
            return Err(CompileError::TypeMismatch);
        }

        match self.op {
            Operator::Add => Ok(hlir::Node::Add { lhs: Box::new(lhs), rhs: Box::new(rhs) }),
            Operator::Mul => Ok(hlir::Node::Mul { lhs: Box::new(lhs), rhs: Box::new(rhs) }),
            Operator::Equal => Ok(hlir::Node::Equals { lhs: Box::new(lhs), rhs: Box::new(rhs) }),
            Operator::Assignment => Ok(hlir::Node::Assignment {
                variable: Box::new(lhs),
                value: Box::new(rhs),
            }),
            Operator::Sub | Operator::Div | Operator::NotEqual => {
                Err(CompileError::UnsupportedOperator)
            }
        }
    }
}

impl Call {
    #[verifier::loop_isolation(false)]
    pub fn generate(&self, ctx: &mut Context) -> (r: Result<hlir::Node, CompileError>)
        requires
            old(ctx).scope_depth() > 0 || !needs_scope(Node::Call(*self)),
        ensures
            r matches Ok(h) ==> h.typed() && h is Call,
            forall|n: Seq<u8>|
                final(ctx).find_function_spec(n) == old(ctx).find_function_spec(n),
            final(ctx).function_count_spec() == old(ctx).function_count_spec(),
            old(ctx).wf() ==> final(ctx).wf(),
            r is Ok ==> final(ctx).scope_depth() == old(ctx).scope_depth(),
            final(ctx).model() == gen_call_s(*self, old(ctx).model()).0,
            result_model(r) == gen_call_s(*self, old(ctx).model()).1,
        decreases *self, 0int,
    {
        let function = self.function.generate(ctx)?;
        let ghost m1 = ctx.model();
        let ghost full = self.arguments@;

        let mut arguments: Vec<hlir::Node> = Vec::new();
        let mut i: usize = 0;
        proof {
            assert(full.subrange(0, full.len() as int) =~= full);
            assert(hlir::models_of(arguments@) =~= Seq::<NodeModel>::empty());
        }
        while i < self.arguments.len()
            invariant
                0 <= i <= self.arguments@.len(),
                forall|k: int| 0 <= k < arguments@.len()
                    ==> (#[trigger] arguments@[k]).typed(),
                forall|n: Seq<u8>|
                    ctx.find_function_spec(n) == old(ctx).find_function_spec(n),
                ctx.function_count_spec() == old(ctx).function_count_spec(),
                old(ctx).wf() ==> ctx.wf(),
                ctx.scope_depth() == old(ctx).scope_depth(),
                old(ctx).scope_depth() > 0
                    || forall|k: int| i <= k < self.arguments@.len()
                        ==> !needs_scope(#[trigger] self.arguments@[k]),
                gen_list_s(full, m1).0
                    == gen_list_s(full.subrange(i as int, full.len() as int), ctx.model()).0,
                gen_list_s(full, m1).1
                    == (match gen_list_s(full.subrange(i as int, full.len() as int), ctx.model()).1 {
                        Ok(rest) => Ok(hlir::models_of(arguments@) + rest),
                        Err(e) => Err::<Seq<NodeModel>, CompileError>(e),
                    }),
            decreases self.arguments@.len() - i,
        {
            let ghost rem = full.subrange(i as int, full.len() as int);
            proof {
                assert(rem[0] == full[i as int]);
                assert(rem.drop_first() =~= full.subrange(i + 1, full.len() as int));
            }
            let a = self.arguments[i].generate(ctx)?;
            proof {
                assert((arguments@.push(a)).drop_last() =~= arguments@);
                assert(hlir::models_of(arguments@.push(a))
                    =~= hlir::models_of(arguments@).push(hlir::model_of(a)));
                let (mx, rx) = gen_list_s(rem.drop_first(), ctx.model());
                match rx {
                    Ok(rest) => {
                        assert(hlir::models_of(arguments@).push(hlir::model_of(a)) + rest
                            =~= hlir::models_of(arguments@)
                                + rest.insert(0, hlir::model_of(a)));
                    }
                    Err(_) => {}
                }
            }
            arguments.push(a);
            i += 1;
        }
        proof {
            assert(full.subrange(full.len() as int, full.len() as int)
                =~= Seq::<Node>::empty());
            assert(hlir::models_of(arguments@) + Seq::<NodeModel>::empty()
                =~= hlir::models_of(arguments@));
        }

        let h = hlir::Node::Call { function: Box::new(function), arguments };
        proof {
            let ghost rr = gen_call_s(*self, old(ctx).model()).1;
            match rr {
                Ok(hm) => {
                    assert(hlir::model_of(h) =~~= hm);
                }
                Err(_) => {}
            }
        }
        Ok(h)
    }
}

impl Return {
    pub fn generate(&self, ctx: &mut Context) -> (r: Result<hlir::Node, CompileError>)
        requires
            old(ctx).scope_depth() > 0 || !needs_scope(Node::Return(*self)),
        ensures
            r matches Ok(h) ==> h.typed() && h is Ret,
            forall|n: Seq<u8>|
                final(ctx).find_function_spec(n) == old(ctx).find_function_spec(n),
            final(ctx).function_count_spec() == old(ctx).function_count_spec(),
            old(ctx).wf() ==> final(ctx).wf(),
            r is Ok ==> final(ctx).scope_depth() == old(ctx).scope_depth(),
            final(ctx).model() == gen_return_s(*self, old(ctx).model()).0,
            result_model(r) == gen_return_s(*self, old(ctx).model()).1,
        decreases *self, 0int,
    {
        let value = match &self.value {
            Some(x) => Some(Box::new(x.generate(ctx)?)),
            None => None,
        };
        Ok(hlir::Node::Ret { value })
    }
}

impl VariableDefinition {
    /// `let name = value;` — the initializer is generated first, then the
    /// name is bound, so an initializer cannot reference its own variable.
    pub fn generate(&self, ctx: &mut Context) -> (r: Result<hlir::Node, CompileError>)
        requires
            old(ctx).scope_depth() > 0,
        ensures
            r matches Ok(h) ==> h.typed() && h is Assignment,
            forall|n: Seq<u8>|
                final(ctx).find_function_spec(n) == old(ctx).find_function_spec(n),
            final(ctx).function_count_spec() == old(ctx).function_count_spec(),
            old(ctx).wf() ==> final(ctx).wf(),
            r is Ok ==> final(ctx).scope_depth() == old(ctx).scope_depth(),
            final(ctx).model() == gen_vardef_s(*self, old(ctx).model()).0,
            result_model(r) == gen_vardef_s(*self, old(ctx).model()).1,
        decreases *self, 0int,
    {
        let value = self.value.generate(ctx)?;
        let ghost vm = hlir::model_of(value);
        let name = crate::hlir::copy_bytes(&self.name);
        let index = ctx.define_variable(name, ValueType::I64);

        let h = hlir::Node::Assignment {
            variable: Box::new(hlir::Node::Local(index)),
            value: Box::new(value),
        };
        proof {
            assert(hlir::Node::Local(index).typed());
            assert(h.typed());
            let ghost m0 = old(ctx).model();
            let ghost step = gen_node_s(*self.value, m0);
            assert(step.1 == Ok::<NodeModel, CompileError>(vm));
            assert(index as int == step.0.locals.len());
            assert(hlir::model_of(hlir::Node::Local(index)) == NodeModel::Local(index as int));
            assert(hlir::model_of(h) == NodeModel::Assignment {
                variable: Box::new(NodeModel::Local(index as int)),
                value: Box::new(vm),
            });
            assert(gen_vardef_s(*self, m0).1 == Ok::<NodeModel, CompileError>(
                NodeModel::Assignment {
                    variable: Box::new(NodeModel::Local(index as int)),
                    value: Box::new(vm),
                },
            ));
        }
        Ok(h)
    }
}

impl If {
    /// The condition must be Boolean; the false branch is accepted by the
    /// parser but not carried into the HLIR.
    pub fn generate(&self, ctx: &mut Context) -> (r: Result<hlir::Node, CompileError>)
        requires
            old(ctx).scope_depth() > 0 || !needs_scope(Node::If(*self)),
        ensures
            r matches Ok(h) ==> h.typed() && h is If,
            forall|n: Seq<u8>|
                final(ctx).find_function_spec(n) == old(ctx).find_function_spec(n),
            final(ctx).function_count_spec() == old(ctx).function_count_spec(),
            old(ctx).wf() ==> final(ctx).wf(),
            r is Ok ==> final(ctx).scope_depth() == old(ctx).scope_depth(),
            final(ctx).model() == gen_if_s(*self, old(ctx).model()).0,
            result_model(r) == gen_if_s(*self, old(ctx).model()).1,
        decreases *self, 0int,
    {
        let condition = self.condition.generate(ctx)?;
        let true_branch = self.true_branch.generate(ctx)?;
        proof {
            lemma_type_of_model(condition);
        }

        let ct = condition.try_get_type();
        let boolean = match ct {
            Some(t) => t == ValueType::Boolean,
            None => false,
        };
        if !boolean {
            return Err(CompileError::ExpectedBoolean);
        }

        Ok(hlir::Node::If {
            condition: Box::new(condition),
            true_branch: Box::new(true_branch),
            false_branch: None,
        })
    }
}

impl Scope {
    /// A block opens its own lexical scope, generates its statements in
    /// order, and closes the scope again.
    #[verifier::loop_isolation(false)]
    pub fn generate(&self, ctx: &mut Context) -> (r: Result<hlir::Node, CompileError>)
        ensures
            r matches Ok(h) ==> h.typed() && h is Block,
            forall|n: Seq<u8>|
                final(ctx).find_function_spec(n) == old(ctx).find_function_spec(n),
            final(ctx).function_count_spec() == old(ctx).function_count_spec(),
            old(ctx).wf() ==> final(ctx).wf(),
            r is Ok ==> final(ctx).scope_depth() == old(ctx).scope_depth(),
            final(ctx).model() == gen_scope_s(*self, old(ctx).model()).0,
            result_model(r) == gen_scope_s(*self, old(ctx).model()).1,
        decreases *self, 0int,
    {
        let mut ret: Vec<hlir::Node> = Vec::new();
        ctx.push_scope();
        let ghost m1 = ctx.model();
        let ghost full = self.nodes@;

        let mut i: usize = 0;
        proof {
            assert(full.subrange(0, full.len() as int) =~= full);
            assert(hlir::models_of(ret@) =~= Seq::<NodeModel>::empty());
        }
        while i < self.nodes.len()
            invariant
                0 <= i <= self.nodes@.len(),
                forall|k: int| 0 <= k < ret@.len() ==> (#[trigger] ret@[k]).typed(),
                forall|n: Seq<u8>|
                    ctx.find_function_spec(n) == old(ctx).find_function_spec(n),
                ctx.function_count_spec() == old(ctx).function_count_spec(),
                old(ctx).wf() ==> ctx.wf(),
                ctx.scope_depth() == old(ctx).scope_depth() + 1,
                gen_list_s(full, m1).0
                    == gen_list_s(full.subrange(i as int, full.len() as int), ctx.model()).0,
                gen_list_s(full, m1).1
                    == (match gen_list_s(full.subrange(i as int, full.len() as int), ctx.model()).1 {
                        Ok(rest) => Ok(hlir::models_of(ret@) + rest),
                        Err(e) => Err::<Seq<NodeModel>, CompileError>(e),
                    }),
            decreases self.nodes@.len() - i,
        {
            let ghost rem = full.subrange(i as int, full.len() as int);
            proof {
                assert(rem[0] == full[i as int]);
                assert(rem.drop_first() =~= full.subrange(i + 1, full.len() as int));
            }
            let h = self.nodes[i].generate(ctx)?;
            proof {
                assert((ret@.push(h)).drop_last() =~= ret@);
                assert(hlir::models_of(ret@.push(h))
                    =~= hlir::models_of(ret@).push(hlir::model_of(h)));
                let (mx, rx) = gen_list_s(rem.drop_first(), ctx.model());
                match rx {
                    Ok(rest) => {
                        assert(hlir::models_of(ret@).push(hlir::model_of(h)) + rest
                            =~= hlir::models_of(ret@)
                                + rest.insert(0, hlir::model_of(h)));
                    }
                    Err(_) => {}
                }
            }
            ret.push(h);
            i += 1;
        }
        proof {
            assert(full.subrange(full.len() as int, full.len() as int)
                =~= Seq::<Node>::empty());
            assert(hlir::models_of(ret@) + Seq::<NodeModel>::empty()
                =~= hlir::models_of(ret@));
        }

        ctx.pop_scope();
        let h = hlir::Node::Block(ret);
        proof {
            let ghost rr = gen_scope_s(*self, old(ctx).model()).1;
            match rr {
                Ok(hm) => {
                    assert(hlir::model_of(h) =~~= hm);
                }
                Err(_) => {}
            }
        }
        Ok(h)
    }
}

impl ParameterDefinition {
    /// Parameter type annotations are accepted but ignored: every parameter
    /// is registered as an `I64` local.
    pub fn generate(&self, ctx: &mut Context) -> (r: Result<hlir::Node, CompileError>)
        requires
            old(ctx).scope_depth() > 0,
        ensures
            r == Ok::<hlir::Node, CompileError>(
                hlir::Node::ParameterDefinition(ValueType::I64),
            ),
            final(ctx).locals_spec() == old(ctx).locals_spec().push(ValueType::I64),
            final(ctx).find_variable_spec(self.name@)
                == Some((old(ctx).locals_spec().len() as usize, ValueType::I64)),
            forall|n: Seq<u8>| n != self.name@
                ==> final(ctx).find_variable_spec(n) == old(ctx).find_variable_spec(n),
            forall|n: Seq<u8>|
                final(ctx).find_function_spec(n) == old(ctx).find_function_spec(n),
            final(ctx).function_count_spec() == old(ctx).function_count_spec(),
            final(ctx).scope_depth() == old(ctx).scope_depth(),
            old(ctx).wf() ==> final(ctx).wf(),
            final(ctx).model() == gen_param_s(*self, old(ctx).model()).0,
            result_model(r) == Ok::<NodeModel, CompileError>(
                gen_param_s(*self, old(ctx).model()).1,
            ),
    {
        let name = crate::hlir::copy_bytes(&self.name);
        ctx.define_variable(name, ValueType::I64);
        Ok(hlir::Node::ParameterDefinition(ValueType::I64))
    }
}

impl FunctionDefinition {
    /// Declares nothing itself (the declare pass did); opens the function
    /// scope, registers the parameters, generates the body, snapshots the
    /// local slots, and marks the function named `main` as the entry point.
    #[verifier::loop_isolation(false)]
    pub fn generate(&self, ctx: &mut Context) -> (r: Result<hlir::Node, CompileError>)
        ensures
            r matches Ok(h) ==> h.typed() && h is FunctionDefinition
                && h->FunctionDefinition_is_entry_point == (self.name@ == main_name()),
            forall|n: Seq<u8>|
                final(ctx).find_function_spec(n) == old(ctx).find_function_spec(n),
            final(ctx).function_count_spec() == old(ctx).function_count_spec(),
            old(ctx).wf() ==> final(ctx).wf(),
            r is Ok ==> final(ctx).scope_depth() == old(ctx).scope_depth(),
            final(ctx).model() == gen_fndef_s(*self, old(ctx).model()).0,
            result_model(r) == gen_fndef_s(*self, old(ctx).model()).1,
        decreases *self, 0int,
    {
        ctx.push_scope();
        let ghost m1 = ctx.model();
        let ghost full = self.parameters@;

        let mut parameters: Vec<hlir::Node> = Vec::new();
        let mut i: usize = 0;
        proof {
            assert(full.subrange(0, full.len() as int) =~= full);
            assert(hlir::models_of(parameters@) =~= Seq::<NodeModel>::empty());
        }
        while i < self.parameters.len()
            invariant
                0 <= i <= self.parameters@.len(),
                forall|k: int| 0 <= k < parameters@.len()
                    ==> (#[trigger] parameters@[k]).typed(),
                forall|n: Seq<u8>|
                    ctx.find_function_spec(n) == old(ctx).find_function_spec(n),
                ctx.function_count_spec() == old(ctx).function_count_spec(),
                old(ctx).wf() ==> ctx.wf(),
                ctx.scope_depth() == old(ctx).scope_depth() + 1,
                gen_params_s(full, m1).0
                    == gen_params_s(full.subrange(i as int, full.len() as int), ctx.model()).0,
                gen_params_s(full, m1).1
                    == hlir::models_of(parameters@)
                        + gen_params_s(full.subrange(i as int, full.len() as int), ctx.model()).1,
            decreases self.parameters@.len() - i,
        {
            let ghost rem = full.subrange(i as int, full.len() as int);
            proof {
                assert(rem[0] == full[i as int]);
                assert(rem.drop_first() =~= full.subrange(i + 1, full.len() as int));
            }
            let p = self.parameters[i].generate(ctx)?;
            proof {
                assert((parameters@.push(p)).drop_last() =~= parameters@);
                assert(hlir::models_of(parameters@.push(p))
                    =~= hlir::models_of(parameters@).push(hlir::model_of(p)));
                let (mx, rest) = gen_params_s(rem.drop_first(), ctx.model());
                assert(hlir::models_of(parameters@).push(hlir::model_of(p)) + rest
                    =~= hlir::models_of(parameters@) + rest.insert(0, hlir::model_of(p)));
            }
            parameters.push(p);
            i += 1;
        }
        proof {
            assert(full.subrange(full.len() as int, full.len() as int)
                =~= Seq::<ParameterDefinition>::empty());
            assert(hlir::models_of(parameters@) + Seq::<NodeModel>::empty()
                =~= hlir::models_of(parameters@));
        }

        let body = self.body.generate(ctx)?;
        let locals = crate::hlir::copy_types(ctx.local_variables());
        ctx.pop_scope();

        let is_entry_point = is_main(&self.name);
        let h = hlir::Node::FunctionDefinition {
            body: Box::new(body),
            parameters,
            result: None,
            locals,
            is_entry_point,
        };
        proof {
            let ghost rr = gen_fndef_s(*self, old(ctx).model()).1;
            match rr {
                Ok(hm) => {
                    assert(hlir::model_of(h) =~~= hm);
                }
                Err(_) => {}
            }
        }
        Ok(h)
    }
}

impl GlobalScope {
    /// The generate pass over a whole program: each function in order.
    #[verifier::loop_isolation(false)]
    pub fn generate(&self, ctx: &mut Context) -> (r: Result<hlir::Node, CompileError>)
        ensures
            r matches Ok(h) ==> h.typed() && h is GlobalScope,
            forall|n: Seq<u8>|
                final(ctx).find_function_spec(n) == old(ctx).find_function_spec(n),
            final(ctx).function_count_spec() == old(ctx).function_count_spec(),
            old(ctx).wf() ==> final(ctx).wf(),
            r is Ok ==> final(ctx).scope_depth() == old(ctx).scope_depth(),
            final(ctx).model() == gen_global_s(*self, old(ctx).model()).0,
            result_model(r) == gen_global_s(*self, old(ctx).model()).1,
    {
        let ghost m0 = old(ctx).model();
        let ghost full = self.functions@;
        let mut functions: Vec<hlir::Node> = Vec::new();
        let mut i: usize = 0;
        proof {
            assert(full.subrange(0, full.len() as int) =~= full);
            assert(hlir::models_of(functions@) =~= Seq::<NodeModel>::empty());
        }
        while i < self.functions.len()
            invariant
                0 <= i <= self.functions@.len(),
                forall|k: int| 0 <= k < functions@.len()
                    ==> (#[trigger] functions@[k]).typed(),
                forall|n: Seq<u8>|
                    ctx.find_function_spec(n) == old(ctx).find_function_spec(n),
                ctx.function_count_spec() == old(ctx).function_count_spec(),
                old(ctx).wf() ==> ctx.wf(),
                ctx.scope_depth() == old(ctx).scope_depth(),
                gen_fns_s(full, m0).0
                    == gen_fns_s(full.subrange(i as int, full.len() as int), ctx.model()).0,
                gen_fns_s(full, m0).1
                    == (match gen_fns_s(full.subrange(i as int, full.len() as int), ctx.model()).1 {
                        Ok(rest) => Ok(hlir::models_of(functions@) + rest),
                        Err(e) => Err::<Seq<NodeModel>, CompileError>(e),
                    }),
            decreases self.functions@.len() - i,
        {
            let ghost rem = full.subrange(i as int, full.len() as int);
            proof {
                assert(rem[0] == full[i as int]);
                assert(rem.drop_first() =~= full.subrange(i + 1, full.len() as int));
            }
            let h = self.functions[i].generate(ctx)?;
            proof {
                assert((functions@.push(h)).drop_last() =~= functions@);
                assert(hlir::models_of(functions@.push(h))
                    =~= hlir::models_of(functions@).push(hlir::model_of(h)));
                let (mx, rx) = gen_fns_s(rem.drop_first(), ctx.model());
                match rx {
                    Ok(rest) => {
                        assert(hlir::models_of(functions@).push(hlir::model_of(h)) + rest
                            =~= hlir::models_of(functions@)
                                + rest.insert(0, hlir::model_of(h)));
                    }
                    Err(_) => {}
                }
            }
            functions.push(h);
            i += 1;
        }
        proof {
            assert(full.subrange(full.len() as int, full.len() as int)
                =~= Seq::<FunctionDefinition>::empty());
            assert(hlir::models_of(functions@) + Seq::<NodeModel>::empty()
                =~= hlir::models_of(functions@));
        }

        let h = hlir::Node::GlobalScope { functions };
        proof {
            let ghost rr = gen_global_s(*self, old(ctx).model()).1;
            match rr {
                Ok(hm) => {
                    assert(hlir::model_of(h) =~~= hm);
                }
                Err(_) => {}
            }
        }
        Ok(h)
    }
}

/// Whether `name` is the reserved entry-point identifier.
pub fn is_main(name: &Vec<u8>) -> (r: bool)
    ensures r == (name@ == main_name()),
{
    let r = name.len() == 4 && name[0] == 109 && name[1] == 97 && name[2] == 105
        && name[3] == 110;
    proof {
        if r {
            assert(name@ =~= main_name());
        }
    }
    r
}

} // verus!
