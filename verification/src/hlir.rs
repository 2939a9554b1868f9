use vstd::prelude::*;

verus! {

/// The closed set of value types: statements are `Unit`, every variable and
/// arithmetic operand is `I64`, and `Boolean` arises only from comparison.
#[derive(Clone, Copy, Debug, PartialEq, Eq, Structural)]
pub enum ValueType {
    Unit,
    I64,
    Boolean,
}

/// One node of the typed high-level IR.  Names are resolved: a local is an
/// index into the enclosing function's `locals`, a callee is the index a
/// function received when it was declared.
#[derive(Debug, PartialEq)]
#[allow(inconsistent_fields)]
pub enum Node {
    GlobalScope { functions: Vec<Node> },
    FunctionDefinition {
        body: Box<Node>,
        parameters: Vec<Node>,
        result: Option<ValueType>,
        locals: Vec<ValueType>,
        is_entry_point: bool,
    },
    Block(Vec<Node>),
    If { condition: Box<Node>, true_branch: Box<Node>, false_branch: Option<Box<Node>> },
    Call { function: Box<Node>, arguments: Vec<Node> },
    Ret { value: Option<Box<Node>> },
    Assignment { variable: Box<Node>, value: Box<Node> },
    Add { lhs: Box<Node>, rhs: Box<Node> },
    Mul { lhs: Box<Node>, rhs: Box<Node> },
    Equals { lhs: Box<Node>, rhs: Box<Node> },
    I64(i64),
    Function(usize),
    Local(usize),
    ParameterDefinition(ValueType),
}

/// The mathematical shape of a typed IR node: vectors as sequences, so that
/// the builder's contracts can state exactly which tree is produced.
#[verifier::ext_equal]
pub enum NodeModel {
    GlobalScope { functions: Seq<NodeModel> },
    FunctionDefinition {
        body: Box<NodeModel>,
        parameters: Seq<NodeModel>,
        result: Option<ValueType>,
        locals: Seq<ValueType>,
        is_entry_point: bool,
    },
    Block(Seq<NodeModel>),
    If { condition: Box<NodeModel>, true_branch: Box<NodeModel>, false_branch: Option<Box<NodeModel>> },
    Call { function: Box<NodeModel>, arguments: Seq<NodeModel> },
    Ret { value: Option<Box<NodeModel>> },
    Assignment { variable: Box<NodeModel>, value: Box<NodeModel> },
    Add { lhs: Box<NodeModel>, rhs: Box<NodeModel> },
    Mul { lhs: Box<NodeModel>, rhs: Box<NodeModel> },
    Equals { lhs: Box<NodeModel>, rhs: Box<NodeModel> },
    I64(i64),
    Function(int),
    Local(int),
    ParameterDefinition(ValueType),
}

/// The model of one node.
pub open spec fn model_of(n: Node) -> NodeModel
    decreases n, 0int,
{
    match n {
        Node::GlobalScope { functions } => NodeModel::GlobalScope {
            functions: models_of(functions@),
        },
        Node::FunctionDefinition { body, parameters, result, locals, is_entry_point } => {
            NodeModel::FunctionDefinition {
                body: Box::new(model_of(*body)),
                parameters: models_of(parameters@),
                result,
                locals: locals@,
                is_entry_point,
            }
        }
        Node::Block(nodes) => NodeModel::Block(models_of(nodes@)),
        Node::If { condition, true_branch, false_branch } => NodeModel::If {
            condition: Box::new(model_of(*condition)),
            true_branch: Box::new(model_of(*true_branch)),
            false_branch: match false_branch {
                Some(b) => Some(Box::new(model_of(*b))),
                None => None,
            },
        },
        Node::Call { function, arguments } => NodeModel::Call {
            function: Box::new(model_of(*function)),
            arguments: models_of(arguments@),
        },
        Node::Ret { value } => NodeModel::Ret {
            value: match value {
                Some(v) => Some(Box::new(model_of(*v))),
                None => None,
            },
        },
        Node::Assignment { variable, value } => NodeModel::Assignment {
            variable: Box::new(model_of(*variable)),
            value: Box::new(model_of(*value)),
        },
        Node::Add { lhs, rhs } => NodeModel::Add {
            lhs: Box::new(model_of(*lhs)),
            rhs: Box::new(model_of(*rhs)),
        },
        Node::Mul { lhs, rhs } => NodeModel::Mul {
            lhs: Box::new(model_of(*lhs)),
            rhs: Box::new(model_of(*rhs)),
        },
        Node::Equals { lhs, rhs } => NodeModel::Equals {
            lhs: Box::new(model_of(*lhs)),
            rhs: Box::new(model_of(*rhs)),
        },
        Node::I64(x) => NodeModel::I64(x),
        Node::Function(i) => NodeModel::Function(i as int),
        Node::Local(i) => NodeModel::Local(i as int),
        Node::ParameterDefinition(t) => NodeModel::ParameterDefinition(t),
    }
}

/// The models of a node list, in order.
pub open spec fn models_of(s: Seq<Node>) -> Seq<NodeModel>
    decreases s, 1int,
{
    if s.len() == 0 {
        Seq::empty()
    } else {
        models_of(s.drop_last()).push(model_of(s.last()))
    }
}


impl Node {
    /// The statically derived value type of a node.  Arithmetic propagates the
    /// left operand's type, comparison yields `Boolean`, literals, locals,
    /// parameters and calls yield `I64`, statement-shaped nodes yield `Unit`.
    pub open spec fn type_spec(self) -> ValueType
        decreases self,
    {
        match self {
            Node::Call { .. } => ValueType::I64,
            Node::Add { lhs, .. } => lhs.type_spec(),
            Node::Mul { lhs, .. } => lhs.type_spec(),
            Node::Equals { .. } => ValueType::Boolean,
            Node::I64(_) => ValueType::I64,
            Node::Local(_) => ValueType::I64,
            Node::ParameterDefinition(_) => ValueType::I64,
            _ => ValueType::Unit,
        }
    }

    /// The nodes on which `get_type` is defined: along the spine it walks,
    /// binary operands carry equal types and every callee is a resolved
    /// function index.
    pub open spec fn type_ok(self) -> bool
        decreases self,
    {
        match self {
            Node::Call { function, .. } => *function is Function,
            Node::Add { lhs, rhs } => {
                lhs.type_ok() && rhs.type_ok() && lhs.type_spec() == rhs.type_spec()
            }
            Node::Mul { lhs, rhs } => {
                lhs.type_ok() && rhs.type_ok() && lhs.type_spec() == rhs.type_spec()
            }
            Node::Equals { lhs, rhs } => {
                lhs.type_ok() && rhs.type_ok() && lhs.type_spec() == rhs.type_spec()
            }
            _ => true,
        }
    }

    /// Well-typedness of a whole tree, as the builder guarantees it: both
    /// operands of every binary arithmetic or comparison node have equal
    /// value types, and every `if` condition is `Boolean`.  An assignment
    /// written as `let` binds whatever its initializer produced, so nothing
    /// more is promised there.
    pub open spec fn typed(self) -> bool
        decreases self,
    {
        match self {
            Node::GlobalScope { functions } => {
                forall|i: int| 0 <= i < functions@.len() ==> (#[trigger] functions@[i]).typed()
            }
            Node::FunctionDefinition { body, parameters, .. } => {
                body.typed() && forall|i: int|
                    0 <= i < parameters@.len() ==> (#[trigger] parameters@[i]).typed()
            }
            Node::Block(nodes) => {
                forall|i: int| 0 <= i < nodes@.len() ==> (#[trigger] nodes@[i]).typed()
            }
            Node::If { condition, true_branch, false_branch } => {
                &&& condition.typed()
                &&& condition.type_ok()
                &&& condition.type_spec() == ValueType::Boolean
                &&& true_branch.typed()
                &&& (false_branch matches Some(b) ==> b.typed())
            }
            Node::Call { function, arguments } => {
                function.typed() && forall|i: int|
                    0 <= i < arguments@.len() ==> (#[trigger] arguments@[i]).typed()
            }
            Node::Ret { value } => value matches Some(v) ==> v.typed(),
            Node::Assignment { variable, value } => variable.typed() && value.typed(),
            Node::Add { lhs, rhs } => {
                lhs.typed() && rhs.typed() && lhs.type_ok() && rhs.type_ok()
                    && lhs.type_spec() == rhs.type_spec()
            }
            Node::Mul { lhs, rhs } => {
                lhs.typed() && rhs.typed() && lhs.type_ok() && rhs.type_ok()
                    && lhs.type_spec() == rhs.type_spec()
            }
            Node::Equals { lhs, rhs } => {
                lhs.typed() && rhs.typed() && lhs.type_ok() && rhs.type_ok()
                    && lhs.type_spec() == rhs.type_spec()
            }
            _ => true,
        }
    }

    /// Total variant of `get_type`: `None` exactly where `get_type` is not
    /// defined, so callers can test before relying on a node's type.
    pub fn try_get_type(&self) -> (r: Option<ValueType>)
        ensures
            r == if self.type_ok() { Some(self.type_spec()) } else { None::<ValueType> },
        decreases *self,
    {
        match self {
            Node::Call { function, .. } => {
                if let Node::Function(_) = **function {
                    Some(ValueType::I64)
                } else {
                    None
                }
            }
            Node::Add { lhs, rhs } | Node::Mul { lhs, rhs } => {
                match (lhs.try_get_type(), rhs.try_get_type()) {
                    (Some(l), Some(r)) => if l == r { Some(l) } else { None },
                    _ => None,
                }
            }
            Node::Equals { lhs, rhs } => {
                match (lhs.try_get_type(), rhs.try_get_type()) {
                    (Some(l), Some(r)) => if l == r { Some(ValueType::Boolean) } else { None },
                    _ => None,
                }
            }
            Node::I64(_) => Some(ValueType::I64),
            Node::Local(_) => Some(ValueType::I64),
            Node::ParameterDefinition(_) => Some(ValueType::I64),
            _ => Some(ValueType::Unit),
        }
    }

    /// The partial form: defined only on `type_ok` nodes, where it returns
    /// the node's statically derived type.
    pub fn get_type(&self) -> (r: ValueType)
        requires self.type_ok(),
        ensures r == self.type_spec(),
        decreases *self,
    {
        match self {
            Node::Call { .. } => ValueType::I64,
            Node::Add { lhs, .. } => lhs.get_type(),
            Node::Mul { lhs, .. } => lhs.get_type(),
            Node::Equals { .. } => ValueType::Boolean,
            Node::I64(_) => ValueType::I64,
            Node::Local(_) => ValueType::I64,
            Node::ParameterDefinition(_) => ValueType::I64,
            _ => ValueType::Unit,
        }
    }
}

/// Compares two byte strings by contents.
pub fn bytes_eq(a: &Vec<u8>, b: &Vec<u8>) -> (r: bool)
    ensures r == (a@ == b@),
{
    if a.len() != b.len() {
        return false;
    }
    let mut i: usize = 0;
    while i < a.len()
        invariant
            i <= a.len(),
            a@.len() == b@.len(),
            forall|j: int| 0 <= j < i ==> a@[j] == b@[j],
        decreases a.len() - i,
    {
        if a[i] != b[i] {
            return false;
        }
        i += 1;
    }
    proof {
        assert(a@ =~= b@);
    }
    true
}

/// An owned copy of a byte string.
pub fn copy_bytes(v: &Vec<u8>) -> (r: Vec<u8>)
    ensures r@ == v@,
{
    let mut r: Vec<u8> = Vec::new();
    let mut i: usize = 0;
    while i < v.len()
        invariant
            i <= v@.len(),
            r@ == v@.subrange(0, i as int),
        decreases v@.len() - i,
    {
        r.push(v[i]);
        proof {
            assert(r@ =~= v@.subrange(0, i + 1));
        }
        i += 1;
    }
    proof {
        assert(v@.subrange(0, v@.len() as int) =~= v@);
    }
    r
}

/// An owned copy of the byte range `[start, end)` of a byte string.
pub fn copy_bytes_range(v: &Vec<u8>, start: usize, end: usize) -> (r: Vec<u8>)
    requires
        start <= end <= v@.len(),
    ensures
        r@ == v@.subrange(start as int, end as int),
{
    let mut r: Vec<u8> = Vec::new();
    let mut i: usize = start;
    while i < end
        invariant
            start <= i <= end <= v@.len(),
            r@ == v@.subrange(start as int, i as int),
        decreases end - i,
    {
        r.push(v[i]);
        proof {
            assert(r@ =~= v@.subrange(start as int, i + 1));
        }
        i += 1;
    }
    r
}

/// An owned copy of a value-type vector.
pub fn copy_types(v: &Vec<ValueType>) -> (r: Vec<ValueType>)
    ensures r@ == v@,
{
    let mut r: Vec<ValueType> = Vec::new();
    let mut i: usize = 0;
    while i < v.len()
        invariant
            i <= v@.len(),
            r@ == v@.subrange(0, i as int),
        decreases v@.len() - i,
    {
        r.push(v[i]);
        proof {
            assert(r@ =~= v@.subrange(0, i + 1));
        }
        i += 1;
    }
    proof {
        assert(v@.subrange(0, v@.len() as int) =~= v@);
    }
    r
}

/// One lexical scope: the variables bound in it, newest last, each with the
/// local slot index and value type it was bound to.
struct Scope {
    variables: Vec<(Vec<u8>, (usize, ValueType))>,
}

/// One scope frame as mathematics: bindings of name to slot and type,
/// newest last.
pub type FrameModel = Seq<(Seq<u8>, (int, ValueType))>;

/// The whole name table as mathematics: the function entries (newest last),
/// the running function count, the per-function local slots, and the scope
/// stack.  Every `Context` operation is fixed exactly over this model.
#[verifier::ext_equal]
pub struct CtxModel {
    pub functions: Seq<(Seq<u8>, int)>,
    pub function_count: int,
    pub locals: Seq<ValueType>,
    pub stack: Seq<FrameModel>,
}

impl CtxModel {
    /// The innermost binding of `name` within one frame.
    pub open spec fn find_in_frame(vars: FrameModel, name: Seq<u8>) -> Option<(int, ValueType)>
        decreases vars.len(),
    {
        if vars.len() == 0 {
            None
        } else if vars.last().0 == name {
            Some(vars.last().1)
        } else {
            Self::find_in_frame(vars.drop_last(), name)
        }
    }

    /// The binding reached by searching the stack innermost frame first.
    pub open spec fn find_in_stack(frames: Seq<FrameModel>, name: Seq<u8>) -> Option<(int, ValueType)>
        decreases frames.len(),
    {
        if frames.len() == 0 {
            None
        } else {
            match Self::find_in_frame(frames.last(), name) {
                Some(b) => Some(b),
                None => Self::find_in_stack(frames.drop_last(), name),
            }
        }
    }

    /// The nearest binding of `name` on the scope stack.
    pub open spec fn find_variable(self, name: Seq<u8>) -> Option<(int, ValueType)> {
        Self::find_in_stack(self.stack, name)
    }

    /// The latest id bound to `name` in the function table.
    pub open spec fn find_function_in(funcs: Seq<(Seq<u8>, int)>, name: Seq<u8>) -> Option<int>
        decreases funcs.len(),
    {
        if funcs.len() == 0 {
            None
        } else if funcs.last().0 == name {
            Some(funcs.last().1)
        } else {
            Self::find_function_in(funcs.drop_last(), name)
        }
    }

    pub open spec fn find_function(self, name: Seq<u8>) -> Option<int> {
        Self::find_function_in(self.functions, name)
    }

    /// Binding `name` to the next function id, shadowing earlier uses.
    pub open spec fn define_function(self, name: Seq<u8>) -> CtxModel {
        CtxModel {
            functions: self.functions.push((name, self.function_count)),
            function_count: self.function_count + 1,
            ..self
        }
    }

    /// Opening a fresh innermost scope.
    pub open spec fn push_scope(self) -> CtxModel {
        CtxModel { stack: self.stack.push(Seq::empty()), ..self }
    }

    /// Dropping the innermost scope; when the stack empties, the local
    /// slots are cleared.
    pub open spec fn pop_scope(self) -> CtxModel {
        if self.stack.len() == 0 {
            CtxModel { locals: Seq::empty(), ..self }
        } else {
            let stack = self.stack.drop_last();
            CtxModel {
                stack,
                locals: if stack.len() == 0 { Seq::empty() } else { self.locals },
                ..self
            }
        }
    }

    /// Appending a slot of type `typ` and binding `name` to it in the
    /// innermost frame; meaningful only with an open scope.
    pub open spec fn define_variable(self, name: Seq<u8>, typ: ValueType) -> CtxModel {
        if self.stack.len() == 0 {
            self
        } else {
            let index = self.locals.len() as int;
            CtxModel {
                locals: self.locals.push(typ),
                stack: self.stack.update(
                    self.stack.len() - 1,
                    self.stack.last().push((name, (index, typ))),
                ),
                ..self
            }
        }
    }
}

/// The innermost binding of `name` within one scope frame.
spec fn find_in_frame(
    vars: Seq<(Vec<u8>, (usize, ValueType))>,
    name: Seq<u8>,
) -> Option<(usize, ValueType)>
    decreases vars.len(),
{
    if vars.len() == 0 {
        None
    } else if vars.last().0@ == name {
        Some(vars.last().1)
    } else {
        find_in_frame(vars.drop_last(), name)
    }
}

/// The latest id bound to `name` in the function table.
spec fn find_in_functions(funcs: Seq<(Vec<u8>, usize)>, name: Seq<u8>) -> Option<usize>
    decreases funcs.len(),
{
    if funcs.len() == 0 {
        None
    } else if funcs.last().0@ == name {
        Some(funcs.last().1)
    } else {
        find_in_functions(funcs.drop_last(), name)
    }
}

/// The binding reached by searching a scope stack from the innermost frame
/// outward.
spec fn find_in_stack(frames: Seq<Scope>, name: Seq<u8>) -> Option<(usize, ValueType)>
    decreases frames.len(),
{
    if frames.len() == 0 {
        None
    } else {
        match find_in_frame(frames.last().variables@, name) {
            Some(b) => Some(b),
            None => find_in_stack(frames.drop_last(), name),
        }
    }
}

/// One frame as its model.
spec fn frame_model(vars: Seq<(Vec<u8>, (usize, ValueType))>) -> FrameModel {
    vars.map_values(|b: (Vec<u8>, (usize, ValueType))| (b.0@, (b.1.0 as int, b.1.1)))
}

/// The scope stack as its model.
spec fn stack_model(frames: Seq<Scope>) -> Seq<FrameModel> {
    frames.map_values(|s: Scope| frame_model(s.variables@))
}

/// The function table as its model.
spec fn functions_model(funcs: Seq<(Vec<u8>, usize)>) -> Seq<(Seq<u8>, int)> {
    funcs.map_values(|p: (Vec<u8>, usize)| (p.0@, p.1 as int))
}

proof fn lemma_frame_bridge(vars: Seq<(Vec<u8>, (usize, ValueType))>, name: Seq<u8>)
    ensures
        CtxModel::find_in_frame(frame_model(vars), name) == (match find_in_frame(vars, name) {
            Some(b) => Some((b.0 as int, b.1)),
            None => None::<(int, ValueType)>,
        }),
    decreases vars.len(),
{
    if vars.len() > 0 {
        assert(frame_model(vars).drop_last() =~= frame_model(vars.drop_last()));
        lemma_frame_bridge(vars.drop_last(), name);
    }
}

proof fn lemma_stack_bridge(frames: Seq<Scope>, name: Seq<u8>)
    ensures
        CtxModel::find_in_stack(stack_model(frames), name) == (match find_in_stack(frames, name) {
            Some(b) => Some((b.0 as int, b.1)),
            None => None::<(int, ValueType)>,
        }),
    decreases frames.len(),
{
    if frames.len() > 0 {
        lemma_frame_bridge(frames.last().variables@, name);
        assert(stack_model(frames).drop_last() =~= stack_model(frames.drop_last()));
        lemma_stack_bridge(frames.drop_last(), name);
    }
}

proof fn lemma_functions_bridge(funcs: Seq<(Vec<u8>, usize)>, name: Seq<u8>)
    ensures
        CtxModel::find_function_in(functions_model(funcs), name)
            == (match find_in_functions(funcs, name) {
                Some(id) => Some(id as int),
                None => None::<int>,
            }),
    decreases funcs.len(),
{
    if funcs.len() > 0 {
        assert(functions_model(funcs).drop_last() =~= functions_model(funcs.drop_last()));
        lemma_functions_bridge(funcs.drop_last(), name);
    }
}

/// The two-level name table consulted during the typed IR build: a program
/// wide function table, and a stack of lexical scopes mapping variable names
/// to local slot indices.
pub struct Context {
    functions: Vec<(Vec<u8>, usize)>,
    function_count: usize,
    local_variables: Vec<ValueType>,
    stack: Vec<Scope>,
}

impl Context {
    /// The whole table as mathematics; every method's effect is fixed
    /// exactly over this model.
    pub closed spec fn model(self) -> CtxModel {
        CtxModel {
            functions: functions_model(self.functions@),
            function_count: self.function_count as int,
            locals: self.local_variables@,
            stack: stack_model(self.stack@),
        }
    }

    /// The nearest binding of `name`: its slot index and value type.
    pub closed spec fn find_variable_spec(self, name: Seq<u8>) -> Option<(usize, ValueType)> {
        find_in_stack(self.stack@, name)
    }

    /// The id the latest definition of function `name` received.
    pub closed spec fn find_function_spec(self, name: Seq<u8>) -> Option<usize> {
        find_in_functions(self.functions@, name)
    }

    /// How many function definitions have been recorded.
    pub closed spec fn function_count_spec(self) -> usize {
        self.function_count
    }

    /// The value types of the current function's locals, in slot order.
    pub closed spec fn locals_spec(self) -> Seq<ValueType> {
        self.local_variables@
    }

    /// The number of open lexical scopes.
    pub closed spec fn scope_depth(self) -> nat {
        self.stack@.len()
    }

    /// Every binding on the scope stack names a slot of the current
    /// local-variable vector with that slot's type, and every recorded
    /// function id is below the running count.
    pub closed spec fn wf(self) -> bool {
        &&& forall|i: int, j: int|
            0 <= i < self.stack@.len() && 0 <= j < self.stack@[i].variables@.len()
            ==> (#[trigger] self.stack@[i].variables@[j]).1.0 < self.local_variables@.len()
                && self.stack@[i].variables@[j].1.1
                    == self.local_variables@[self.stack@[i].variables@[j].1.0 as int]
        &&& forall|i: int| 0 <= i < self.functions@.len()
            ==> (#[trigger] self.functions@[i]).1 < self.function_count
    }

    proof fn lemma_find_in_frame_some(vars: Seq<(Vec<u8>, (usize, ValueType))>, name: Seq<u8>)
        ensures
            find_in_frame(vars, name) matches Some(b)
                ==> exists|j: int| 0 <= j < vars.len() && vars[j].1 == b,
        decreases vars.len(),
    {
        if vars.len() > 0 && vars.last().0@ != name {
            Self::lemma_find_in_frame_some(vars.drop_last(), name);
        }
    }

    proof fn lemma_find_in_stack_some(frames: Seq<Scope>, name: Seq<u8>)
        ensures
            find_in_stack(frames, name) matches Some(b)
                ==> exists|i: int, j: int|
                    0 <= i < frames.len() && 0 <= j < frames[i].variables@.len()
                        && frames[i].variables@[j].1 == b,
        decreases frames.len(),
    {
        if frames.len() > 0 {
            Self::lemma_find_in_frame_some(frames.last().variables@, name);
            Self::lemma_find_in_stack_some(frames.drop_last(), name);
        }
    }

    proof fn lemma_find_in_functions_some(funcs: Seq<(Vec<u8>, usize)>, name: Seq<u8>)
        ensures
            find_in_functions(funcs, name) matches Some(id)
                ==> exists|i: int| 0 <= i < funcs.len() && funcs[i].1 == id,
        decreases funcs.len(),
    {
        if funcs.len() > 0 && funcs.last().0@ != name {
            Self::lemma_find_in_functions_some(funcs.drop_last(), name);
        }
    }

    /// In a well-formed context every variable binding that can be found names
    /// a live local slot of the bound type, and every function id that can be
    /// found is below the function count.
    pub proof fn lemma_wf_lookup(self, name: Seq<u8>)
        ensures
            self.wf() ==> (self.find_variable_spec(name) matches Some(b)
                ==> b.0 < self.locals_spec().len() && b.1 == self.locals_spec()[b.0 as int]),
            self.wf() ==> (self.find_function_spec(name) matches Some(id)
                ==> id < self.function_count_spec()),
    {
        Self::lemma_find_in_stack_some(self.stack@, name);
        Self::lemma_find_in_functions_some(self.functions@, name);
    }

    pub fn new() -> (r: Context)
        ensures
            r.function_count_spec() == 0,
            r.locals_spec() == Seq::<ValueType>::empty(),
            r.scope_depth() == 0,
            r.wf(),
            forall|n: Seq<u8>| r.find_function_spec(n) is None,
            forall|n: Seq<u8>| r.find_variable_spec(n) is None,
            r.model() == (CtxModel {
                functions: Seq::<(Seq<u8>, int)>::empty(),
                function_count: 0,
                locals: Seq::<ValueType>::empty(),
                stack: Seq::<FrameModel>::empty(),
            }),
    {
        let r = Context {
            functions: Vec::new(),
            function_count: 0,
            local_variables: Vec::new(),
            stack: Vec::new(),
        };
        proof {
            assert(r.model() =~~= (CtxModel {
                functions: Seq::<(Seq<u8>, int)>::empty(),
                function_count: 0,
                locals: Seq::<ValueType>::empty(),
                stack: Seq::<FrameModel>::empty(),
            }));
        }
        r
    }

    /// Binds `name` to the next monotonically increasing function id,
    /// shadowing any earlier definition of the same name.
    pub fn define_function(&mut self, name: Vec<u8>)
        requires
            old(self).function_count_spec() < usize::MAX,
        ensures
            final(self).function_count_spec() == old(self).function_count_spec() + 1,
            final(self).find_function_spec(name@) == Some(old(self).function_count_spec()),
            forall|n: Seq<u8>| n != name@
                ==> final(self).find_function_spec(n) == old(self).find_function_spec(n),
            forall|n: Seq<u8>|
                final(self).find_variable_spec(n) == old(self).find_variable_spec(n),
            final(self).locals_spec() == old(self).locals_spec(),
            final(self).scope_depth() == old(self).scope_depth(),
            old(self).wf() ==> final(self).wf(),
            final(self).model() == old(self).model().define_function(name@),
    {
        let index = self.function_count;
        self.function_count = self.function_count + 1;
        self.functions.push((name, index));
        proof {
            assert(final(self).functions@.drop_last() =~= old(self).functions@);
            assert(final(self).model().functions
                =~= old(self).model().functions.push((final(self).functions@.last().0@, index as int)));
            assert(final(self).model() =~~= old(self).model().define_function(final(self).functions@.last().0@));
        }
    }

    #[verifier::loop_isolation(false)]
    pub fn find_function(&self, name: &Vec<u8>) -> (r: Option<usize>)
        ensures
            r == self.find_function_spec(name@),
            self.wf() ==> (r matches Some(id) ==> id < self.function_count_spec()),
            (match r {
                Some(id) => Some(id as int),
                None => None::<int>,
            }) == self.model().find_function(name@),
    {
        proof {
            Self::lemma_find_in_functions_some(self.functions@, name@);
            lemma_functions_bridge(self.functions@, name@);
            assert(self.functions@.subrange(0, self.functions@.len() as int)
                =~= self.functions@);
        }
        let mut i: usize = self.functions.len();
        while i > 0
            invariant
                i <= self.functions@.len(),
                find_in_functions(self.functions@, name@)
                    == find_in_functions(self.functions@.subrange(0, i as int), name@),
            decreases i,
        {
            i = i - 1;
            proof {
                assert(self.functions@.subrange(0, i + 1 as int).drop_last()
                    =~= self.functions@.subrange(0, i as int));
                assert(self.functions@.subrange(0, i + 1 as int).last() == self.functions@[i as int]);
            }
            let entry = &self.functions[i];
            if bytes_eq(&entry.0, name) {
                return Some(entry.1);
            }
        }
        proof {
            assert(self.functions@.subrange(0, 0) =~= Seq::<(Vec<u8>, usize)>::empty());
        }
        None
    }

    /// Opens a fresh, empty innermost scope.
    pub fn push_scope(&mut self)
        ensures
            final(self).scope_depth() == old(self).scope_depth() + 1,
            forall|n: Seq<u8>|
                final(self).find_variable_spec(n) == old(self).find_variable_spec(n),
            forall|n: Seq<u8>|
                final(self).find_function_spec(n) == old(self).find_function_spec(n),
            final(self).function_count_spec() == old(self).function_count_spec(),
            final(self).locals_spec() == old(self).locals_spec(),
            old(self).wf() ==> final(self).wf(),
            final(self).model() == old(self).model().push_scope(),
    {
        self.stack.push(Scope { variables: Vec::new() });
        proof {
            assert(final(self).stack@.drop_last() =~= old(self).stack@);
            assert forall|n: Seq<u8>|
                final(self).find_variable_spec(n) == old(self).find_variable_spec(n) by {
                assert(find_in_frame(final(self).stack@.last().variables@, n) is None);
            }
            assert(frame_model(final(self).stack@.last().variables@) =~= Seq::<(Seq<u8>, (int, ValueType))>::empty());
            assert(final(self).model().stack =~~= old(self).model().stack.push(Seq::empty()));
            assert(final(self).model() =~~= old(self).model().push_scope());
        }
    }

    /// Drops the innermost scope; when the stack empties, the per-function
    /// local-variable vector is cleared, giving the next function a fresh
    /// 0-based slot space.
    pub fn pop_scope(&mut self)
        ensures
            final(self).scope_depth() == if old(self).scope_depth() == 0 {
                0
            } else {
                (old(self).scope_depth() - 1) as nat
            },
            final(self).locals_spec() == if final(self).scope_depth() == 0 {
                Seq::<ValueType>::empty()
            } else {
                old(self).locals_spec()
            },
            forall|n: Seq<u8>|
                final(self).find_function_spec(n) == old(self).find_function_spec(n),
            final(self).function_count_spec() == old(self).function_count_spec(),
            old(self).wf() ==> final(self).wf(),
            final(self).model() == old(self).model().pop_scope(),
    {
        self.stack.pop();
        if self.stack.is_empty() {
            self.local_variables.clear();
        }
        proof {
            if old(self).stack@.len() == 0 {
                assert(final(self).model() =~~= old(self).model().pop_scope());
            } else {
                assert(final(self).model().stack
                    =~~= old(self).model().stack.drop_last());
                assert(final(self).model() =~~= old(self).model().pop_scope());
            }
        }
    }

    /// Appends `typ` to the per-function local vector and binds `name` to the
    /// new slot in the innermost scope, returning the slot index.
    pub fn define_variable(&mut self, name: Vec<u8>, typ: ValueType) -> (index: usize)
        requires
            old(self).scope_depth() > 0,
        ensures
            index == old(self).locals_spec().len(),
            final(self).locals_spec() == old(self).locals_spec().push(typ),
            final(self).find_variable_spec(name@) == Some((index, typ)),
            forall|n: Seq<u8>| n != name@
                ==> final(self).find_variable_spec(n) == old(self).find_variable_spec(n),
            forall|n: Seq<u8>|
                final(self).find_function_spec(n) == old(self).find_function_spec(n),
            final(self).scope_depth() == old(self).scope_depth(),
            final(self).function_count_spec() == old(self).function_count_spec(),
            old(self).wf() ==> final(self).wf(),
            final(self).model() == old(self).model().define_variable(name@, typ),
            index as int == old(self).model().locals.len(),
    {
        let index = self.local_variables.len();
        self.local_variables.push(typ);

        let last = self.stack.len() - 1;
        let frame = &mut self.stack[last];
        frame.variables.push((name, (index, typ)));
        proof {
            assert(frame_model(final(self).stack@.last().variables@)
                =~= frame_model(old(self).stack@.last().variables@)
                    .push((final(self).stack@.last().variables@.last().0@,
                        (index as int, typ))));
            assert(final(self).model().stack
                =~~= old(self).model().stack.update(
                    old(self).model().stack.len() - 1,
                    old(self).model().stack.last().push((
                        final(self).stack@.last().variables@.last().0@,
                        (index as int, typ),
                    )),
                ));
            assert(final(self).model() =~~= old(self).model().define_variable(
                final(self).stack@.last().variables@.last().0@,
                typ,
            ));
            assert(final(self).stack@.drop_last() =~= old(self).stack@.drop_last());
            assert(final(self).stack@.last().variables@.drop_last()
                =~= old(self).stack@.last().variables@);
            assert forall|n: Seq<u8>| n != name@ implies
                final(self).find_variable_spec(n) == old(self).find_variable_spec(n) by {
                assert(find_in_frame(final(self).stack@.last().variables@, n)
                    == find_in_frame(old(self).stack@.last().variables@, n));
            }
        }
        index
    }

    /// Looks `name` up through the scope stack, innermost binding first.
    #[verifier::loop_isolation(false)]
    pub fn find_variable(&mut self, name: &Vec<u8>) -> (r: Option<(usize, ValueType)>)
        ensures
            r == old(self).find_variable_spec(name@),
            *final(self) == *old(self),
            old(self).wf() ==> (r matches Some(b)
                ==> b.0 < old(self).locals_spec().len()
                    && b.1 == old(self).locals_spec()[b.0 as int]),
            (match r {
                Some(b) => Some((b.0 as int, b.1)),
                None => None::<(int, ValueType)>,
            }) == old(self).model().find_variable(name@),
    {
        proof {
            self.lemma_wf_lookup(name@);
            lemma_stack_bridge(self.stack@, name@);
            assert(self.stack@.subrange(0, self.stack@.len() as int) =~= self.stack@);
        }
        let mut i: usize = self.stack.len();
        while i > 0
            invariant
                i <= self.stack@.len(),
                find_in_stack(self.stack@, name@)
                    == find_in_stack(self.stack@.subrange(0, i as int), name@),
            decreases i,
        {
            i = i - 1;
            proof {
                assert(self.stack@.subrange(0, i + 1 as int).drop_last()
                    =~= self.stack@.subrange(0, i as int));
                assert(self.stack@.subrange(0, i + 1 as int).last() == self.stack@[i as int]);
            }
            let frame = &self.stack[i];
            proof {
                assert(frame.variables@.subrange(0, frame.variables@.len() as int)
                    =~= frame.variables@);
            }
            let mut j: usize = frame.variables.len();
            while j > 0
                invariant
                    j <= frame.variables@.len(),
                    find_in_frame(frame.variables@, name@)
                        == find_in_frame(frame.variables@.subrange(0, j as int), name@),
                decreases j,
            {
                j = j - 1;
                proof {
                    assert(frame.variables@.subrange(0, j + 1 as int).drop_last()
                        =~= frame.variables@.subrange(0, j as int));
                    assert(frame.variables@.subrange(0, j + 1 as int).last()
                        == frame.variables@[j as int]);
                }
                let entry = &frame.variables[j];
                if bytes_eq(&entry.0, name) {
                    return Some(entry.1);
                }
            }
            proof {
                assert(frame.variables@.subrange(0, 0)
                    =~= Seq::<(Vec<u8>, (usize, ValueType))>::empty());
            }
        }
        proof {
            assert(self.stack@.subrange(0, 0) =~= Seq::<Scope>::empty());
        }
        None
    }

    /// A read-only view of the per-function local-variable types.
    pub fn local_variables(&self) -> (r: &Vec<ValueType>)
        ensures
            r@ == self.locals_spec(),
            r@ == self.model().locals,
    {
        &self.local_variables
    }
}

} // verus!
