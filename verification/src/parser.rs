use vstd::prelude::*;
use crate::ast;
use crate::error::CompileError;
use crate::operator::Operator;
use crate::token::{Token, TokenModel};

verus! {

/// Whether two tokens are the same kind, payloads aside.
pub open spec fn same_kind(a: TokenModel, b: TokenModel) -> bool {
    match (a, b) {
        (TokenModel::Identifier(_), TokenModel::Identifier(_)) => true,
        (TokenModel::Number(_), TokenModel::Number(_)) => true,
        (TokenModel::If, TokenModel::If) => true,
        (TokenModel::Fn, TokenModel::Fn) => true,
        (TokenModel::Return, TokenModel::Return) => true,
        (TokenModel::Let, TokenModel::Let) => true,
        (TokenModel::OpeningParen, TokenModel::OpeningParen) => true,
        (TokenModel::ClosingParen, TokenModel::ClosingParen) => true,
        (TokenModel::OpeningCurly, TokenModel::OpeningCurly) => true,
        (TokenModel::ClosingCurly, TokenModel::ClosingCurly) => true,
        (TokenModel::Colon, TokenModel::Colon) => true,
        (TokenModel::SemiColon, TokenModel::SemiColon) => true,
        (TokenModel::Comma, TokenModel::Comma) => true,
        (TokenModel::Plus, TokenModel::Plus) => true,
        (TokenModel::Minus, TokenModel::Minus) => true,
        (TokenModel::Star, TokenModel::Star) => true,
        (TokenModel::Slash, TokenModel::Slash) => true,
        (TokenModel::Equals, TokenModel::Equals) => true,
        (TokenModel::ExclamationMark, TokenModel::ExclamationMark) => true,
        (TokenModel::QuestionMark, TokenModel::QuestionMark) => true,
        _ => false,
    }
}

/// Compares two tokens by kind alone.
pub fn kind_eq(a: &Token, b: &Token) -> (r: bool)
    ensures r == same_kind(a@, b@),
{
    match (a, b) {
        (Token::Identifier(_), Token::Identifier(_)) => true,
        (Token::Number(_), Token::Number(_)) => true,
        (Token::If, Token::If) => true,
        (Token::Fn, Token::Fn) => true,
        (Token::Return, Token::Return) => true,
        (Token::Let, Token::Let) => true,
        (Token::OpeningParen, Token::OpeningParen) => true,
        (Token::ClosingParen, Token::ClosingParen) => true,
        (Token::OpeningCurly, Token::OpeningCurly) => true,
        (Token::ClosingCurly, Token::ClosingCurly) => true,
        (Token::Colon, Token::Colon) => true,
        (Token::SemiColon, Token::SemiColon) => true,
        (Token::Comma, Token::Comma) => true,
        (Token::Plus, Token::Plus) => true,
        (Token::Minus, Token::Minus) => true,
        (Token::Star, Token::Star) => true,
        (Token::Slash, Token::Slash) => true,
        (Token::Equals, Token::Equals) => true,
        (Token::ExclamationMark, Token::ExclamationMark) => true,
        (Token::QuestionMark, Token::QuestionMark) => true,
        _ => false,
    }
}

/// The recursive-descent parser over a token stream.  Compound constructs
/// are parsed by splitting off the tokens between matching delimiters and
/// handing them to a fresh sub-parser.
pub struct Parser {
    tokens: Vec<Token>,
}

impl Parser {
    /// The tokens still to be consumed, front first.
    pub closed spec fn rest(self) -> Seq<TokenModel> {
        self.tokens@.map_values(|t: Token| t@)
    }

    pub fn new(tokens: Vec<Token>) -> (r: Parser)
        ensures r.rest() == tokens@.map_values(|t: Token| t@),
    {
        Parser { tokens }
    }

    /// Takes the front token, if any.
    fn pop_front(&mut self) -> (r: Option<Token>)
        ensures
            old(self).rest().len() == 0 ==> r is None && final(self).rest() == old(self).rest(),
            old(self).rest().len() > 0 ==> (r matches Some(t) && t@ == old(self).rest()[0]
                && final(self).rest() == old(self).rest().drop_first()),
    {
        if self.tokens.len() == 0 {
            None
        } else {
            let t = self.tokens.remove(0);
            proof {
                assert(final(self).rest() =~= old(self).rest().drop_first());
            }
            Some(t)
        }
    }

    /// A look at the front token's kind without consuming it.
    fn peek_is(&self, kind: &Token) -> (r: bool)
        ensures
            r == (self.rest().len() > 0 && same_kind(self.rest()[0], kind@)),
    {
        if self.tokens.len() == 0 {
            false
        } else {
            kind_eq(&self.tokens[0], kind)
        }
    }

    /// Pops tokens up to, but not including, the first of kind `stop`.
    /// Fails when the stream ends first.
    #[verifier::loop_isolation(false)]
    fn pop_until(&mut self, stop: &Token) -> (r: Result<Vec<Token>, CompileError>)
        ensures
            r matches Ok(v) ==> {
                &&& v@.len() < old(self).rest().len()
                &&& v@.map_values(|t: Token| t@)
                    == old(self).rest().subrange(0, v@.len() as int)
                &&& same_kind(old(self).rest()[v@.len() as int], stop@)
                &&& final(self).rest()
                    == old(self).rest().subrange(v@.len() as int, old(self).rest().len() as int)
            },
            r is Err ==> r == Err::<Vec<Token>, CompileError>(CompileError::UnexpectedEnd),
    {
        let mut ret: Vec<Token> = Vec::new();
        loop
            invariant
                ret@.len() <= old(self).rest().len(),
                ret@.map_values(|t: Token| t@)
                    == old(self).rest().subrange(0, ret@.len() as int),
                self.rest() == old(self).rest()
                    .subrange(ret@.len() as int, old(self).rest().len() as int),
            decreases self.rest().len(),
        {
            if self.tokens.len() == 0 {
                return Err(CompileError::UnexpectedEnd);
            }
            if kind_eq(&self.tokens[0], stop) {
                proof {
                    assert(self.rest()[0] == old(self).rest()[ret@.len() as int]);
                }
                return Ok(ret);
            }
            let t = self.pop_front();
            match t {
                Some(t) => {
                    proof {
                        assert(ret@.push(t).map_values(|q: Token| q@)
                            =~= ret@.map_values(|q: Token| q@).push(t@));
                        assert(ret@.map_values(|q: Token| q@).push(t@)
                            =~= old(self).rest().subrange(0, ret@.len() as int + 1));
                        assert(old(self).rest()
                            .subrange(ret@.len() as int, old(self).rest().len() as int)
                            .drop_first()
                            =~= old(self).rest()
                                .subrange(ret@.len() as int + 1, old(self).rest().len() as int));
                    }
                    ret.push(t);
                }
                None => {
                    return Err(CompileError::UnexpectedEnd);
                }
            }
        }
    }

    /// Pops tokens up to the first of kind `stop`, or all of them when none
    /// is of that kind.
    #[verifier::loop_isolation(false)]
    fn pop_until_or_end(&mut self, stop: &Token) -> (r: Vec<Token>)
        ensures
            r@.len() <= old(self).rest().len(),
            r@.map_values(|t: Token| t@) == old(self).rest().subrange(0, r@.len() as int),
            final(self).rest()
                == old(self).rest().subrange(r@.len() as int, old(self).rest().len() as int),
    {
        let mut ret: Vec<Token> = Vec::new();
        loop
            invariant
                ret@.len() <= old(self).rest().len(),
                ret@.map_values(|t: Token| t@)
                    == old(self).rest().subrange(0, ret@.len() as int),
                self.rest() == old(self).rest()
                    .subrange(ret@.len() as int, old(self).rest().len() as int),
            decreases self.rest().len(),
        {
            if self.tokens.len() == 0 {
                return ret;
            }
            if kind_eq(&self.tokens[0], stop) {
                return ret;
            }
            let t = self.pop_front();
            match t {
                Some(t) => {
                    proof {
                        assert(ret@.push(t).map_values(|q: Token| q@)
                            =~= ret@.map_values(|q: Token| q@).push(t@));
                        assert(ret@.map_values(|q: Token| q@).push(t@)
                            =~= old(self).rest().subrange(0, ret@.len() as int + 1));
                        assert(old(self).rest()
                            .subrange(ret@.len() as int, old(self).rest().len() as int)
                            .drop_first()
                            =~= old(self).rest()
                                .subrange(ret@.len() as int + 1, old(self).rest().len() as int));
                    }
                    ret.push(t);
                }
                None => {
                    return ret;
                }
            }
        }
    }

    /// Pops a delimited region: the `open` token, the tokens between it and
    /// its matching `close` (nesting respected), and the `close` itself;
    /// returns what was between the delimiters.
    #[verifier::loop_isolation(false)]
    fn pop_scope(&mut self, open: Token, close: Token) -> (r: Result<Vec<Token>, CompileError>)
        ensures
            r matches Ok(v) ==> v@.len() + 2 <= old(self).rest().len()
                && final(self).rest().len() == old(self).rest().len() - v@.len() - 2
                && same_kind(old(self).rest()[0], open@),
    {
        let first = match self.pop_front() {
            Some(t) => t,
            None => {
                return Err(CompileError::UnexpectedEnd);
            }
        };
        if !kind_eq(&first, &open) {
            return Err(CompileError::UnexpectedToken);
        }

        let mut depth: usize = 1;
        let mut ret: Vec<Token> = Vec::new();
        loop
            invariant
                depth >= 1,
                ret@.len() + 1 <= old(self).rest().len(),
                self.rest().len() == old(self).rest().len() - ret@.len() - 1,
                same_kind(old(self).rest()[0], open@),
            decreases self.rest().len(),
        {
            if self.tokens.len() == 0 {
                return Err(CompileError::UnexpectedEnd);
            }
            let is_open = kind_eq(&self.tokens[0], &open);
            let is_close = kind_eq(&self.tokens[0], &close);
            if is_close && depth == 1 {
                // the matching close delimiter
                match self.pop_front() {
                    Some(_) => {}
                    None => {
                        return Err(CompileError::UnexpectedEnd);
                    }
                }
                return Ok(ret);
            }
            if is_open {
                if depth == usize::MAX {
                    return Err(CompileError::UnexpectedToken);
                }
                depth = depth + 1;
            } else if is_close {
                depth = depth - 1;
            }
            match self.pop_front() {
                Some(t) => {
                    ret.push(t);
                }
                None => {
                    return Err(CompileError::UnexpectedEnd);
                }
            }
        }
    }
}

impl Parser {
    /// One atom: an integer literal or an identifier.
    fn parse_value(&mut self) -> (r: Result<Box<ast::Node>, CompileError>)
        ensures
            r is Ok ==> final(self).rest().len() < old(self).rest().len(),
    {
        match self.pop_front() {
            Some(Token::Number(num)) => Ok(Box::new(ast::Node::Integer(ast::Integer::new(num)))),
            Some(Token::Identifier(ident)) => Ok(Box::new(ast::Node::VariableLookup(
                ast::VariableLookup::new(ident),
            ))),
            Some(_) => Err(CompileError::UnexpectedToken),
            None => Err(CompileError::UnexpectedEnd),
        }
    }

    /// An operator at the front of the stream whose binding strength is at
    /// least `precedence`; `==` and `!=` take two tokens, the rest one.
    fn parse_operator(&mut self, precedence: u8) -> (r: Result<Option<Operator>, CompileError>)
        ensures
            r matches Ok(o) ==> (match o {
                Some(_) => final(self).rest().len() < old(self).rest().len(),
                None => *final(self) == *old(self),
            }),
    {
        let (op, size): (Operator, usize) = if self.tokens.len() == 0 {
            return Ok(None);
        } else {
            match &self.tokens[0] {
                Token::Plus => (Operator::Add, 1),
                Token::Minus => (Operator::Sub, 1),
                Token::Star => (Operator::Mul, 1),
                Token::Slash => (Operator::Div, 1),
                Token::Equals => {
                    if self.tokens.len() >= 2 && kind_eq(&self.tokens[1], &Token::Equals) {
                        (Operator::Equal, 2)
                    } else {
                        (Operator::Assignment, 1)
                    }
                }
                Token::ExclamationMark => {
                    if self.tokens.len() >= 2 && kind_eq(&self.tokens[1], &Token::Equals) {
                        (Operator::NotEqual, 2)
                    } else {
                        return Err(CompileError::UnexpectedToken);
                    }
                }
                _ => {
                    return Ok(None);
                }
            }
        };

        if op.precedence() >= precedence {
            let mut i: usize = 0;
            while i < size
                invariant
                    i <= size,
                    size <= 2,
                    self.rest().len() <= old(self).rest().len(),
                    i == 0 ==> self.rest().len() == old(self).rest().len(),
                    i >= 1 && old(self).rest().len() > 0
                        ==> self.rest().len() < old(self).rest().len(),
                decreases size - i,
            {
                self.pop_front();
                i = i + 1;
            }
            Ok(Some(op))
        } else {
            Ok(None)
        }
    }

    /// The right-recursive continuation: `lhs op rest`, where operators of
    /// binding strength at least `op`'s continue the right-hand side.
    fn parse_operation(
        &mut self,
        lhs: Box<ast::Node>,
        op: Operator,
    ) -> (r: Result<Box<ast::Node>, CompileError>)
        ensures
            r is Ok ==> final(self).rest().len() < old(self).rest().len(),
        decreases self.rest().len(), 0int,
    {
        let mut rhs = self.parse_value()?;
        rhs = self.try_parse_function_call(rhs)?;

        let prec = op.precedence();
        if let Some(x) = self.parse_operator(prec)? {
            rhs = self.parse_operation(rhs, x)?;
        }

        Ok(Box::new(ast::Node::BinaryOperation(ast::BinaryOperation::new(lhs, rhs, op))))
    }

    /// A whole expression; the stream must hold exactly one, and is consumed
    /// entirely.
    #[verifier::loop_isolation(false)]
    fn parse_expression(&mut self) -> (r: Result<Box<ast::Node>, CompileError>)
        ensures
            r is Ok ==> final(self).rest().len() == 0,
        decreases self.rest().len(), 0int,
    {
        let ghost n0 = self.rest().len();
        let mut value = self.parse_value()?;
        value = self.try_parse_function_call(value)?;

        while self.tokens.len() != 0
            invariant
                self.rest().len() < n0,
            decreases self.rest().len(), 1int,
        {
            let ghost before = self.rest().len();
            let opt = self.parse_operator(0)?;
            match opt {
                Some(op) => {
                    value = self.parse_operation(value, op)?;
                    proof {
                        assert(self.rest().len() < before);
                    }
                }
                None => {
                    return Err(CompileError::UnexpectedToken);
                }
            }
        }

        Ok(value)
    }

    /// `node(argument)` — when an opening parenthesis follows, the tokens up
    /// to its matching close become the single supported call argument.
    fn try_parse_function_call(&mut self, node: Box<ast::Node>)
        -> (r: Result<Box<ast::Node>, CompileError>)
        ensures
            r is Ok ==> final(self).rest().len() <= old(self).rest().len(),
        decreases self.rest().len(), 0int,
    {
        if !self.peek_is(&Token::OpeningParen) {
            return Ok(node);
        }

        let argument_tokens = self.pop_scope(Token::OpeningParen, Token::ClosingParen)?;
        let mut sub = Parser::new(argument_tokens);
        let argument = sub.parse_expression()?;

        let mut arguments: Vec<ast::Node> = Vec::new();
        arguments.push(*argument);
        Ok(Box::new(ast::Node::Call(ast::Call::new(node, arguments))))
    }

    /// `name: type` — the one form a parameter takes.
    fn parse_parameter(&mut self) -> (r: Result<ast::ParameterDefinition, CompileError>)
    {
        let name = match self.pop_front() {
            Some(Token::Identifier(name)) => name,
            Some(_) => {
                return Err(CompileError::UnexpectedToken);
            }
            None => {
                return Err(CompileError::UnexpectedEnd);
            }
        };
        match self.pop_front() {
            Some(Token::Colon) => {}
            Some(_) => {
                return Err(CompileError::UnexpectedToken);
            }
            None => {
                return Err(CompileError::UnexpectedEnd);
            }
        }
        let typ = match self.pop_front() {
            Some(Token::Identifier(typ)) => typ,
            Some(_) => {
                return Err(CompileError::UnexpectedToken);
            }
            None => {
                return Err(CompileError::UnexpectedEnd);
            }
        };
        Ok(ast::ParameterDefinition::new(name, typ))
    }

    /// `fn name(params) { body }` — `None` when the stream does not start
    /// with the `fn` keyword.
    fn try_parse_function_definition(&mut self)
        -> (r: Result<Option<ast::FunctionDefinition>, CompileError>)
        ensures
            r matches Ok(o) ==> (match o {
                Some(_) => final(self).rest().len() < old(self).rest().len()
                    && old(self).rest().len() > 0
                    && same_kind(old(self).rest()[0], TokenModel::Fn),
                None => *final(self) == *old(self)
                    && (old(self).rest().len() == 0
                        || !same_kind(old(self).rest()[0], TokenModel::Fn)),
            }),
        decreases self.rest().len(), 0int,
    {
        if !self.peek_is(&Token::Fn) {
            return Ok(None);
        }
        self.pop_front();

        let name = match self.pop_front() {
            Some(Token::Identifier(name)) => name,
            Some(_) => {
                return Err(CompileError::UnexpectedToken);
            }
            None => {
                return Err(CompileError::UnexpectedEnd);
            }
        };

        let parameter_tokens = self.pop_scope(Token::OpeningParen, Token::ClosingParen)?;
        let mut parameter_parser = Parser::new(parameter_tokens);
        let mut parameters: Vec<ast::ParameterDefinition> = Vec::new();

        loop
            invariant true,
            decreases parameter_parser.rest().len(),
        {
            let ghost before = parameter_parser.rest().len();
            let parameter = parameter_parser.pop_until_or_end(&Token::Comma);
            if parameter.len() == 0 {
                break;
            }
            if parameter_parser.peek_is(&Token::Comma) {
                parameter_parser.pop_front();
            }
            let mut sub = Parser::new(parameter);
            parameters.push(sub.parse_parameter()?);
            proof {
                assert(parameter_parser.rest().len() < before);
            }
            if parameter_parser.tokens.len() == 0 {
                break;
            }
        }

        let body_tokens = self.pop_scope(Token::OpeningCurly, Token::ClosingCurly)?;
        let body = Parser::new(body_tokens).parse_scope()?;

        Ok(Some(ast::FunctionDefinition::new(name, parameters, 0, body)))
    }

    /// `if condition { body }` — `None` when the stream does not start with
    /// the `if` keyword.  An `else` branch is not in the grammar.
    fn try_parse_if(&mut self) -> (r: Result<Option<ast::If>, CompileError>)
        ensures
            r matches Ok(o) ==> (match o {
                Some(_) => final(self).rest().len() < old(self).rest().len()
                    && old(self).rest().len() > 0
                    && same_kind(old(self).rest()[0], TokenModel::If),
                None => *final(self) == *old(self)
                    && (old(self).rest().len() == 0
                        || !same_kind(old(self).rest()[0], TokenModel::If)),
            }),
        decreases self.rest().len(), 0int,
    {
        if !self.peek_is(&Token::If) {
            return Ok(None);
        }
        self.pop_front();

        let expression_tokens = self.pop_until(&Token::OpeningCurly)?;
        let mut sub = Parser::new(expression_tokens);
        let expression = sub.parse_expression()?;

        let branch_tokens = self.pop_scope(Token::OpeningCurly, Token::ClosingCurly)?;
        let true_branch = Parser::new(branch_tokens).parse_scope()?;

        Ok(Some(ast::If::new(expression, true_branch, None)))
    }

    /// `let name = value;` — `None` when the stream does not start with the
    /// `let` keyword.
    fn try_parse_variable_definition(&mut self)
        -> (r: Result<Option<ast::VariableDefinition>, CompileError>)
        ensures
            r matches Ok(o) ==> (match o {
                Some(_) => final(self).rest().len() < old(self).rest().len()
                    && old(self).rest().len() > 0
                    && same_kind(old(self).rest()[0], TokenModel::Let),
                None => *final(self) == *old(self)
                    && (old(self).rest().len() == 0
                        || !same_kind(old(self).rest()[0], TokenModel::Let)),
            }),
        decreases self.rest().len(), 0int,
    {
        if !self.peek_is(&Token::Let) {
            return Ok(None);
        }
        self.pop_front();

        let name = match self.pop_front() {
            Some(Token::Identifier(name)) => name,
            Some(_) => {
                return Err(CompileError::UnexpectedToken);
            }
            None => {
                return Err(CompileError::UnexpectedEnd);
            }
        };
        match self.pop_front() {
            Some(Token::Equals) => {}
            Some(_) => {
                return Err(CompileError::UnexpectedToken);
            }
            None => {
                return Err(CompileError::UnexpectedEnd);
            }
        }

        let value_tokens = self.pop_until(&Token::SemiColon)?;
        let mut sub = Parser::new(value_tokens);
        let value = sub.parse_expression()?;
        self.pop_front();

        Ok(Some(ast::VariableDefinition::new(name, value)))
    }

    /// `return value?;` — `None` when the stream does not start with the
    /// `return` keyword.
    fn try_parse_return(&mut self) -> (r: Result<Option<ast::Return>, CompileError>)
        ensures
            r matches Ok(o) ==> (match o {
                Some(_) => final(self).rest().len() < old(self).rest().len()
                    && old(self).rest().len() > 0
                    && same_kind(old(self).rest()[0], TokenModel::Return),
                None => *final(self) == *old(self)
                    && (old(self).rest().len() == 0
                        || !same_kind(old(self).rest()[0], TokenModel::Return)),
            }),
        decreases self.rest().len(), 0int,
    {
        if !self.peek_is(&Token::Return) {
            return Ok(None);
        }
        self.pop_front();

        let value_tokens = self.pop_until(&Token::SemiColon)?;
        let value = if value_tokens.len() == 0 {
            None
        } else {
            let mut sub = Parser::new(value_tokens);
            Some(sub.parse_expression()?)
        };
        self.pop_front();

        Ok(Some(ast::Return::new(value)))
    }

    /// A statement list: `if`s, `let`s, `return`s, and bare expressions
    /// ended by semicolons, until the stream is exhausted.
    #[verifier::loop_isolation(false)]
    fn parse_scope(self) -> (r: Result<ast::Scope, CompileError>)
        decreases self.rest().len(), 1int,
    {
        let ghost n0 = self.rest().len();
        let mut this = self;
        let mut nodes: Vec<ast::Node> = Vec::new();

        while this.tokens.len() != 0
            invariant
                this.rest().len() <= n0,
            decreases this.rest().len(), 1int,
        {
            let ghost before = this.rest().len();

            if let Some(node) = this.try_parse_if()? {
                nodes.push(ast::Node::If(node));
                continue;
            }
            if let Some(node) = this.try_parse_variable_definition()? {
                nodes.push(ast::Node::VariableDefinition(node));
                continue;
            }
            if let Some(node) = this.try_parse_return()? {
                nodes.push(ast::Node::Return(node));
                continue;
            }

            let value_tokens = this.pop_until(&Token::SemiColon)?;
            let mut sub = Parser::new(value_tokens);
            let value = sub.parse_expression()?;
            match this.pop_front() {
                Some(Token::SemiColon) => {}
                _ => {
                    return Err(CompileError::UnexpectedToken);
                }
            }
            nodes.push(*value);
            proof {
                assert(this.rest().len() < before);
            }
        }

        Ok(ast::Scope::new(nodes))
    }

    /// A whole program: function definitions until the stream is exhausted.
    /// Success is only possible when the stream is empty or begins with the
    /// `fn` keyword, and a nonempty stream then yields at least one function;
    /// anything else at the top level is an error.
    #[verifier::loop_isolation(false)]
    pub fn parse_global_scope(self) -> (r: Result<ast::GlobalScope, CompileError>)
        ensures
            r matches Ok(g) ==> {
                &&& self.rest().len() == 0 || same_kind(self.rest()[0], TokenModel::Fn)
                &&& (self.rest().len() > 0 ==> g.functions@.len() > 0)
                &&& (self.rest().len() == 0 ==> g.functions@.len() == 0)
            },
        decreases self.rest().len(), 1int,
    {
        let ghost n0 = self.rest().len();
        let mut this = self;
        let mut global_scope = ast::GlobalScope::new();

        proof {
            assert(this.rest() =~= self.rest());
        }
        if this.tokens.len() != 0 && !this.peek_is(&Token::Fn) {
            return Err(CompileError::UnexpectedToken);
        }

        while this.tokens.len() != 0
            invariant
                this.rest().len() <= n0,
                global_scope.functions@.len() == 0 ==> this.rest().len() == n0,
                n0 == 0 ==> global_scope.functions@.len() == 0,
            decreases this.rest().len(), 1int,
        {
            match this.try_parse_function_definition()? {
                Some(function) => {
                    global_scope.push_function(function);
                }
                None => {
                    return Err(CompileError::UnexpectedToken);
                }
            }
        }

        Ok(global_scope)
    }
}

} // verus!
