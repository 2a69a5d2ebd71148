use vstd::prelude::*;

verus! {

#[derive(Clone, Copy, Debug, PartialEq, Eq, Structural)]
pub enum Token {
    /// A reference to an lvalue interned by the compiler.
    InternedLValue(u32),
    Assign,
    Let,
    Other(u32),
}

/// A span of token positions, `start` included, `end` excluded.
#[derive(Clone, Copy, Debug, PartialEq, Eq, Structural)]
pub struct Location {
    pub start: usize,
    pub end: usize,
}

#[derive(Clone, Copy, Debug, PartialEq, Eq, Structural)]
pub enum LValue {
    Interned(u32, Location),
}

/// An expression, kept as the tokens it spans.
#[derive(Clone, Debug, PartialEq, Eq)]
pub struct Expression {
    pub tokens: Vec<Token>,
    pub location: Location,
}

#[derive(Clone, Debug, PartialEq, Eq)]
pub enum StatementKind {
    Assign { lvalue: LValue, expression: Expression },
    Let(Expression),
    Expression(Expression),
}

#[derive(Clone, Debug, PartialEq, Eq)]
pub struct Statement {
    pub kind: StatementKind,
    pub location: Location,
}

#[derive(Clone, Debug, PartialEq, Eq)]
pub enum StatementOrExpressionOrLValue {
    Statement(Statement),
    Expression(Expression),
    LValue(LValue),
}

pub struct Parser {
    pub tokens: Vec<Token>,
    pub pos: usize,
}

/// `e` spans the tokens from `start` to the end of `tokens`.
pub open spec fn is_rest(e: Expression, tokens: Seq<Token>, start: int) -> bool {
    &&& e.tokens@ == tokens.subrange(start, tokens.len() as int)
    &&& e.location == Location { start: start as usize, end: tokens.len() as usize }
}

impl Parser {
    /// The expression made of every remaining token.
    fn parse_expression_or_error(&mut self) -> (r: Expression)
        requires
            old(self).pos <= old(self).tokens@.len(),
        ensures
            is_rest(r, old(self).tokens@, old(self).pos as int),
            final(self).tokens@ == old(self).tokens@,
            final(self).pos == final(self).tokens@.len(),
    {
        let start = self.pos;
        let n = self.tokens.len();
        let mut out: Vec<Token> = Vec::new();
        let mut i: usize = start;
        while i < n
            invariant
                start <= i <= n,
                n == self.tokens@.len(),
                out@ == self.tokens@.subrange(start as int, i as int),
            decreases n - i,
        {
            out.push(self.tokens[i]);
            assert(self.tokens@.subrange(start as int, i + 1) == self.tokens@.subrange(
                start as int,
                i as int,
            ).push(self.tokens@[i as int]));
            i = i + 1;
        }
        self.pos = n;
        Expression { tokens: out, location: Location { start, end: n } }
    }

    /// A `let` statement over the tokens after `let`, or an expression
    /// statement over every remaining token.
    fn parse_statement_or_error(&mut self) -> (r: Statement)
        requires
            old(self).pos <= old(self).tokens@.len(),
        ensures
            final(self).tokens@ == old(self).tokens@,
            final(self).pos == final(self).tokens@.len(),
            ({
                let t = old(self).tokens@;
                let p = old(self).pos as int;
                r.location == Location { start: p as usize, end: t.len() as usize } && if p < t.len()
                    && t[p] == Token::Let {
                    r.kind is Let && is_rest(r.kind->Let_0, t, p + 1)
                } else {
                    r.kind is Expression && is_rest(r.kind->Expression_0, t, p)
                }
            }),
    {
        let start = self.pos;
        if self.pos < self.tokens.len() && self.tokens[self.pos] == Token::Let {
            self.pos = self.pos + 1;
            let e = self.parse_expression_or_error();
            Statement { kind: StatementKind::Let(e), location: Location { start, end: self.pos } }
        } else {
            let e = self.parse_expression_or_error();
            Statement {
                kind: StatementKind::Expression(e),
                location: Location { start, end: self.pos },
            }
        }
    }

    /// Parses an interned lvalue, an assignment to one, or else a statement,
    /// which is returned as an expression when it is an expression
    /// statement.
    pub fn parse_statement_or_expression_or_lvalue(&mut self) -> (r: StatementOrExpressionOrLValue)
        requires
            old(self).pos <= old(self).tokens@.len(),
        ensures
            final(self).tokens@ == old(self).tokens@,
            final(self).pos == if r is LValue {
                old(self).pos + 1
            } else {
                old(self).tokens@.len() as int
            },
            ({
                let t = old(self).tokens@;
                let p = old(self).pos as int;
                if p < t.len() && t[p] is InternedLValue {
                    let lv = LValue::Interned(
                        t[p]->InternedLValue_0,
                        Location { start: p as usize, end: (p + 1) as usize },
                    );
                    if p + 1 < t.len() && t[p + 1] == Token::Assign {
                        match r {
                            StatementOrExpressionOrLValue::Statement(s) => match s.kind {
                                StatementKind::Assign { lvalue, expression } => lvalue == lv
                                    && is_rest(expression, t, p + 2) && s.location == Location {
                                    start: p as usize,
                                    end: t.len() as usize,
                                },
                                _ => false,
                            },
                            _ => false,
                        }
                    } else {
                        r == StatementOrExpressionOrLValue::LValue(lv)
                    }
                } else if p < t.len() && t[p] == Token::Let {
                    match r {
                        StatementOrExpressionOrLValue::Statement(s) => s.kind is Let && is_rest(
                            s.kind->Let_0,
                            t,
                            p + 1,
                        ),
                        _ => false,
                    }
                } else {
                    match r {
                        StatementOrExpressionOrLValue::Expression(e) => is_rest(e, t, p),
                        _ => false,
                    }
                }
            }),
    {
        let start = self.pos;
        if self.pos < self.tokens.len() {
            if let Token::InternedLValue(id) = self.tokens[self.pos] {
                self.pos = self.pos + 1;
                let lvalue = LValue::Interned(id, Location { start, end: self.pos });
                if self.pos < self.tokens.len() && self.tokens[self.pos] == Token::Assign {
                    self.pos = self.pos + 1;
                    let expression = self.parse_expression_or_error();
                    let kind = StatementKind::Assign { lvalue, expression };
                    return StatementOrExpressionOrLValue::Statement(
                        Statement { kind, location: Location { start, end: self.pos } },
                    );
                } else {
                    return StatementOrExpressionOrLValue::LValue(lvalue);
                }
            }
        }
        let statement = self.parse_statement_or_error();
        match statement.kind {
            StatementKind::Expression(expr) => StatementOrExpressionOrLValue::Expression(expr),
            kind => StatementOrExpressionOrLValue::Statement(
                Statement { kind, location: statement.location },
            ),
        }
    }
}

} // verus!
