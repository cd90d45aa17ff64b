//! The recursive-descent parser: a cursor with one-token lookahead over the
//! token sequence, proved to produce exactly what the grammar spec functions
//! in `grammar` describe.

use vstd::prelude::*;
use crate::ast::{
    CreateQuery, DataType, ExprModel, InsertQuery, SQLExpression, SQLQuery, SelectQuery,
    expr_view, exprs_view, opt_query_view,
};
use crate::grammar::{
    column_tail_spec, columns_spec, comparison_rest_spec, comparison_spec, create_columns_spec,
    create_spec, data_type_of, insert_spec, is_comparison_op, is_logical_op,
    lemma_column_tail_advances, lemma_comparison_advances, lemma_primary_advances,
    logical_rest_spec, logical_spec, parse_spec, primary_spec,
    select_spec, tok_at, values_spec, ModifierSlot,
};
use crate::lexer::token_views;
use crate::text::{to_upper, tok_eq};

verus! {

/// Whether a token reads as a logical connective.
fn is_logical_kw(t: &String) -> (r: bool)
    ensures
        r == is_logical_op(t@),
{
    tok_eq(t, "AND") || tok_eq(t, "OR")
}

/// Whether a token reads as one of the accepted comparison operators.
fn is_comparison_kw(t: &String) -> (r: bool)
    ensures
        r == is_comparison_op(t@),
{
    tok_eq(t, "==") || tok_eq(t, "!=") || tok_eq(t, "<") || tok_eq(t, ">") || tok_eq(t, "<=")
        || tok_eq(t, ">=")
}

/// The data type a keyword token names, or `None` outside the closed set.
pub fn match_data_type(t: &String) -> (r: Option<DataType>)
    ensures
        r == data_type_of(t@),
{
    let u = to_upper(t.as_str());
    if tok_eq(&u, "TEXT") {
        Some(DataType::TEXT { length: 256 })
    } else if tok_eq(&u, "BOOL") {
        Some(DataType::BOOL)
    } else if tok_eq(&u, "DATETIME") {
        Some(DataType::DATETIME)
    } else if tok_eq(&u, "FLOAT") {
        Some(DataType::FLOAT { unsigned: false })
    } else if tok_eq(&u, "DOUBLE") {
        Some(DataType::DOUBLE { unsigned: false })
    } else if tok_eq(&u, "BYTE") {
        Some(DataType::BYTE { unsigned: false })
    } else if tok_eq(&u, "SHORT") {
        Some(DataType::SHORT { unsigned: false })
    } else if tok_eq(&u, "INT") {
        Some(DataType::INT { unsigned: false })
    } else if tok_eq(&u, "LONG") {
        Some(DataType::LONG { unsigned: false })
    } else if tok_eq(&u, "BIGINT") {
        Some(DataType::BIGINT { unsigned: false })
    } else if tok_eq(&u, "UUID") {
        Some(DataType::UUID { unsigned: false })
    } else if tok_eq(&u, "U_FLOAT") {
        Some(DataType::FLOAT { unsigned: true })
    } else if tok_eq(&u, "U_DOUBLE") {
        Some(DataType::DOUBLE { unsigned: true })
    } else if tok_eq(&u, "U_BYTE") {
        Some(DataType::BYTE { unsigned: true })
    } else if tok_eq(&u, "U_SHORT") {
        Some(DataType::SHORT { unsigned: true })
    } else if tok_eq(&u, "U_INT") {
        Some(DataType::INT { unsigned: true })
    } else if tok_eq(&u, "U_LONG") {
        Some(DataType::LONG { unsigned: true })
    } else if tok_eq(&u, "U_BIGINT") {
        Some(DataType::BIGINT { unsigned: true })
    } else if tok_eq(&u, "U_UUID") {
        Some(DataType::UUID { unsigned: true })
    } else {
        None
    }
}

/// The parser's cursor over the token sequence.
pub struct Parser {
    tokens: Vec<String>,
    pos: usize,
}

impl Parser {
    /// The texts of the tokens being parsed.
    pub closed spec fn toks(self) -> Seq<Seq<char>> {
        token_views(self.tokens@)
    }

    /// The cursor position.
    pub closed spec fn cursor(self) -> int {
        self.pos as int
    }

    pub fn new(tokens: &Vec<String>) -> (p: Parser)
        ensures
            p.toks() == token_views(tokens@),
            p.cursor() == 0,
    {
        let mut own: Vec<String> = Vec::new();
        let mut i: usize = 0;
        while i < tokens.len()
            invariant
                i <= tokens.len(),
                own@.len() == i,
                forall|j: int| 0 <= j < i ==> own@[j] == tokens@[j],
            decreases tokens.len() - i,
        {
            own.push(tokens[i].clone());
            i = i + 1;
        }
        proof {
            assert(own@ =~= tokens@);
        }
        Parser { tokens: own, pos: 0 }
    }

    /// Reads the next token without consuming it and tests it against `w`.
    fn peek_token(&self, w: &str) -> (r: bool)
        ensures
            r == tok_at(self.toks(), self.pos as int, w@),
    {
        if self.pos < self.tokens.len() {
            tok_eq(&self.tokens[self.pos], w)
        } else {
            false
        }
    }

    /// Keyword lookahead; keywords are ordinary tokens, so this is
    /// `peek_token` under another name.
    fn peek_keyword(&self, kw: &str) -> (r: bool)
        ensures
            r == tok_at(self.toks(), self.pos as int, kw@),
    {
        self.peek_token(kw)
    }

    /// Consumes and returns the next token, or `None` at the end.
    fn next_token(&mut self) -> (r: Option<String>)
        ensures
            final(self).tokens == old(self).tokens,
            match r {
                Some(t) => old(self).pos < old(self).tokens@.len()
                    && t@ == old(self).toks()[old(self).pos as int]
                    && final(self).pos == old(self).pos + 1,
                None => old(self).pos >= old(self).tokens@.len()
                    && final(self).pos == old(self).pos,
            },
    {
        if self.pos < self.tokens.len() {
            let t = self.tokens[self.pos].clone();
            self.pos = self.pos + 1;
            Some(t)
        } else {
            None
        }
    }

    /// Consumes the next token and succeeds exactly when it reads `kw`.
    fn expect_keyword(&mut self, kw: &str) -> (r: Option<()>)
        ensures
            final(self).tokens == old(self).tokens,
            r is Some <==> tok_at(old(self).toks(), old(self).pos as int, kw@),
            r is Some ==> final(self).pos == old(self).pos + 1,
    {
        match self.next_token() {
            Some(t) => if tok_eq(&t, kw) {
                Some(())
            } else {
                None
            },
            None => None,
        }
    }

    /// Consumes the next token and succeeds exactly when it reads `w`.
    fn expect_token(&mut self, w: &str) -> (r: Option<()>)
        ensures
            final(self).tokens == old(self).tokens,
            r is Some <==> tok_at(old(self).toks(), old(self).pos as int, w@),
            r is Some ==> final(self).pos == old(self).pos + 1,
    {
        self.expect_keyword(w)
    }

    /// Returns the next token without consuming it when it spells a logical
    /// or comparison operator.
    fn peek_operator(&self) -> (r: Option<String>)
        ensures
            match r {
                Some(op) => tok_at(self.toks(), self.pos as int, op@) && (is_logical_op(op@)
                    || is_comparison_op(op@)),
                None => !(0 <= self.pos < self.toks().len()
                    && (is_logical_op(self.toks()[self.pos as int])
                        || is_comparison_op(self.toks()[self.pos as int]))),
            },
    {
        if self.pos < self.tokens.len() {
            let t = &self.tokens[self.pos];
            if is_logical_kw(t) || is_comparison_kw(t) {
                Some(t.clone())
            } else {
                None
            }
        } else {
            None
        }
    }

    /// Consumes one token as an identifier; fails only at the end of input.
    fn parse_identifier(&mut self) -> (r: Option<SQLExpression>)
        ensures
            final(self).tokens == old(self).tokens,
            match r {
                Some(e) => old(self).pos < old(self).tokens@.len()
                    && e@ == ExprModel::Identifier(old(self).toks()[old(self).pos as int])
                    && final(self).pos == old(self).pos + 1,
                None => old(self).pos >= old(self).tokens@.len()
                    && final(self).pos == old(self).pos,
            },
    {
        match self.next_token() {
            Some(t) => Some(SQLExpression::Identifier(t)),
            None => None,
        }
    }

    /// A primary expression: a parenthesized logical expression, or the next
    /// token read as an identifier (with the literal reading as the fallback
    /// that only end-of-input reaches).
    fn parse_primary_expression(&mut self) -> (r: Option<SQLExpression>)
        ensures
            final(self).tokens == old(self).tokens,
            match r {
                Some(e) => primary_spec(old(self).toks(), old(self).pos as int) == Some(
                    (e@, final(self).pos as int),
                ) && old(self).pos < final(self).pos <= final(self).tokens@.len(),
                None => primary_spec(old(self).toks(), old(self).pos as int) is None,
            },
        decreases self.tokens@.len() - self.pos, 0int,
    {
        let ghost ts = self.toks();
        let ghost pos0 = self.pos as int;
        if self.peek_token("(") {
            self.next_token();
            let inner = self.parse_logical_expression();
            match self.expect_token(")") {
                Some(()) => {},
                None => {
                    return None;
                },
            }
            match inner {
                Some(e) => Some(e),
                None => None,
            }
        } else {
            match self.parse_identifier() {
                Some(id) => Some(id),
                None => self.parse_literal(),
            }
        }
    }

    /// A comparison-level expression: a primary, then a left-associative
    /// chain of comparison operators.
    #[verifier::loop_isolation(false)]
    fn parse_comparison_expression(&mut self) -> (r: Option<SQLExpression>)
        ensures
            final(self).tokens == old(self).tokens,
            match r {
                Some(e) => comparison_spec(old(self).toks(), old(self).pos as int) == Some(
                    (e@, final(self).pos as int),
                ) && old(self).pos < final(self).pos <= final(self).tokens@.len(),
                None => comparison_spec(old(self).toks(), old(self).pos as int) is None,
            },
        decreases self.tokens@.len() - self.pos, 1int,
    {
        let ghost ts = self.toks();
        let ghost pos0 = self.pos as int;
        let mut left = match self.parse_primary_expression() {
            Some(e) => e,
            None => {
                return None;
            },
        };
        proof {
            lemma_primary_advances(ts, pos0);
        }
        loop
            invariant
                self.tokens == old(self).tokens,
                old(self).pos < self.pos <= self.tokens@.len(),
                comparison_rest_spec(ts, self.pos as int, left@) == comparison_spec(ts, pos0),
            decreases self.tokens@.len() - self.pos,
        {
            let ghost cur = self.pos as int;
            let op_opt = self.peek_operator();
            match op_opt {
                Some(op) => {
                    if is_comparison_kw(&op) {
                        self.next_token();
                        let ghost left_model = left@;
                        let right = match self.parse_primary_expression() {
                            Some(e) => e,
                            None => {
                                proof {
                                    assert(comparison_rest_spec(ts, cur, left_model) is None);
                                }
                                return None;
                            },
                        };
                        proof {
                            lemma_primary_advances(ts, cur + 1);
                        }
                        left = SQLExpression::BinaryExpression {
                            operator: op,
                            left: Box::new(left),
                            right: Box::new(right),
                        };
                        proof {
                            assert(left@ == ExprModel::BinaryExpression {
                                operator: ts[cur],
                                left: Box::new(left_model),
                                right: Box::new(expr_view(right)),
                            });
                            assert(comparison_rest_spec(ts, cur, left_model)
                                == comparison_rest_spec(ts, self.pos as int, left@));
                        }
                    } else {
                        proof {
                            assert(comparison_rest_spec(ts, self.pos as int, left@) == Some(
                                (left@, self.pos as int),
                            ));
                        }
                        return Some(left);
                    }
                },
                None => {
                    proof {
                        assert(comparison_rest_spec(ts, self.pos as int, left@) == Some(
                            (left@, self.pos as int),
                        ));
                    }
                    return Some(left);
                },
            }
        }
    }

    /// A logical-level expression: a comparison, then a left-associative
    /// chain of `AND`/`OR`.
    #[verifier::loop_isolation(false)]
    fn parse_logical_expression(&mut self) -> (r: Option<SQLExpression>)
        ensures
            final(self).tokens == old(self).tokens,
            match r {
                Some(e) => logical_spec(old(self).toks(), old(self).pos as int) == Some(
                    (e@, final(self).pos as int),
                ) && old(self).pos < final(self).pos <= final(self).tokens@.len(),
                None => logical_spec(old(self).toks(), old(self).pos as int) is None,
            },
        decreases self.tokens@.len() - self.pos, 2int,
    {
        let ghost ts = self.toks();
        let ghost pos0 = self.pos as int;
        let mut left = match self.parse_comparison_expression() {
            Some(e) => e,
            None => {
                return None;
            },
        };
        proof {
            lemma_comparison_advances(ts, pos0);
        }
        loop
            invariant
                self.tokens == old(self).tokens,
                old(self).pos < self.pos <= self.tokens@.len(),
                logical_rest_spec(ts, self.pos as int, left@) == logical_spec(ts, pos0),
            decreases self.tokens@.len() - self.pos,
        {
            let ghost cur = self.pos as int;
            let op_opt = self.peek_operator();
            match op_opt {
                Some(op) => {
                    if is_logical_kw(&op) {
                        self.next_token();
                        let ghost left_model = left@;
                        let right = match self.parse_comparison_expression() {
                            Some(e) => e,
                            None => {
                                proof {
                                    assert(logical_rest_spec(ts, cur, left_model) is None);
                                }
                                return None;
                            },
                        };
                        proof {
                            lemma_comparison_advances(ts, cur + 1);
                        }
                        left = SQLExpression::BinaryExpression {
                            operator: op,
                            left: Box::new(left),
                            right: Box::new(right),
                        };
                        proof {
                            assert(left@ == ExprModel::BinaryExpression {
                                operator: ts[cur],
                                left: Box::new(left_model),
                                right: Box::new(expr_view(right)),
                            });
                            assert(logical_rest_spec(ts, cur, left_model)
                                == logical_rest_spec(ts, self.pos as int, left@));
                        }
                    } else {
                        proof {
                            assert(logical_rest_spec(ts, self.pos as int, left@) == Some(
                                (left@, self.pos as int),
                            ));
                        }
                        return Some(left);
                    }
                },
                None => {
                    proof {
                        assert(logical_rest_spec(ts, self.pos as int, left@) == Some(
                            (left@, self.pos as int),
                        ));
                    }
                    return Some(left);
                },
            }
        }
    }

    /// One-or-more comma-separated column identifiers.
    #[verifier::loop_isolation(false)]
    fn parse_columns(&mut self) -> (r: Option<Vec<SQLExpression>>)
        ensures
            final(self).tokens == old(self).tokens,
            match r {
                Some(v) => columns_spec(old(self).toks(), old(self).pos as int) == Some(
                    (exprs_view(v@), final(self).pos as int),
                ) && old(self).pos < final(self).pos <= final(self).tokens@.len(),
                None => columns_spec(old(self).toks(), old(self).pos as int) is None,
            },
    {
        let ghost ts = self.toks();
        let ghost pos0 = self.pos as int;
        let mut columns: Vec<SQLExpression> = Vec::new();
        proof {
            match columns_spec(ts, pos0) {
                None => {},
                Some((cs, p)) => {
                    assert(exprs_view(columns@) + cs =~= cs);
                },
            }
        }
        loop
            invariant
                self.tokens == old(self).tokens,
                old(self).pos <= self.pos,
                columns_spec(ts, pos0) == (match columns_spec(ts, self.pos as int) {
                    None => None::<(Seq<ExprModel>, int)>,
                    Some((cs, p)) => Some((exprs_view(columns@) + cs, p)),
                }),
            decreases self.tokens@.len() - self.pos,
        {
            let ghost cur = self.pos as int;
            let ghost acc = columns@;
            let column = match self.parse_identifier() {
                Some(c) => c,
                None => {
                    proof {
                        assert(columns_spec(ts, cur) is None);
                    }
                    return None;
                },
            };
            columns.push(column);
            proof {
                assert(exprs_view(columns@) =~= exprs_view(acc) + seq![column@]);
            }
            if !self.peek_token(",") {
                proof {
                    assert(columns_spec(ts, cur) == Some(
                        (seq![ExprModel::Identifier(ts[cur])], cur + 1),
                    ));
                    assert(exprs_view(acc) + seq![column@] =~= exprs_view(acc) + seq![
                        ExprModel::Identifier(ts[cur]),
                    ]);
                }
                return Some(columns);
            }
            self.next_token();
            proof {
                match columns_spec(ts, self.pos as int) {
                    None => {
                        assert(columns_spec(ts, cur) is None);
                    },
                    Some((cs, p)) => {
                        assert(columns_spec(ts, cur) == Some(
                            (seq![ExprModel::Identifier(ts[cur])] + cs, p),
                        ));
                        assert(exprs_view(columns@) + cs =~= exprs_view(acc) + (seq![
                            ExprModel::Identifier(ts[cur]),
                        ] + cs));
                    },
                }
            }
        }
    }

    /// One-or-more comma-separated value literals.
    #[verifier::loop_isolation(false)]
    fn parse_values(&mut self) -> (r: Option<Vec<SQLExpression>>)
        ensures
            final(self).tokens == old(self).tokens,
            match r {
                Some(v) => values_spec(old(self).toks(), old(self).pos as int) == Some(
                    (exprs_view(v@), final(self).pos as int),
                ) && old(self).pos < final(self).pos <= final(self).tokens@.len(),
                None => values_spec(old(self).toks(), old(self).pos as int) is None,
            },
    {
        let ghost ts = self.toks();
        let ghost pos0 = self.pos as int;
        let mut values: Vec<SQLExpression> = Vec::new();
        proof {
            match values_spec(ts, pos0) {
                None => {},
                Some((cs, p)) => {
                    assert(exprs_view(values@) + cs =~= cs);
                },
            }
        }
        loop
            invariant
                self.tokens == old(self).tokens,
                old(self).pos <= self.pos,
                values_spec(ts, pos0) == (match values_spec(ts, self.pos as int) {
                    None => None::<(Seq<ExprModel>, int)>,
                    Some((vs, p)) => Some((exprs_view(values@) + vs, p)),
                }),
            decreases self.tokens@.len() - self.pos,
        {
            let ghost cur = self.pos as int;
            let ghost acc = values@;
            let value = match self.parse_literal() {
                Some(c) => c,
                None => {
                    proof {
                        assert(values_spec(ts, cur) is None);
                    }
                    return None;
                },
            };
            values.push(value);
            proof {
                assert(exprs_view(values@) =~= exprs_view(acc) + seq![value@]);
            }
            if !self.peek_token(",") {
                proof {
                    assert(values_spec(ts, cur) == Some(
                        (seq![ExprModel::Literal(ts[cur])], cur + 1),
                    ));
                    assert(exprs_view(acc) + seq![value@] =~= exprs_view(acc) + seq![
                        ExprModel::Literal(ts[cur]),
                    ]);
                }
                return Some(values);
            }
            self.next_token();
            proof {
                match values_spec(ts, self.pos as int) {
                    None => {
                        assert(values_spec(ts, cur) is None);
                    },
                    Some((vs, p)) => {
                        assert(values_spec(ts, cur) == Some(
                            (seq![ExprModel::Literal(ts[cur])] + vs, p),
                        ));
                        assert(exprs_view(values@) + vs =~= exprs_view(acc) + (seq![
                            ExprModel::Literal(ts[cur]),
                        ] + vs));
                    },
                }
            }
        }
    }

    /// `SELECT <columns> FROM <table> [WHERE <conditions>]`.
    fn parse_select(&mut self) -> (r: Option<SelectQuery>)
        ensures
            final(self).tokens == old(self).tokens,
            match r {
                Some(q) => select_spec(old(self).toks(), old(self).pos as int) == Some(q@),
                None => select_spec(old(self).toks(), old(self).pos as int) is None,
            },
    {
        let ghost ts = self.toks();
        let ghost pos0 = self.pos as int;
        if self.expect_keyword("SELECT").is_none() {
            return None;
        }
        let columns = match self.parse_columns() {
            Some(cs) => cs,
            None => {
                return None;
            },
        };
        if self.expect_keyword("FROM").is_none() {
            return None;
        }
        let table = match self.parse_identifier() {
            Some(t) => t,
            None => {
                return None;
            },
        };
        let conditions = if self.peek_keyword("WHERE") {
            self.next_token();
            match self.parse_conditions() {
                Some(c) => Some(c),
                None => {
                    return None;
                },
            }
        } else {
            None
        };
        Some(SelectQuery { columns, table, conditions })
    }

    /// `INSERT INTO <table> ( <columns> ) VALUES ( <values> )`.
    fn parse_insert(&mut self) -> (r: Option<InsertQuery>)
        ensures
            final(self).tokens == old(self).tokens,
            match r {
                Some(q) => insert_spec(old(self).toks(), old(self).pos as int) == Some(q@),
                None => insert_spec(old(self).toks(), old(self).pos as int) is None,
            },
    {
        let ghost ts = self.toks();
        let ghost pos0 = self.pos as int;
        if self.expect_keyword("INSERT").is_none() {
            return None;
        }
        if self.expect_keyword("INTO").is_none() {
            return None;
        }
        let table = match self.parse_identifier() {
            Some(t) => t,
            None => {
                return None;
            },
        };
        if self.expect_token("(").is_none() {
            return None;
        }
        let columns = match self.parse_columns() {
            Some(cs) => cs,
            None => {
                return None;
            },
        };
        if self.expect_token(")").is_none() {
            return None;
        }
        if self.expect_keyword("VALUES").is_none() {
            return None;
        }
        if self.expect_token("(").is_none() {
            return None;
        }
        let values = match self.parse_values() {
            Some(vs) => vs,
            None => {
                return None;
            },
        };
        if self.expect_token(")").is_none() {
            return None;
        }
        Some(InsertQuery { table, columns, values })
    }

    /// `CREATE TABLE <name> ( <column defs> ) ;` or `CREATE DATABASE <name> ;`.
    /// Column definitions run through a small state machine: name, data type,
    /// then modifier slots in the fixed order `PRIMARY`, `NOTNULL`,
    /// `IDENTITY`, ended by `,` or `)`.
    #[verifier::loop_isolation(false)]
    fn parse_create(&mut self) -> (r: Option<CreateQuery>)
        ensures
            final(self).tokens == old(self).tokens,
            match r {
                Some(q) => create_spec(old(self).toks(), old(self).pos as int) == Some(q@),
                None => create_spec(old(self).toks(), old(self).pos as int) is None,
            },
    {
        let ghost ts = self.toks();
        let ghost pos0 = self.pos as int;
        if self.expect_keyword("CREATE").is_none() {
            return None;
        }
        let kind = match self.next_token() {
            Some(t) => t,
            None => {
                return None;
            },
        };
        if tok_eq(&kind, "TABLE") {
            let name = match self.next_token() {
                Some(t) => t,
                None => {
                    return None;
                },
            };
            if self.expect_token("(").is_none() {
                return None;
            }
            let ghost colstart = self.pos as int;
            let mut cols: Vec<SQLExpression> = Vec::new();
            proof {
                match create_columns_spec(ts, colstart) {
                    None => {},
                    Some((cs, p)) => {
                        assert(exprs_view(cols@) + cs =~= cs);
                    },
                }
            }
            let mut table_closed = false;
            while !table_closed
                invariant
                    self.tokens == old(self).tokens,
                    colstart <= self.pos,
                    !table_closed ==> create_columns_spec(ts, colstart) == (match
                        create_columns_spec(ts, self.pos as int) {
                        None => None::<(Seq<ExprModel>, int)>,
                        Some((cs, p)) => Some((exprs_view(cols@) + cs, p)),
                    }),
                    table_closed ==> create_columns_spec(ts, colstart) == Some(
                        (exprs_view(cols@), self.pos as int),
                    ),
                decreases self.tokens@.len() - self.pos,
            {
                let ghost cur = self.pos as int;
                let ghost acc = cols@;
                let col_name = match self.next_token() {
                    Some(t) => t,
                    None => {
                        proof {
                            assert(create_columns_spec(ts, cur) is None);
                        }
                        return None;
                    },
                };
                let type_tok = match self.next_token() {
                    Some(t) => t,
                    None => {
                        proof {
                            assert(create_columns_spec(ts, cur) is None);
                        }
                        return None;
                    },
                };
                let dt = match match_data_type(&type_tok) {
                    Some(d) => d,
                    None => {
                        proof {
                            assert(create_columns_spec(ts, cur) is None);
                        }
                        return None;
                    },
                };
                let ghost tail0 = self.pos as int;
                let mut slot = ModifierSlot::Start;
                let mut is_primary = false;
                let mut not_null = false;
                let mut identity = false;
                let mut closed = false;
                let mut terminated = false;
                while !terminated
                    invariant
                        self.tokens == old(self).tokens,
                        tail0 <= self.pos,
                        !terminated ==> column_tail_spec(
                            ts,
                            tail0,
                            ts[cur],
                            dt,
                            ModifierSlot::Start,
                            false,
                            false,
                            false,
                        ) == column_tail_spec(
                            ts,
                            self.pos as int,
                            ts[cur],
                            dt,
                            slot,
                            is_primary,
                            not_null,
                            identity,
                        ),
                        terminated ==> column_tail_spec(
                            ts,
                            tail0,
                            ts[cur],
                            dt,
                            ModifierSlot::Start,
                            false,
                            false,
                            false,
                        ) == Some(
                            (
                                ExprModel::CreateColumn {
                                    name: ts[cur],
                                    data_type: dt,
                                    is_primary,
                                    not_null,
                                    identity,
                                },
                                self.pos as int,
                                closed,
                            ),
                        ),
                    decreases self.tokens@.len() - self.pos,
                {
                    let ghost mpos = self.pos as int;
                    let m = match self.next_token() {
                        Some(t) => t,
                        None => {
                            proof {
                                assert(create_columns_spec(ts, cur) is None);
                            }
                            return None;
                        },
                    };
                    if tok_eq(&m, ",") {
                        closed = false;
                        terminated = true;
                    } else if tok_eq(&m, ")") {
                        closed = true;
                        terminated = true;
                    } else if tok_eq(&m, "PRIMARY") && slot == ModifierSlot::Start {
                        is_primary = true;
                        slot = ModifierSlot::AfterPrimary;
                    } else if tok_eq(&m, "NOTNULL") && (slot == ModifierSlot::Start || slot
                        == ModifierSlot::AfterPrimary) {
                        not_null = true;
                        slot = ModifierSlot::AfterNotNull;
                    } else if tok_eq(&m, "IDENTITY") && !(slot == ModifierSlot::AfterIdentity) {
                        identity = true;
                        slot = ModifierSlot::AfterIdentity;
                    } else {
                        proof {
                            assert(create_columns_spec(ts, cur) is None);
                        }
                        return None;
                    }
                }
                let col = SQLExpression::CreateColumn {
                    name: col_name,
                    data_type: dt,
                    is_primary,
                    not_null,
                    identity,
                };
                cols.push(col);
                proof {
                    lemma_column_tail_advances(
                        ts,
                        tail0,
                        ts[cur],
                        dt,
                        ModifierSlot::Start,
                        false,
                        false,
                        false,
                    );
                    let colmodel = ExprModel::CreateColumn {
                        name: ts[cur],
                        data_type: dt,
                        is_primary,
                        not_null,
                        identity,
                    };
                    assert(exprs_view(cols@) =~= exprs_view(acc) + seq![colmodel]);
                    if closed {
                        assert(create_columns_spec(ts, cur) == Some(
                            (seq![colmodel], self.pos as int),
                        ));
                        assert(exprs_view(acc) + seq![colmodel] =~= exprs_view(cols@));
                    } else {
                        match create_columns_spec(ts, self.pos as int) {
                            None => {
                                assert(create_columns_spec(ts, cur) is None);
                            },
                            Some((cs, p)) => {
                                assert(create_columns_spec(ts, cur) == Some(
                                    (seq![colmodel] + cs, p),
                                ));
                                assert(exprs_view(cols@) + cs =~= exprs_view(acc) + (seq![
                                    colmodel,
                                ] + cs));
                            },
                        }
                    }
                }
                table_closed = closed;
            }
            if self.expect_token(";").is_none() {
                return None;
            }
            Some(CreateQuery { created: kind, name, columns: Some(cols) })
        } else if tok_eq(&kind, "DATABASE") {
            let name = match self.next_token() {
                Some(t) => t,
                None => {
                    return None;
                },
            };
            match self.next_token() {
                Some(t) => {
                    if !tok_eq(&t, ";") {
                        return None;
                    }
                },
                None => {
                    return None;
                },
            }
            Some(CreateQuery { created: kind, name, columns: None })
        } else {
            None
        }
    }

    /// Parses one statement, dispatching on the first token; `None` exactly
    /// when the token sequence matches none of the three statement grammars.
    pub fn parse(&mut self) -> (r: Option<SQLQuery>)
        ensures
            opt_query_view(r) == parse_spec(old(self).toks(), old(self).cursor()),
    {
        let ghost ts = self.toks();
        let ghost pos0 = self.pos as int;
        if self.peek_keyword("SELECT") {
            match self.parse_select() {
                Some(q) => Some(SQLQuery::Select(q)),
                None => None,
            }
        } else if self.peek_keyword("INSERT") {
            match self.parse_insert() {
                Some(q) => Some(SQLQuery::Insert(q)),
                None => None,
            }
        } else if self.peek_keyword("CREATE") {
            match self.parse_create() {
                Some(q) => Some(SQLQuery::Create(q)),
                None => None,
            }
        } else {
            None
        }
    }

    /// The `WHERE` clause body: a full logical expression.
    fn parse_conditions(&mut self) -> (r: Option<SQLExpression>)
        ensures
            final(self).tokens == old(self).tokens,
            match r {
                Some(e) => logical_spec(old(self).toks(), old(self).pos as int) == Some(
                    (e@, final(self).pos as int),
                ) && old(self).pos < final(self).pos <= final(self).tokens@.len(),
                None => logical_spec(old(self).toks(), old(self).pos as int) is None,
            },
        decreases self.tokens@.len() - self.pos, 3int,
    {
        self.parse_logical_expression()
    }

    /// Consumes one token as a literal; fails only at the end of input.
    fn parse_literal(&mut self) -> (r: Option<SQLExpression>)
        ensures
            final(self).tokens == old(self).tokens,
            match r {
                Some(e) => old(self).pos < old(self).tokens@.len()
                    && e@ == ExprModel::Literal(old(self).toks()[old(self).pos as int])
                    && final(self).pos == old(self).pos + 1,
                None => old(self).pos >= old(self).tokens@.len()
                    && final(self).pos == old(self).pos,
            },
    {
        match self.next_token() {
            Some(t) => Some(SQLExpression::Literal(t)),
            None => None,
        }
    }
}

} // verus!
