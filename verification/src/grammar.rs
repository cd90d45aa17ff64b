//! The grammar, stated as spec functions over a token sequence and a cursor
//! position.  Expression parsing is a three-level precedence climb (logical
//! over comparison over primary), both binary levels left-associative; the
//! statement forms are `SELECT`, `INSERT` and `CREATE`.
//!
//! Each expression-level function returns the parsed model together with the
//! position of the first token it did not consume, or `None` on the first
//! mismatch.

use vstd::prelude::*;
use crate::ast::{CreateModel, DataType, ExprModel, InsertModel, QueryModel, SelectModel};
use crate::text::upper_of;

verus! {

/// The token at `pos` exists and reads `w`.
pub open spec fn tok_at(ts: Seq<Seq<char>>, pos: int, w: Seq<char>) -> bool {
    0 <= pos < ts.len() && ts[pos] == w
}

/// The logical connectives.
pub open spec fn is_logical_op(t: Seq<char>) -> bool {
    t == "AND"@ || t == "OR"@
}

/// The comparison operator spellings the grammar accepts; any other operator
/// run is rejected here, not by the tokenizer.
pub open spec fn is_comparison_op(t: Seq<char>) -> bool {
    t == "=="@ || t == "!="@ || t == "<"@ || t == ">"@ || t == "<="@ || t == ">="@
}

/// The data type named by a keyword token, matched case-insensitively; the
/// `U_` prefix selects the unsigned variant.  `None` for every keyword outside
/// the closed set.
pub open spec fn data_type_of(t: Seq<char>) -> Option<DataType> {
    let u = upper_of(t);
    if u == "TEXT"@ {
        Some(DataType::TEXT { length: 256 })
    } else if u == "BOOL"@ {
        Some(DataType::BOOL)
    } else if u == "DATETIME"@ {
        Some(DataType::DATETIME)
    } else if u == "FLOAT"@ {
        Some(DataType::FLOAT { unsigned: false })
    } else if u == "DOUBLE"@ {
        Some(DataType::DOUBLE { unsigned: false })
    } else if u == "BYTE"@ {
        Some(DataType::BYTE { unsigned: false })
    } else if u == "SHORT"@ {
        Some(DataType::SHORT { unsigned: false })
    } else if u == "INT"@ {
        Some(DataType::INT { unsigned: false })
    } else if u == "LONG"@ {
        Some(DataType::LONG { unsigned: false })
    } else if u == "BIGINT"@ {
        Some(DataType::BIGINT { unsigned: false })
    } else if u == "UUID"@ {
        Some(DataType::UUID { unsigned: false })
    } else if u == "U_FLOAT"@ {
        Some(DataType::FLOAT { unsigned: true })
    } else if u == "U_DOUBLE"@ {
        Some(DataType::DOUBLE { unsigned: true })
    } else if u == "U_BYTE"@ {
        Some(DataType::BYTE { unsigned: true })
    } else if u == "U_SHORT"@ {
        Some(DataType::SHORT { unsigned: true })
    } else if u == "U_INT"@ {
        Some(DataType::INT { unsigned: true })
    } else if u == "U_LONG"@ {
        Some(DataType::LONG { unsigned: true })
    } else if u == "U_BIGINT"@ {
        Some(DataType::BIGINT { unsigned: true })
    } else if u == "U_UUID"@ {
        Some(DataType::UUID { unsigned: true })
    } else {
        None
    }
}

/// A primary expression: a parenthesized logical expression, or the next
/// token taken as an identifier; the parser tries the identifier reading
/// unconditionally, so quoted strings and bare words are both accepted here.
pub open spec fn primary_spec(ts: Seq<Seq<char>>, pos: int) -> Option<(ExprModel, int)>
    decreases ts.len() - pos, 0int,
{
    if !(0 <= pos < ts.len()) {
        None
    } else if ts[pos] == "("@ {
        match logical_spec(ts, pos + 1) {
            None => None,
            Some((e, p)) => if tok_at(ts, p, ")"@) {
                Some((e, p + 1))
            } else {
                None
            },
        }
    } else {
        Some((ExprModel::Identifier(ts[pos]), pos + 1))
    }
}

/// Left-associative chain of comparison operators after a first operand.
pub open spec fn comparison_rest_spec(ts: Seq<Seq<char>>, pos: int, left: ExprModel) -> Option<
    (ExprModel, int),
>
    decreases ts.len() - pos, 1int,
{
    if 0 <= pos < ts.len() && is_comparison_op(ts[pos]) {
        match primary_spec(ts, pos + 1) {
            None => None,
            Some((r, p)) => {
                let e = ExprModel::BinaryExpression {
                    operator: ts[pos],
                    left: Box::new(left),
                    right: Box::new(r),
                };
                if pos < p <= ts.len() {
                    comparison_rest_spec(ts, p, e)
                } else {
                    None
                }
            },
        }
    } else {
        Some((left, pos))
    }
}

/// A comparison-level expression: a primary, then left-associative
/// comparisons.
pub open spec fn comparison_spec(ts: Seq<Seq<char>>, pos: int) -> Option<(ExprModel, int)>
    decreases ts.len() - pos, 2int,
{
    if !(0 <= pos < ts.len()) {
        None
    } else {
        match primary_spec(ts, pos) {
            None => None,
            Some((l, p)) => if pos < p <= ts.len() {
                comparison_rest_spec(ts, p, l)
            } else {
                None
            },
        }
    }
}

/// Left-associative chain of `AND`/`OR` after a first operand.
pub open spec fn logical_rest_spec(ts: Seq<Seq<char>>, pos: int, left: ExprModel) -> Option<
    (ExprModel, int),
>
    decreases ts.len() - pos, 3int,
{
    if 0 <= pos < ts.len() && is_logical_op(ts[pos]) {
        match comparison_spec(ts, pos + 1) {
            None => None,
            Some((r, p)) => {
                let e = ExprModel::BinaryExpression {
                    operator: ts[pos],
                    left: Box::new(left),
                    right: Box::new(r),
                };
                if pos < p <= ts.len() {
                    logical_rest_spec(ts, p, e)
                } else {
                    None
                }
            },
        }
    } else {
        Some((left, pos))
    }
}

/// A logical-level expression: a comparison, then left-associative `AND`/`OR`.
pub open spec fn logical_spec(ts: Seq<Seq<char>>, pos: int) -> Option<(ExprModel, int)>
    decreases ts.len() - pos, 4int,
{
    if !(0 <= pos < ts.len()) {
        None
    } else {
        match comparison_spec(ts, pos) {
            None => None,
            Some((l, p)) => if pos < p <= ts.len() {
                logical_rest_spec(ts, p, l)
            } else {
                None
            },
        }
    }
}

/// A successful expression parse consumes at least one token and never runs
/// past the end of the input.
pub proof fn lemma_primary_advances(ts: Seq<Seq<char>>, pos: int)
    ensures
        primary_spec(ts, pos) matches Some((e, p)) ==> pos < p <= ts.len(),
    decreases ts.len() - pos, 0int,
{
    if 0 <= pos < ts.len() && ts[pos] == "("@ {
        lemma_logical_advances(ts, pos + 1);
    }
}

pub proof fn lemma_comparison_rest_advances(ts: Seq<Seq<char>>, pos: int, left: ExprModel)
    ensures
        0 <= pos <= ts.len() ==> (comparison_rest_spec(ts, pos, left) matches Some((e, p))
            ==> pos <= p <= ts.len()),
    decreases ts.len() - pos, 1int,
{
    if 0 <= pos < ts.len() && is_comparison_op(ts[pos]) {
        lemma_primary_advances(ts, pos + 1);
        match primary_spec(ts, pos + 1) {
            None => {},
            Some((r, p)) => {
                let e = ExprModel::BinaryExpression {
                    operator: ts[pos],
                    left: Box::new(left),
                    right: Box::new(r),
                };
                if pos < p <= ts.len() {
                    lemma_comparison_rest_advances(ts, p, e);
                }
            },
        }
    }
}

pub proof fn lemma_comparison_advances(ts: Seq<Seq<char>>, pos: int)
    ensures
        comparison_spec(ts, pos) matches Some((e, p)) ==> pos < p <= ts.len(),
    decreases ts.len() - pos, 2int,
{
    if 0 <= pos < ts.len() {
        lemma_primary_advances(ts, pos);
        match primary_spec(ts, pos) {
            None => {},
            Some((l, p)) => {
                if pos < p <= ts.len() {
                    lemma_comparison_rest_advances(ts, p, l);
                }
            },
        }
    }
}

pub proof fn lemma_logical_rest_advances(ts: Seq<Seq<char>>, pos: int, left: ExprModel)
    ensures
        0 <= pos <= ts.len() ==> (logical_rest_spec(ts, pos, left) matches Some((e, p))
            ==> pos <= p <= ts.len()),
    decreases ts.len() - pos, 3int,
{
    if 0 <= pos < ts.len() && is_logical_op(ts[pos]) {
        lemma_comparison_advances(ts, pos + 1);
        match comparison_spec(ts, pos + 1) {
            None => {},
            Some((r, p)) => {
                let e = ExprModel::BinaryExpression {
                    operator: ts[pos],
                    left: Box::new(left),
                    right: Box::new(r),
                };
                if pos < p <= ts.len() {
                    lemma_logical_rest_advances(ts, p, e);
                }
            },
        }
    }
}

pub proof fn lemma_logical_advances(ts: Seq<Seq<char>>, pos: int)
    ensures
        logical_spec(ts, pos) matches Some((e, p)) ==> pos < p <= ts.len(),
    decreases ts.len() - pos, 4int,
{
    if 0 <= pos < ts.len() {
        lemma_comparison_advances(ts, pos);
        match comparison_spec(ts, pos) {
            None => {},
            Some((l, p)) => {
                if pos < p <= ts.len() {
                    lemma_logical_rest_advances(ts, p, l);
                }
            },
        }
    }
}

/// A comma-separated list of identifiers: one token per entry, continued
/// exactly while the following token is `,`.
pub open spec fn columns_spec(ts: Seq<Seq<char>>, pos: int) -> Option<(Seq<ExprModel>, int)>
    decreases ts.len() - pos,
{
    if !(0 <= pos < ts.len()) {
        None
    } else {
        let col = ExprModel::Identifier(ts[pos]);
        if pos + 1 < ts.len() && ts[pos + 1] == ","@ {
            match columns_spec(ts, pos + 2) {
                None => None,
                Some((cs, p)) => Some((seq![col] + cs, p)),
            }
        } else {
            Some((seq![col], pos + 1))
        }
    }
}

/// A comma-separated list of literals, continued exactly while the following
/// token is `,`.
pub open spec fn values_spec(ts: Seq<Seq<char>>, pos: int) -> Option<(Seq<ExprModel>, int)>
    decreases ts.len() - pos,
{
    if !(0 <= pos < ts.len()) {
        None
    } else {
        let v = ExprModel::Literal(ts[pos]);
        if pos + 1 < ts.len() && ts[pos + 1] == ","@ {
            match values_spec(ts, pos + 2) {
                None => None,
                Some((vs, p)) => Some((seq![v] + vs, p)),
            }
        } else {
            Some((seq![v], pos + 1))
        }
    }
}

/// `SELECT <columns> FROM <table> [WHERE <logical expression>]`; tokens after
/// the statement are ignored.
pub open spec fn select_spec(ts: Seq<Seq<char>>, pos: int) -> Option<SelectModel> {
    if !tok_at(ts, pos, "SELECT"@) {
        None
    } else {
        match columns_spec(ts, pos + 1) {
            None => None,
            Some((cols, p)) => if !tok_at(ts, p, "FROM"@) {
                None
            } else if !(p + 1 < ts.len()) {
                None
            } else {
                let table = ExprModel::Identifier(ts[p + 1]);
                if tok_at(ts, p + 2, "WHERE"@) {
                    match logical_spec(ts, p + 3) {
                        None => None,
                        Some((c, q)) => Some(
                            SelectModel { columns: cols, table, conditions: Some(c) },
                        ),
                    }
                } else {
                    Some(SelectModel { columns: cols, table, conditions: None })
                }
            },
        }
    }
}

/// `INSERT INTO <table> ( <columns> ) VALUES ( <values> )`; the two list
/// lengths are not cross-checked; tokens after the statement are ignored.
pub open spec fn insert_spec(ts: Seq<Seq<char>>, pos: int) -> Option<InsertModel> {
    if !tok_at(ts, pos, "INSERT"@) {
        None
    } else if !tok_at(ts, pos + 1, "INTO"@) {
        None
    } else if !(pos + 2 < ts.len()) {
        None
    } else if !tok_at(ts, pos + 3, "("@) {
        None
    } else {
        match columns_spec(ts, pos + 4) {
            None => None,
            Some((cols, p)) => if !tok_at(ts, p, ")"@) {
                None
            } else if !tok_at(ts, p + 1, "VALUES"@) {
                None
            } else if !tok_at(ts, p + 2, "("@) {
                None
            } else {
                match values_spec(ts, p + 3) {
                    None => None,
                    Some((vals, q)) => if !tok_at(ts, q, ")"@) {
                        None
                    } else {
                        Some(
                            InsertModel {
                                table: ExprModel::Identifier(ts[pos + 2]),
                                columns: cols,
                                values: vals,
                            },
                        )
                    },
                }
            },
        }
    }
}

/// The modifier slot the column-definition state machine is in: each modifier
/// keyword advances the slot, so `PRIMARY`, `NOTNULL` and `IDENTITY` are
/// accepted at most once each and only in that order.
#[derive(Debug, Clone, Copy, PartialEq, Eq, Structural)]
pub enum ModifierSlot {
    Start,
    AfterPrimary,
    AfterNotNull,
    AfterIdentity,
}

/// The trailing modifiers and terminator of one column definition.  Returns
/// the finished column, the position after the terminator, and whether the
/// terminator was `)` (closing the table) rather than `,`.
pub open spec fn column_tail_spec(
    ts: Seq<Seq<char>>,
    pos: int,
    name: Seq<char>,
    data_type: DataType,
    slot: ModifierSlot,
    is_primary: bool,
    not_null: bool,
    identity: bool,
) -> Option<(ExprModel, int, bool)>
    decreases ts.len() - pos,
{
    if !(0 <= pos < ts.len()) {
        None
    } else {
        let col = ExprModel::CreateColumn { name, data_type, is_primary, not_null, identity };
        if ts[pos] == ","@ {
            Some((col, pos + 1, false))
        } else if ts[pos] == ")"@ {
            Some((col, pos + 1, true))
        } else if ts[pos] == "PRIMARY"@ && slot == ModifierSlot::Start {
            column_tail_spec(
                ts,
                pos + 1,
                name,
                data_type,
                ModifierSlot::AfterPrimary,
                true,
                not_null,
                identity,
            )
        } else if ts[pos] == "NOTNULL"@ && (slot == ModifierSlot::Start || slot
            == ModifierSlot::AfterPrimary) {
            column_tail_spec(
                ts,
                pos + 1,
                name,
                data_type,
                ModifierSlot::AfterNotNull,
                is_primary,
                true,
                identity,
            )
        } else if ts[pos] == "IDENTITY"@ && slot != ModifierSlot::AfterIdentity {
            column_tail_spec(
                ts,
                pos + 1,
                name,
                data_type,
                ModifierSlot::AfterIdentity,
                is_primary,
                not_null,
                true,
            )
        } else {
            None
        }
    }
}

pub proof fn lemma_column_tail_advances(
    ts: Seq<Seq<char>>,
    pos: int,
    name: Seq<char>,
    data_type: DataType,
    slot: ModifierSlot,
    is_primary: bool,
    not_null: bool,
    identity: bool,
)
    ensures
        column_tail_spec(ts, pos, name, data_type, slot, is_primary, not_null, identity)
            matches Some((c, p, closed)) ==> pos < p <= ts.len(),
    decreases ts.len() - pos,
{
    if 0 <= pos < ts.len() {
        if ts[pos] == ","@ || ts[pos] == ")"@ {
        } else if ts[pos] == "PRIMARY"@ && slot == ModifierSlot::Start {
            lemma_column_tail_advances(
                ts,
                pos + 1,
                name,
                data_type,
                ModifierSlot::AfterPrimary,
                true,
                not_null,
                identity,
            );
        } else if ts[pos] == "NOTNULL"@ && (slot == ModifierSlot::Start || slot
            == ModifierSlot::AfterPrimary) {
            lemma_column_tail_advances(
                ts,
                pos + 1,
                name,
                data_type,
                ModifierSlot::AfterNotNull,
                is_primary,
                true,
                identity,
            );
        } else if ts[pos] == "IDENTITY"@ && slot != ModifierSlot::AfterIdentity {
            lemma_column_tail_advances(
                ts,
                pos + 1,
                name,
                data_type,
                ModifierSlot::AfterIdentity,
                is_primary,
                not_null,
                true,
            );
        }
    }
}

/// One or more column definitions, each `<name> <data-type> [modifiers]`
/// terminated by `,` (another follows) or `)` (closes the table).
pub open spec fn create_columns_spec(ts: Seq<Seq<char>>, pos: int) -> Option<
    (Seq<ExprModel>, int),
>
    decreases ts.len() - pos,
{
    if !(0 <= pos && pos + 1 < ts.len()) {
        None
    } else {
        match data_type_of(ts[pos + 1]) {
            None => None,
            Some(dt) => match column_tail_spec(
                ts,
                pos + 2,
                ts[pos],
                dt,
                ModifierSlot::Start,
                false,
                false,
                false,
            ) {
                None => None,
                Some((col, p, closed)) => if closed {
                    Some((seq![col], p))
                } else if pos < p <= ts.len() {
                    match create_columns_spec(ts, p) {
                        None => None,
                        Some((cs, q)) => Some((seq![col] + cs, q)),
                    }
                } else {
                    None
                },
            },
        }
    }
}

/// `CREATE TABLE <name> ( <column defs> ) ;` or `CREATE DATABASE <name> ;`.
pub open spec fn create_spec(ts: Seq<Seq<char>>, pos: int) -> Option<CreateModel> {
    if !tok_at(ts, pos, "CREATE"@) {
        None
    } else if tok_at(ts, pos + 1, "TABLE"@) {
        if !(pos + 2 < ts.len()) {
            None
        } else if !tok_at(ts, pos + 3, "("@) {
            None
        } else {
            match create_columns_spec(ts, pos + 4) {
                None => None,
                Some((cols, p)) => if !tok_at(ts, p, ";"@) {
                    None
                } else {
                    Some(CreateModel { created: "TABLE"@, name: ts[pos + 2], columns: Some(cols) })
                },
            }
        }
    } else if tok_at(ts, pos + 1, "DATABASE"@) {
        if !(pos + 2 < ts.len()) {
            None
        } else if !tok_at(ts, pos + 3, ";"@) {
            None
        } else {
            Some(CreateModel { created: "DATABASE"@, name: ts[pos + 2], columns: None })
        }
    } else {
        None
    }
}

/// The whole parse: dispatch on the first token; `None` when it is absent or
/// none of `SELECT`, `INSERT`, `CREATE`.
pub open spec fn parse_spec(ts: Seq<Seq<char>>, pos: int) -> Option<QueryModel> {
    if !(0 <= pos < ts.len()) {
        None
    } else if ts[pos] == "SELECT"@ {
        match select_spec(ts, pos) {
            None => None,
            Some(q) => Some(QueryModel::Select(q)),
        }
    } else if ts[pos] == "INSERT"@ {
        match insert_spec(ts, pos) {
            None => None,
            Some(q) => Some(QueryModel::Insert(q)),
        }
    } else if ts[pos] == "CREATE"@ {
        match create_spec(ts, pos) {
            None => None,
            Some(q) => Some(QueryModel::Create(q)),
        }
    } else {
        None
    }
}

} // verus!
