//! The abstract syntax tree the parser produces, and its mathematical models.
//!
//! Each executable type carries a view onto a model type whose text fields are
//! `Seq<char>`; the grammar specification and all contracts speak of the
//! models.

use vstd::prelude::*;

verus! {

/// The closed set of column data types.  Unsigned variants are selected
/// lexically by a `U_` prefix on the keyword; `TEXT` carries a fixed default
/// length.
#[derive(Debug, Clone, Copy, PartialEq, Eq, Structural)]
#[allow(non_camel_case_types)]
pub enum DataType {
    TEXT { length: i32 },
    BOOL,
    DATETIME,
    FLOAT { unsigned: bool },
    DOUBLE { unsigned: bool },
    BYTE { unsigned: bool },
    SHORT { unsigned: bool },
    INT { unsigned: bool },
    LONG { unsigned: bool },
    BIGINT { unsigned: bool },
    UUID { unsigned: bool },
}

/// An expression node: a name reference, a raw literal, a binary operator
/// applied to two exclusively owned children, or a column definition used
/// only inside `CREATE TABLE`.
#[derive(Debug, PartialEq)]
pub enum SQLExpression {
    Identifier(String),
    Literal(String),
    BinaryExpression { operator: String, left: Box<SQLExpression>, right: Box<SQLExpression> },
    CreateColumn { name: String, data_type: DataType, is_primary: bool, not_null: bool, identity: bool },
}

/// The model of an expression: the same tree over character sequences.
pub enum ExprModel {
    Identifier(Seq<char>),
    Literal(Seq<char>),
    BinaryExpression { operator: Seq<char>, left: Box<ExprModel>, right: Box<ExprModel> },
    CreateColumn { name: Seq<char>, data_type: DataType, is_primary: bool, not_null: bool, identity: bool },
}

/// The model of an expression tree.
pub open spec fn expr_view(e: SQLExpression) -> ExprModel
    decreases e,
{
    match e {
        SQLExpression::Identifier(s) => ExprModel::Identifier(s@),
        SQLExpression::Literal(s) => ExprModel::Literal(s@),
        SQLExpression::BinaryExpression { operator, left, right } => ExprModel::BinaryExpression {
            operator: operator@,
            left: Box::new(expr_view(*left)),
            right: Box::new(expr_view(*right)),
        },
        SQLExpression::CreateColumn { name, data_type, is_primary, not_null, identity } => ExprModel::CreateColumn {
            name: name@,
            data_type,
            is_primary,
            not_null,
            identity,
        },
    }
}

impl View for SQLExpression {
    type V = ExprModel;

    open spec fn view(&self) -> ExprModel {
        expr_view(*self)
    }
}

/// The models of a sequence of expressions.
pub open spec fn exprs_view(es: Seq<SQLExpression>) -> Seq<ExprModel> {
    es.map_values(|e: SQLExpression| expr_view(e))
}

/// The model of an optional expression.
pub open spec fn opt_expr_view(e: Option<SQLExpression>) -> Option<ExprModel> {
    match e {
        Some(x) => Some(expr_view(x)),
        None => None,
    }
}

/// A `SELECT` statement: a non-empty column list, one table, and an optional
/// `WHERE` condition.
#[derive(Debug, PartialEq)]
pub struct SelectQuery {
    pub columns: Vec<SQLExpression>,
    pub table: SQLExpression,
    pub conditions: Option<SQLExpression>,
}

pub struct SelectModel {
    pub columns: Seq<ExprModel>,
    pub table: ExprModel,
    pub conditions: Option<ExprModel>,
}

impl View for SelectQuery {
    type V = SelectModel;

    open spec fn view(&self) -> SelectModel {
        SelectModel {
            columns: exprs_view(self.columns@),
            table: expr_view(self.table),
            conditions: opt_expr_view(self.conditions),
        }
    }
}

/// An `INSERT` statement: a table, a non-empty column list and a non-empty
/// value list; the two counts are not cross-checked.
#[derive(Debug, PartialEq)]
pub struct InsertQuery {
    pub table: SQLExpression,
    pub columns: Vec<SQLExpression>,
    pub values: Vec<SQLExpression>,
}

pub struct InsertModel {
    pub table: ExprModel,
    pub columns: Seq<ExprModel>,
    pub values: Seq<ExprModel>,
}

impl View for InsertQuery {
    type V = InsertModel;

    open spec fn view(&self) -> InsertModel {
        InsertModel {
            table: expr_view(self.table),
            columns: exprs_view(self.columns@),
            values: exprs_view(self.values@),
        }
    }
}

/// A `CREATE` statement: `created` is `TABLE` or `DATABASE`; `columns` is
/// present exactly for `TABLE`.
#[derive(Debug, PartialEq)]
pub struct CreateQuery {
    pub created: String,
    pub name: String,
    pub columns: Option<Vec<SQLExpression>>,
}

pub struct CreateModel {
    pub created: Seq<char>,
    pub name: Seq<char>,
    pub columns: Option<Seq<ExprModel>>,
}

impl View for CreateQuery {
    type V = CreateModel;

    open spec fn view(&self) -> CreateModel {
        CreateModel {
            created: self.created@,
            name: self.name@,
            columns: match self.columns {
                Some(cs) => Some(exprs_view(cs@)),
                None => None,
            },
        }
    }
}

/// A parsed statement.
#[derive(Debug, PartialEq)]
pub enum SQLQuery {
    Select(SelectQuery),
    Insert(InsertQuery),
    Create(CreateQuery),
}

pub enum QueryModel {
    Select(SelectModel),
    Insert(InsertModel),
    Create(CreateModel),
}

impl View for SQLQuery {
    type V = QueryModel;

    open spec fn view(&self) -> QueryModel {
        match self {
            SQLQuery::Select(q) => QueryModel::Select(q@),
            SQLQuery::Insert(q) => QueryModel::Insert(q@),
            SQLQuery::Create(q) => QueryModel::Create(q@),
        }
    }
}

/// The model of an optional query.
pub open spec fn opt_query_view(q: Option<SQLQuery>) -> Option<QueryModel> {
    match q {
        Some(x) => Some(x@),
        None => None,
    }
}

} // verus!
