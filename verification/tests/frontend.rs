use sqlfront::ast::{
    CreateQuery, DataType, InsertQuery, SQLExpression, SQLQuery, SelectQuery,
};
use sqlfront::lexer::Lexer;
use sqlfront::parser::Parser;

fn toks(input: &str) -> Vec<String> {
    let mut lexer = Lexer::new(input);
    lexer.tokenize()
}

fn parse(input: &str) -> Option<SQLQuery> {
    let tokens = toks(input);
    let mut parser = Parser::new(&tokens);
    parser.parse()
}

fn ident(s: &str) -> SQLExpression {
    SQLExpression::Identifier(s.to_string())
}

fn lit(s: &str) -> SQLExpression {
    SQLExpression::Literal(s.to_string())
}

fn bin(op: &str, l: SQLExpression, r: SQLExpression) -> SQLExpression {
    SQLExpression::BinaryExpression {
        operator: op.to_string(),
        left: Box::new(l),
        right: Box::new(r),
    }
}

#[test]
fn tokenize_simple_select() {
    assert_eq!(toks("SELECT a FROM t;"), vec!["SELECT", "a", "FROM", "t", ";"]);
}

#[test]
fn tokenize_string_literal_without_escapes() {
    // The literal ends at the first quote after the opening one: no escape
    // handling, so a doubled quote starts a second literal.
    assert_eq!(toks("'it''s'"), vec!["'it'", "'s'"]);
}

#[test]
fn tokenize_unterminated_literal_extends_to_end() {
    assert_eq!(toks("'abc def"), vec!["'abc def"]);
    assert_eq!(toks("\"half"), vec!["\"half"]);
    assert_eq!(toks("'"), vec!["'"]);
}

#[test]
fn tokenize_double_quoted_literal() {
    assert_eq!(toks("\"a b\" c"), vec!["\"a b\"", "c"]);
}

#[test]
fn tokenize_operator_runs_are_maximal() {
    assert_eq!(toks("a<>=b"), vec!["a", "<>=", "b"]);
    assert_eq!(toks("x >= 10"), vec!["x", ">=", "10"]);
    assert_eq!(toks("x!=y"), vec!["x", "!=", "y"]);
}

#[test]
fn tokenize_drops_unknown_characters() {
    assert_eq!(toks("a - b # c"), vec!["a", "b", "c"]);
    assert_eq!(toks("-1"), vec!["1"]);
}

#[test]
fn tokenize_whitespace_and_punctuation() {
    assert_eq!(toks("  (\t a ,\nb );\r"), vec!["(", "a", ",", "b", ")", ";"]);
    assert_eq!(toks(""), Vec::<String>::new());
    assert_eq!(toks("   \t\n"), Vec::<String>::new());
}

#[test]
fn tokenize_identifiers_with_underscore_and_digits() {
    assert_eq!(toks("col_1 2two"), vec!["col_1", "2two"]);
}

#[test]
fn tokenize_non_ascii_identifiers() {
    assert_eq!(toks("SELECT имя FROM т;"), vec!["SELECT", "имя", "FROM", "т", ";"]);
}

#[test]
fn parse_select_where_is_left_associative() {
    let q = parse("SELECT a, b FROM t WHERE a > 1 AND b < 2").expect("parse");
    let expected = SQLQuery::Select(SelectQuery {
        columns: vec![ident("a"), ident("b")],
        table: ident("t"),
        conditions: Some(bin(
            "AND",
            bin(">", ident("a"), ident("1")),
            bin("<", ident("b"), ident("2")),
        )),
    });
    assert_eq!(q, expected);
}

#[test]
fn parse_select_three_connectives_left_associated() {
    let q = parse("SELECT a FROM t WHERE a > 1 AND b < 2 OR c == 3").expect("parse");
    let expected = SQLQuery::Select(SelectQuery {
        columns: vec![ident("a")],
        table: ident("t"),
        conditions: Some(bin(
            "OR",
            bin(
                "AND",
                bin(">", ident("a"), ident("1")),
                bin("<", ident("b"), ident("2")),
            ),
            bin("==", ident("c"), ident("3")),
        )),
    });
    assert_eq!(q, expected);
}

#[test]
fn parse_redundant_parens_keep_tree_shape() {
    // The parenthesized form and the plain form, whose precedence already
    // matches, produce the same tree; the `-` is dropped by the tokenizer.
    let with_parens = parse("SELECT a FROM t WHERE (a > 1 OR a < -1)").expect("parse");
    let without = parse("SELECT a FROM t WHERE a > 1 OR a < -1").expect("parse");
    assert_eq!(with_parens, without);
    let expected = SQLQuery::Select(SelectQuery {
        columns: vec![ident("a")],
        table: ident("t"),
        conditions: Some(bin(
            "OR",
            bin(">", ident("a"), ident("1")),
            bin("<", ident("a"), ident("1")),
        )),
    });
    assert_eq!(with_parens, expected);
}

#[test]
fn parse_nested_parens_override_association() {
    let q = parse("SELECT a FROM t WHERE a == 1 AND (b == 2 OR c == 3)").expect("parse");
    let expected_conditions = bin(
        "AND",
        bin("==", ident("a"), ident("1")),
        bin("OR", bin("==", ident("b"), ident("2")), bin("==", ident("c"), ident("3"))),
    );
    match q {
        SQLQuery::Select(s) => assert_eq!(s.conditions, Some(expected_conditions)),
        _ => panic!("expected a SELECT"),
    }
}

#[test]
fn parse_unbalanced_paren_fails() {
    assert_eq!(parse("SELECT a FROM t WHERE (a > 1"), None);
}

#[test]
fn parse_where_truncated_fails() {
    assert_eq!(parse("SELECT a FROM t WHERE"), None);
}

#[test]
fn parse_invalid_operator_spelling_ends_the_clause() {
    // "<>=" is one operator token but not an accepted spelling: the WHERE
    // clause ends before it, and tokens after a statement are ignored.
    let q = parse("SELECT a FROM t WHERE a <>= b").expect("parse");
    match q {
        SQLQuery::Select(s) => assert_eq!(s.conditions, Some(ident("a"))),
        _ => panic!("expected a SELECT"),
    }
}

#[test]
fn parse_select_without_where() {
    let q = parse("SELECT name, value FROM points").expect("parse");
    let expected = SQLQuery::Select(SelectQuery {
        columns: vec![ident("name"), ident("value")],
        table: ident("points"),
        conditions: None,
    });
    assert_eq!(q, expected);
}

#[test]
fn parse_select_trailing_semicolon_ignored() {
    let q = parse("SELECT a FROM t;").expect("parse");
    let expected = SQLQuery::Select(SelectQuery {
        columns: vec![ident("a")],
        table: ident("t"),
        conditions: None,
    });
    assert_eq!(q, expected);
}

#[test]
fn parse_select_missing_from_fails() {
    assert_eq!(parse("SELECT a, b WHERE a > 1"), None);
    assert_eq!(parse("SELECT"), None);
}

#[test]
fn parse_insert_counts_not_cross_checked() {
    let q = parse("INSERT INTO t (a,b) VALUES (1,'x')").expect("parse");
    let expected = SQLQuery::Insert(InsertQuery {
        table: ident("t"),
        columns: vec![ident("a"), ident("b")],
        values: vec![lit("1"), lit("'x'")],
    });
    assert_eq!(q, expected);
    // A value count different from the column count still parses.
    let q2 = parse("INSERT INTO t (a,b) VALUES (1)").expect("parse");
    let expected2 = SQLQuery::Insert(InsertQuery {
        table: ident("t"),
        columns: vec![ident("a"), ident("b")],
        values: vec![lit("1")],
    });
    assert_eq!(q2, expected2);
}

#[test]
fn parse_insert_missing_pieces_fails() {
    assert_eq!(parse("INSERT t (a) VALUES (1)"), None);
    assert_eq!(parse("INSERT INTO t a) VALUES (1)"), None);
    assert_eq!(parse("INSERT INTO t (a VALUES (1)"), None);
    assert_eq!(parse("INSERT INTO t (a) (1)"), None);
    assert_eq!(parse("INSERT INTO t (a) VALUES (1"), None);
}

#[test]
fn parse_create_database() {
    let q = parse("CREATE DATABASE shop;").expect("parse");
    let expected = SQLQuery::Create(CreateQuery {
        created: "DATABASE".to_string(),
        name: "shop".to_string(),
        columns: None,
    });
    assert_eq!(q, expected);
}

#[test]
fn parse_create_database_missing_semicolon_fails() {
    assert_eq!(parse("CREATE DATABASE shop"), None);
}

#[test]
fn parse_create_neither_table_nor_database_fails() {
    assert_eq!(parse("CREATE INDEX i;"), None);
    assert_eq!(parse("CREATE"), None);
}

#[test]
fn parse_create_table_with_modifiers_in_order() {
    let q = parse("CREATE TABLE t (a INT PRIMARY NOTNULL IDENTITY, b TEXT);").expect("parse");
    let expected = SQLQuery::Create(CreateQuery {
        created: "TABLE".to_string(),
        name: "t".to_string(),
        columns: Some(vec![
            SQLExpression::CreateColumn {
                name: "a".to_string(),
                data_type: DataType::INT { unsigned: false },
                is_primary: true,
                not_null: true,
                identity: true,
            },
            SQLExpression::CreateColumn {
                name: "b".to_string(),
                data_type: DataType::TEXT { length: 256 },
                is_primary: false,
                not_null: false,
                identity: false,
            },
        ]),
    });
    assert_eq!(q, expected);
}

#[test]
fn parse_create_table_modifier_subsets_in_order() {
    let q = parse("CREATE TABLE t (a INT NOTNULL IDENTITY, b INT IDENTITY);").expect("parse");
    match q {
        SQLQuery::Create(c) => {
            let cols = c.columns.expect("columns");
            assert_eq!(
                cols[0],
                SQLExpression::CreateColumn {
                    name: "a".to_string(),
                    data_type: DataType::INT { unsigned: false },
                    is_primary: false,
                    not_null: true,
                    identity: true,
                }
            );
            assert_eq!(
                cols[1],
                SQLExpression::CreateColumn {
                    name: "b".to_string(),
                    data_type: DataType::INT { unsigned: false },
                    is_primary: false,
                    not_null: false,
                    identity: true,
                }
            );
        },
        _ => panic!("expected a CREATE"),
    }
}

#[test]
fn parse_create_table_modifiers_out_of_order_fail() {
    assert_eq!(parse("CREATE TABLE t (a INT NOTNULL PRIMARY);"), None);
    assert_eq!(parse("CREATE TABLE t (a INT IDENTITY NOTNULL);"), None);
    assert_eq!(parse("CREATE TABLE t (a INT IDENTITY PRIMARY);"), None);
    assert_eq!(parse("CREATE TABLE t (a INT PRIMARY PRIMARY);"), None);
    assert_eq!(parse("CREATE TABLE t (a INT NOTNULL NOTNULL);"), None);
}

#[test]
fn parse_create_table_missing_semicolon_fails() {
    assert_eq!(parse("CREATE TABLE t (a INT)"), None);
}

#[test]
fn parse_create_table_unknown_data_type_fails() {
    assert_eq!(parse("CREATE TABLE t (a VARCHAR);"), None);
    assert_eq!(parse("CREATE TABLE t (a);"), None);
    assert_eq!(parse("CREATE TABLE t (a U_TEXT);"), None);
    assert_eq!(parse("CREATE TABLE t (a U_BOOL);"), None);
}

fn created_type(input: &str) -> DataType {
    match parse(input).expect("parse") {
        SQLQuery::Create(c) => match c.columns.expect("columns").remove(0) {
            SQLExpression::CreateColumn { data_type, .. } => data_type,
            _ => panic!("expected a column definition"),
        },
        _ => panic!("expected a CREATE"),
    }
}

#[test]
fn parse_every_data_type_keyword() {
    let cases: Vec<(&str, DataType)> = vec![
        ("TEXT", DataType::TEXT { length: 256 }),
        ("BOOL", DataType::BOOL),
        ("DATETIME", DataType::DATETIME),
        ("FLOAT", DataType::FLOAT { unsigned: false }),
        ("DOUBLE", DataType::DOUBLE { unsigned: false }),
        ("BYTE", DataType::BYTE { unsigned: false }),
        ("SHORT", DataType::SHORT { unsigned: false }),
        ("INT", DataType::INT { unsigned: false }),
        ("LONG", DataType::LONG { unsigned: false }),
        ("BIGINT", DataType::BIGINT { unsigned: false }),
        ("UUID", DataType::UUID { unsigned: false }),
        ("U_FLOAT", DataType::FLOAT { unsigned: true }),
        ("U_DOUBLE", DataType::DOUBLE { unsigned: true }),
        ("U_BYTE", DataType::BYTE { unsigned: true }),
        ("U_SHORT", DataType::SHORT { unsigned: true }),
        ("U_INT", DataType::INT { unsigned: true }),
        ("U_LONG", DataType::LONG { unsigned: true }),
        ("U_BIGINT", DataType::BIGINT { unsigned: true }),
        ("U_UUID", DataType::UUID { unsigned: true }),
    ];
    for (kw, expected) in cases {
        let stmt = format!("CREATE TABLE t (c {});", kw);
        assert_eq!(created_type(&stmt), expected, "keyword {}", kw);
    }
}

#[test]
fn parse_data_type_keyword_is_case_insensitive() {
    assert_eq!(created_type("CREATE TABLE t (c int);"), DataType::INT { unsigned: false });
    assert_eq!(created_type("CREATE TABLE t (c u_long);"), DataType::LONG { unsigned: true });
}

#[test]
fn parse_statement_keywords_are_case_sensitive() {
    assert_eq!(parse("select a from t"), None);
}

#[test]
fn parse_empty_or_unknown_statement_fails() {
    assert_eq!(parse(""), None);
    assert_eq!(parse("DROP TABLE t;"), None);
    assert_eq!(parse("UPDATE t"), None);
}

fn joined(tokens: &[String]) -> String {
    tokens.join(" ")
}

#[test]
fn retokenize_reproduces_token_texts() {
    let inputs = vec![
        "SELECT a FROM t;",
        "SELECT name, value FROM points WHERE value >= 10 AND (name == 'Jane Doe' OR name != \"x y\")",
        "INSERT INTO t (a,b) VALUES (1,'x')",
        "CREATE TABLE t (a U_INT PRIMARY NOTNULL IDENTITY, b TEXT);",
        "a<>=b # $ 'unterminated literal with spaces",
        "'it''s'",
    ];
    for input in inputs {
        let first = toks(input);
        let second = toks(&joined(&first));
        assert_eq!(first, second, "input {}", input);
    }
}

#[test]
fn tokenize_consumes_the_lexer() {
    let mut lexer = Lexer::new("SELECT a FROM t;");
    let first = lexer.tokenize();
    assert_eq!(first.len(), 5);
    let second = lexer.tokenize();
    assert_eq!(second, Vec::<String>::new());
}
