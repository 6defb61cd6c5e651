use tank_core::writable::{
    are_all_writable, are_columns_writable, are_rows_writable, is_data_set_writable,
    is_expr_writable, is_value_writable,
};
use tank_core::Interval;
use tank_core::context::Context;
use tank_core::column::{Action, ColumnDef, PrimaryKeyType};
use tank_core::entity::{DataSet, EntityDef, Join};
use tank_core::expression::{BinaryOp, BinaryOpType, Expression, JoinType, Order, Ordered};
use tank_core::query::{deleted_one, EntityError, RowLabeled, RowsAffected};
use tank_core::sql_writer::GenericSqlWriter;
use tank_core::table_ref::{ColumnRef, TableRef};
use tank_core::value::Value;

fn column(name: &'static str, table: &'static str, schema: &'static str, value: Value) -> ColumnDef {
    ColumnDef {
        column_ref: ColumnRef { name, table, schema },
        column_type: Vec::new(),
        value,
        nullable: false,
        default: None,
        primary_key: PrimaryKeyType::NotPrimaryKey,
        unique: false,
        references: None,
        on_delete: None,
        on_update: None,
        passive: false,
        comment: "",
    }
}

fn operator() -> EntityDef {
    let mut id = column("id", "operator", "operations", Value::Uuid(None));
    id.primary_key = PrimaryKeyType::PrimaryKey;
    let mut callsign = column("callsign", "operator", "operations", Value::Varchar(None));
    callsign.unique = true;
    let mut rank = column("rank", "operator", "operations", Value::Varchar(None));
    rank.nullable = true;
    rank.comment = "military rank";
    EntityDef {
        table: TableRef { name: "operator", schema: "operations", alias: String::new() },
        columns: vec![id, callsign, rank],
        primary_key: vec![0],
        unique_defs: vec![],
    }
}

fn trips() -> EntityDef {
    let mut a = column("a", "trips", "", Value::Int64(None));
    a.primary_key = PrimaryKeyType::PartOfPrimaryKey;
    let mut b = column("b", "trips", "", Value::Int32(None));
    b.primary_key = PrimaryKeyType::PartOfPrimaryKey;
    let mut c = column("c", "trips", "", Value::Varchar(None));
    c.column_type = vec![("postgres", "CHARACTER VARYING"), ("", "TEXT")];
    c.default = Some(Expression::Value(Value::Varchar(Some("x".into()))));
    let mut d = column("d", "trips", "", Value::Int32(None));
    d.nullable = true;
    d.references = Some(ColumnRef { name: "id", table: "other", schema: "" });
    d.on_delete = Some(Action::Cascade);
    EntityDef {
        table: TableRef { name: "trips", schema: "", alias: String::new() },
        columns: vec![a, b, c, d],
        primary_key: vec![0, 1],
        unique_defs: vec![vec![2, 3], vec![1]],
    }
}

fn uuid(n: u128) -> Value {
    Value::Uuid(Some(n))
}

fn text(s: &str) -> Value {
    Value::Varchar(Some(s.into()))
}

#[test]
fn create_table_with_comment() {
    let writer = GenericSqlWriter::new();
    let mut out = String::new();
    writer.write_create_table(&mut out, &operator(), true);
    assert_eq!(
        out,
        "CREATE TABLE IF NOT EXISTS \"operations\".\"operator\" (\n\
         \"id\" UUID PRIMARY KEY,\n\
         \"callsign\" VARCHAR NOT NULL UNIQUE,\n\
         \"rank\" VARCHAR);\n\
         COMMENT ON COLUMN \"operations\".\"operator\".\"rank\" IS 'military rank';"
    );
}

#[test]
fn create_table_with_composite_keys() {
    let writer = GenericSqlWriter::new();
    let mut out = String::from("BEGIN;");
    writer.write_create_table(&mut out, &trips(), false);
    assert_eq!(
        out,
        "BEGIN;\nCREATE TABLE \"trips\" (\n\
         \"a\" BIGINT,\n\
         \"b\" INTEGER,\n\
         \"c\" TEXT NOT NULL DEFAULT 'x',\n\
         \"d\" INTEGER REFERENCES \"other\"(\"id\") ON DELETE CASCADE,\n\
         PRIMARY KEY (\"a\", \"b\"),\n\
         UNIQUE (\"c\", \"d\"));"
    );
}

#[test]
fn schema_and_table_statements() {
    let writer = GenericSqlWriter::new();
    let mut out = String::new();
    writer.write_create_schema(&mut out, &operator(), true);
    writer.write_drop_table(&mut out, &operator(), true);
    writer.write_drop_schema(&mut out, &operator(), false);
    assert_eq!(
        out,
        "CREATE SCHEMA IF NOT EXISTS \"operations\";\n\
         DROP TABLE IF EXISTS \"operations\".\"operator\";\n\
         DROP SCHEMA \"operations\";"
    );
    let mut tx = String::new();
    writer.write_transaction_begin(&mut tx);
    writer.write_transaction_commit(&mut tx);
    writer.write_transaction_rollback(&mut tx);
    assert_eq!(tx, "BEGIN;COMMIT;ROLLBACK;");
}

#[test]
fn insert_single_row_upsert() {
    let writer = GenericSqlWriter::new();
    let mut out = String::new();
    let rows = vec![vec![("id", uuid(1)), ("callsign", text("Red-One")), ("rank", text("LT"))]];
    writer.write_insert(&mut out, &operator(), &rows, true);
    assert_eq!(
        out,
        "INSERT INTO \"operations\".\"operator\" (\"id\", \"callsign\", \"rank\") VALUES\n\
         ('00000000-0000-0000-0000-000000000001', 'Red-One', 'LT')\n\
         ON CONFLICT (\"id\") DO UPDATE SET\n\
         \"callsign\" = EXCLUDED.\"callsign\",\n\
         \"rank\" = EXCLUDED.\"rank\";"
    );
}

#[test]
fn insert_single_row_lists_only_given_columns() {
    let writer = GenericSqlWriter::new();
    let mut out = String::new();
    let rows = vec![vec![("id", uuid(2)), ("rank", text("CPT"))]];
    writer.write_insert(&mut out, &operator(), &rows, true);
    assert_eq!(
        out,
        "INSERT INTO \"operations\".\"operator\" (\"id\", \"rank\") VALUES\n\
         ('00000000-0000-0000-0000-000000000002', 'CPT')\n\
         ON CONFLICT (\"id\") DO UPDATE SET\n\
         \"rank\" = EXCLUDED.\"rank\";"
    );
}

#[test]
fn insert_many_rows_uses_default() {
    let writer = GenericSqlWriter::new();
    let mut out = String::new();
    let rows = vec![
        vec![("id", uuid(1)), ("callsign", text("A"))],
        vec![("id", uuid(2)), ("callsign", text("B")), ("rank", text("X"))],
    ];
    writer.write_insert(&mut out, &operator(), &rows, false);
    assert_eq!(
        out,
        "INSERT INTO \"operations\".\"operator\" (\"id\", \"callsign\", \"rank\") VALUES\n\
         ('00000000-0000-0000-0000-000000000001', 'A', DEFAULT),\n\
         ('00000000-0000-0000-0000-000000000002', 'B', 'X');"
    );
}

#[test]
fn insert_nothing_without_rows() {
    let writer = GenericSqlWriter::new();
    let mut out = String::from("keep");
    writer.write_insert(&mut out, &operator(), &Vec::new(), true);
    assert_eq!(out, "keep");
}

#[test]
fn upsert_without_primary_key_is_plain_insert() {
    let writer = GenericSqlWriter::new();
    let mut entity = operator();
    entity.primary_key = vec![];
    let mut out = String::new();
    writer.write_insert(&mut out, &entity, &vec![vec![("rank", text("LT"))]], true);
    assert_eq!(
        out,
        "INSERT INTO \"operations\".\"operator\" (\"rank\") VALUES\n('LT');"
    );
}

fn col(name: &'static str, table: &'static str) -> Expression {
    Expression::Column(ColumnRef { name, table, schema: "" })
}

#[test]
fn select_with_order_and_limit() {
    let writer = GenericSqlWriter::new();
    let mut out = String::new();
    let columns = vec![
        col("callsign", "operator"),
        Expression::Ordered(Ordered { expression: Box::new(col("rank", "operator")), order: Order::DESC }),
    ];
    let from = DataSet::Table(operator().table);
    writer.write_select(&mut out, &columns, &from, &Expression::Bool(true), Some(10));
    assert_eq!(
        out,
        "SELECT \"callsign\", \"rank\"\n\
         FROM \"operations\".\"operator\"\n\
         WHERE true\n\
         ORDER BY \"rank\" DESC\n\
         LIMIT 10;"
    );
}

#[test]
fn select_from_join_qualifies_columns() {
    let writer = GenericSqlWriter::new();
    let mut out = String::new();
    let columns = vec![col("id", "a")];
    let join = Join {
        join: JoinType::Left,
        lhs: DataSet::Table(TableRef { name: "a", schema: "", alias: "x".into() }),
        rhs: DataSet::Table(TableRef { name: "b", schema: "", alias: String::new() }),
        on: Some(Expression::Binary(BinaryOp {
            op: BinaryOpType::Equal,
            lhs: Box::new(col("id", "a")),
            rhs: Box::new(col("a_id", "b")),
        })),
    };
    let from = DataSet::Join(Box::new(join));
    writer.write_select(&mut out, &columns, &from, &Expression::Bool(true), None);
    assert_eq!(
        out,
        "SELECT \"a\".\"id\"\n\
         FROM \"a\" x LEFT JOIN \"b\" ON \"a\".\"id\" = \"b\".\"a_id\"\n\
         WHERE true;"
    );
}

#[test]
fn delete_statement() {
    let writer = GenericSqlWriter::new();
    let mut out = String::new();
    writer.write_delete(&mut out, &operator(), &Expression::Bool(false));
    assert_eq!(out, "DELETE FROM \"operations\".\"operator\"\nWHERE false;");
}

#[test]
fn save_and_delete_decisions() {
    let writer = GenericSqlWriter::new();
    let row = vec![("id", uuid(3)), ("callsign", text("C"))];
    let query = operator().save_query(&writer, row).unwrap();
    assert_eq!(
        query,
        "INSERT INTO \"operations\".\"operator\" (\"id\", \"callsign\") VALUES\n\
         ('00000000-0000-0000-0000-000000000003', 'C', )\n\
         ON CONFLICT (\"id\") DO UPDATE SET\n\
         \"callsign\" = EXCLUDED.\"callsign\";"
    );
    let mut keyless = operator();
    keyless.primary_key = vec![];
    assert_eq!(
        keyless.save_query(&writer, vec![]),
        Err(EntityError::SaveWithoutPrimaryKey)
    );
    assert_eq!(keyless.check_delete(), Err(EntityError::DeleteWithoutPrimaryKey));
    assert_eq!(operator().check_delete(), Ok(()));
    assert_eq!(
        deleted_one(&RowsAffected { rows_affected: 1, last_affected_id: None }),
        Ok(())
    );
    let none = deleted_one(&RowsAffected { rows_affected: 0, last_affected_id: None });
    assert_eq!(none, Err(EntityError::UnexpectedRowsDeleted(0)));
    assert_eq!(
        EntityError::UnexpectedRowsDeleted(2).message(),
        "The query deleted 2 rows instead of the expected 1"
    );
    assert_eq!(
        EntityError::SaveWithoutPrimaryKey.message(),
        "Cannot save a entity without a primary key, it would always result in a insert"
    );
}

#[test]
fn rows_affected_accumulate() {
    let mut total = RowsAffected { rows_affected: 1, last_affected_id: Some(5) };
    total.extend(vec![
        RowsAffected { rows_affected: 2, last_affected_id: None },
        RowsAffected { rows_affected: 3, last_affected_id: Some(9) },
        RowsAffected { rows_affected: 4, last_affected_id: None },
    ]);
    assert_eq!(total.rows_affected, 10);
    assert_eq!(total.last_affected_id, Some(9));
    assert_eq!(RowsAffected::default(), RowsAffected { rows_affected: 0, last_affected_id: None });
}

#[test]
fn row_labeled_lookup() {
    let row = RowLabeled::new(
        vec!["a".into(), "b".into(), "a".into()],
        vec![Value::Int32(Some(1)), Value::Int32(Some(2)), Value::Int32(Some(3))],
    );
    assert_eq!(row.get_column("a"), Some(&Value::Int32(Some(1))));
    assert_eq!(row.get_column("b"), Some(&Value::Int32(Some(2))));
    assert_eq!(row.get_column("c"), None);
    assert_eq!(row.names().len(), 3);
    assert_eq!(row.values().len(), 3);
}

#[test]
fn writability_and_key_checks() {
    let huge = || Value::Interval(Some(Interval::new(0, i64::MAX, i128::MAX)));
    let fine = || Value::Interval(Some(Interval::new(1, 2, 3)));
    assert!(!is_value_writable(&huge()));
    assert!(is_value_writable(&fine()));
    assert!(!is_value_writable(&Value::List(Some(vec![fine(), huge()]), Box::new(Value::Interval(None)))));
    assert!(is_expr_writable(&Expression::Value(fine())));
    assert!(!is_expr_writable(&Expression::Binary(BinaryOp {
        op: BinaryOpType::Addition,
        lhs: Box::new(Expression::Value(fine())),
        rhs: Box::new(Expression::Value(huge())),
    })));
    assert!(are_all_writable(&vec![Expression::Bool(true), Expression::Value(fine())]));
    assert!(!are_all_writable(&vec![Expression::Value(huge())]));
    assert!(is_data_set_writable(&DataSet::Table(TableRef { name: "t", schema: "", alias: String::new() })));
    assert!(are_columns_writable(&trips().columns));
    assert!(are_rows_writable(&vec![vec![("a", fine())]]));
    assert!(!are_rows_writable(&vec![vec![("a", fine())], vec![("b", huge())]]));
    assert!(operator().is_wf());
    let mut broken = trips();
    broken.unique_defs.push(vec![7]);
    assert!(!broken.is_wf());
}

#[test]
fn escaped_with_unused_wide_search() {
    let writer = GenericSqlWriter::new();
    let mut out = String::new();
    writer.write_escaped(&Context::default(), &mut out, "a'b", 'é', "x");
    assert_eq!(out, "a'b");
    let mut out = String::new();
    writer.write_escaped(&Context::default(), &mut out, "a'b'", '\'', "''");
    assert_eq!(out, "a''b''");
}

#[test]
fn identifiers_without_quotes() {
    assert!(tank_core::write_sql::is_identifier("user_id2"));
    assert!(tank_core::write_sql::is_identifier("_x"));
    assert!(!tank_core::write_sql::is_identifier("2x"));
    assert!(!tank_core::write_sql::is_identifier("a-b"));
    assert!(!tank_core::write_sql::is_identifier(""));
}
