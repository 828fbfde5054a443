use bakery_data::error::StoreError;
use bakery_data::schema::Table;
use bakery_data::statement::{
    ColumnRef, InsertStatement, JoinClause, SelectStatement, SortOrder, SqlValue,
};

#[test]
fn build_insert_statement() {
    let stmt = InsertStatement {
        table: Table::Bakery,
        columns: vec![String::from("name"), String::from("profit_margin")],
        values: vec![
            SqlValue::TextVal(String::from("SQL Bakery")),
            SqlValue::IntVal(-100),
        ],
    };
    assert_eq!(
        stmt.to_sql().unwrap(),
        "INSERT INTO \"bakery\" (\"name\", \"profit_margin\") VALUES ('SQL Bakery', -100)"
    );
}

#[test]
fn build_join_select_statement() {
    let stmt = SelectStatement {
        columns: vec![ColumnRef::new(Table::Chef, "name")],
        from: Some(Table::Chef),
        join: Some(JoinClause {
            table: Table::Bakery,
            on_left: ColumnRef::new(Table::Chef, "bakery_id"),
            on_right: ColumnRef::new(Table::Bakery, "id"),
        }),
        where_eq: None,
        order_by: Some((ColumnRef::new(Table::Chef, "name"), SortOrder::Asc)),
    };
    assert_eq!(
        stmt.to_sql().unwrap(),
        "SELECT \"chef\".\"name\" FROM \"chef\" JOIN \"bakery\" ON \"chef\".\"bakery_id\" = \"bakery\".\"id\" ORDER BY \"chef\".\"name\" ASC"
    );
}

#[test]
fn select_filter_renders_quoted_text() {
    let stmt = SelectStatement {
        columns: vec![
            ColumnRef::new(Table::Bakery, "id"),
            ColumnRef::new(Table::Bakery, "name"),
        ],
        from: Some(Table::Bakery),
        join: None,
        where_eq: Some((
            ColumnRef::new(Table::Bakery, "name"),
            SqlValue::TextVal(String::from("Sad Bakery")),
        )),
        order_by: None,
    };
    assert_eq!(
        stmt.to_sql().unwrap(),
        "SELECT \"bakery\".\"id\", \"bakery\".\"name\" FROM \"bakery\" WHERE \"bakery\".\"name\" = 'Sad Bakery'"
    );
}

#[test]
fn select_descending_order_renders() {
    let stmt = SelectStatement {
        columns: vec![ColumnRef::new(Table::Bakery, "name")],
        from: Some(Table::Bakery),
        join: None,
        where_eq: None,
        order_by: Some((ColumnRef::new(Table::Bakery, "name"), SortOrder::Desc)),
    };
    assert_eq!(
        stmt.to_sql().unwrap(),
        "SELECT \"bakery\".\"name\" FROM \"bakery\" ORDER BY \"bakery\".\"name\" DESC"
    );
}

#[test]
fn text_values_escape_single_quotes() {
    let stmt = InsertStatement {
        table: Table::Chef,
        columns: vec![String::from("name")],
        values: vec![SqlValue::TextVal(String::from("O'Brien's"))],
    };
    assert_eq!(
        stmt.to_sql().unwrap(),
        "INSERT INTO \"chef\" (\"name\") VALUES ('O''Brien''s')"
    );
}

#[test]
fn integer_values_render_in_decimal() {
    let stmt = InsertStatement {
        table: Table::Chef,
        columns: vec![
            String::from("id"),
            String::from("bakery_id"),
        ],
        values: vec![SqlValue::IntVal(0), SqlValue::IntVal(1234567890)],
    };
    assert_eq!(
        stmt.to_sql().unwrap(),
        "INSERT INTO \"chef\" (\"id\", \"bakery_id\") VALUES (0, 1234567890)"
    );

    let extremes = InsertStatement {
        table: Table::Chef,
        columns: vec![String::from("id"), String::from("bakery_id")],
        values: vec![
            SqlValue::IntVal(i64::MIN),
            SqlValue::IntVal(i64::MAX),
        ],
    };
    assert_eq!(
        extremes.to_sql().unwrap(),
        "INSERT INTO \"chef\" (\"id\", \"bakery_id\") VALUES (-9223372036854775808, 9223372036854775807)"
    );
}

#[test]
fn unknown_column_is_query_build_error() {
    let stmt = SelectStatement {
        columns: vec![ColumnRef::new(Table::Bakery, "bakery_id")],
        from: Some(Table::Bakery),
        join: None,
        where_eq: None,
        order_by: None,
    };
    assert_eq!(stmt.to_sql(), Err(StoreError::QueryBuild));

    let insert = InsertStatement {
        table: Table::Bakery,
        columns: vec![String::from("nickname")],
        values: vec![SqlValue::TextVal(String::from("x"))],
    };
    assert_eq!(insert.to_sql(), Err(StoreError::QueryBuild));
}

#[test]
fn malformed_statements_are_rejected() {
    let no_from = SelectStatement {
        columns: vec![ColumnRef::new(Table::Bakery, "id")],
        from: None,
        join: None,
        where_eq: None,
        order_by: None,
    };
    assert_eq!(no_from.to_sql(), Err(StoreError::QueryBuild));

    let no_columns = SelectStatement {
        columns: vec![],
        from: Some(Table::Bakery),
        join: None,
        where_eq: None,
        order_by: None,
    };
    assert_eq!(no_columns.to_sql(), Err(StoreError::QueryBuild));

    let count_mismatch = InsertStatement {
        table: Table::Bakery,
        columns: vec![String::from("name"), String::from("profit_margin")],
        values: vec![SqlValue::TextVal(String::from("Lonely"))],
    };
    assert_eq!(count_mismatch.to_sql(), Err(StoreError::QueryBuild));

    let bad_join = SelectStatement {
        columns: vec![ColumnRef::new(Table::Chef, "name")],
        from: Some(Table::Chef),
        join: Some(JoinClause {
            table: Table::Bakery,
            on_left: ColumnRef::new(Table::Chef, "profit_margin"),
            on_right: ColumnRef::new(Table::Bakery, "id"),
        }),
        where_eq: None,
        order_by: None,
    };
    assert_eq!(bad_join.to_sql(), Err(StoreError::QueryBuild));
}

#[test]
fn schema_declarations() {
    assert_eq!(Table::Bakery.name(), "bakery");
    assert_eq!(Table::Chef.name(), "chef");
    assert_eq!(Table::Bakery.primary_key(), "id");
    assert_eq!(Table::Chef.primary_key(), "id");

    assert!(Table::Bakery.has_column(&String::from("profit_margin")));
    assert!(!Table::Bakery.has_column(&String::from("bakery_id")));
    assert!(Table::Chef.has_column(&String::from("contact_details")));
    assert!(!Table::Chef.has_column(&String::from("profit_margin")));
}
