//! Catalog parsing and SQL type behaviour.

use bufferpool::catalog::{parse_create_stmt, Column, Schema};
use bufferpool::data_type::DataType;

#[test]
fn mod_insert_test_1() {
    let key_schema = parse_create_stmt("a bigint");
    println!("{key_schema:?}");
}

#[test]
fn display_for_data_type() {
    let data_type = DataType::Invalid;
    println!("{}", data_type.name_string());
}

#[test]
fn parse_create_stmt_reads_names_and_types() {
    let schema = parse_create_stmt("id int,Name VARCHAR(32),balance double");
    assert_eq!(3, schema.get_col_count());
    assert_eq!(Some(0), schema.get_col_idx("id"));
    assert_eq!(Some(1), schema.get_col_idx("name"));
    assert_eq!(Some(2), schema.get_col_idx("balance"));
    assert_eq!(None, schema.get_col_idx("missing"));
    assert_eq!(0, schema.get_non_inlined_column_count());
}

#[test]
fn from_str_keywords() {
    assert_eq!(Ok(DataType::Boolean), DataType::from_str("bool"));
    assert_eq!(Ok(DataType::Boolean), DataType::from_str("boolean"));
    assert_eq!(Ok(DataType::TinyInt), DataType::from_str("tinyint"));
    assert_eq!(Ok(DataType::SmallInt), DataType::from_str("smallint"));
    assert_eq!(Ok(DataType::Integer), DataType::from_str("int"));
    assert_eq!(Ok(DataType::Integer), DataType::from_str("integer"));
    assert_eq!(Ok(DataType::BigInt), DataType::from_str("bigint"));
    assert_eq!(Ok(DataType::Decimal), DataType::from_str("double"));
    assert_eq!(Ok(DataType::Varchar(16)), DataType::from_str("varchar(16)"));
    assert_eq!(Ok(DataType::Varchar(5)), DataType::from_str("char(5)"));
    // Anything unknown falls back to Integer.
    assert_eq!(Ok(DataType::Integer), DataType::from_str("blob"));
}

#[test]
fn from_str_rejects_malformed_varchar() {
    // Missing parentheses, missing size, junk size, and overflow.
    assert_eq!(Err(()), DataType::from_str("varchar"));
    assert_eq!(Err(()), DataType::from_str("varchar(4"));
    assert_eq!(Err(()), DataType::from_str("varchar()"));
    assert_eq!(Err(()), DataType::from_str("varchar(4x)"));
    assert_eq!(Err(()), DataType::from_str("varchar(4294967296)"));
    assert_eq!(Ok(DataType::Varchar(4294967295)), DataType::from_str("varchar(4294967295)"));
}

#[test]
fn is_numeric_for_each_type() {
    assert_eq!(true, DataType::TinyInt.is_numeric());
    assert_eq!(true, DataType::SmallInt.is_numeric());
    assert_eq!(true, DataType::Integer.is_numeric());
    assert_eq!(true, DataType::BigInt.is_numeric());
    assert_eq!(false, DataType::Boolean.is_numeric());
    assert_eq!(false, DataType::Decimal.is_numeric());
    assert_eq!(false, DataType::Varchar(4).is_numeric());
    assert_eq!(false, DataType::Invalid.is_numeric());
}

#[test]
fn name_string_includes_varchar_size() {
    assert_eq!("Invalid", DataType::Invalid.name_string());
    assert_eq!("Varchar(107)", DataType::Varchar(107).name_string());
}

#[test]
fn schema_reports_first_matching_column() {
    let first = Column::new("a".to_string(), DataType::Integer);
    assert_eq!("a", first.get_name());
    assert_eq!(DataType::Integer, first.data_type);
    let columns = vec![
        first,
        Column::new("b".to_string(), DataType::Boolean),
        Column::new("a".to_string(), DataType::BigInt),
    ];
    let schema = Schema::new(columns);
    assert_eq!(3, schema.get_col_count());
    assert_eq!(Some(0), schema.get_col_idx("a"));
    assert_eq!(Some(1), schema.get_col_idx("b"));
    assert_eq!(None, schema.get_col_idx("c"));
}
