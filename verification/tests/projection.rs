use snow_duck::convert::ConversionContext;
use snow_duck::errors::ReportedError;
use snow_duck::project::{row_to_array, row_to_object, rows_to_arrays, rows_to_objects, Row, RowCell};
use snow_duck::value::{HostValue, SourceValue};

fn ctx() -> ConversionContext {
    ConversionContext::conventional()
}

fn ok_cell(name: &str, value: SourceValue) -> RowCell {
    RowCell { name: name.to_string(), value: Ok(value) }
}

fn bad_cell(name: &str, cause: &str) -> RowCell {
    RowCell { name: name.to_string(), value: Err(cause.to_string()) }
}

#[test]
fn one_column_row_returns_unwrapped_scalar() {
    let row = Row { cells: vec![ok_cell("total", SourceValue::Int64(99))] };
    assert_eq!(row_to_array(ctx(), &row), Ok(HostValue::Int(99)));
}

#[test]
fn multi_column_row_returns_array_in_column_order() {
    let row = Row {
        cells: vec![
            ok_cell("a", SourceValue::Int32(1)),
            ok_cell("b", SourceValue::Text("x".to_string())),
            ok_cell("c", SourceValue::Boolean(false)),
        ],
    };
    assert_eq!(
        row_to_array(ctx(), &row),
        Ok(HostValue::Array(vec![
            HostValue::Int(1),
            HostValue::Str("x".to_string()),
            HostValue::Bool(false),
        ]))
    );
}

#[test]
fn empty_row_is_an_error() {
    let row = Row { cells: vec![] };
    let err = row_to_array(ctx(), &row).unwrap_err();
    assert_eq!(
        err,
        ReportedError::QueryExecution { cause: "Could not get first column".to_string() }
    );
}

#[test]
fn failing_column_aborts_row_and_names_it() {
    // A cell failure on "amount" in a three-column row surfaces one error
    // naming "amount"; no partial row comes back.
    let row = Row {
        cells: vec![
            ok_cell("id", SourceValue::Int32(7)),
            bad_cell("amount", "unsupported cell"),
            ok_cell("note", SourceValue::Text("x".to_string())),
        ],
    };
    let err = row_to_array(ctx(), &row).unwrap_err();
    assert_eq!(
        err,
        ReportedError::ColumnConversion {
            column_name: "amount".to_string(),
            cause: "unsupported cell".to_string(),
        }
    );
    assert_eq!(
        err.message(),
        "Error converting value of column amount : unsupported cell"
    );
}

#[test]
fn object_projection_keys_columns_by_symbol_in_order() {
    let row = Row {
        cells: vec![
            ok_cell("id", SourceValue::Int32(1)),
            ok_cell("name", SourceValue::Text("n".to_string())),
        ],
    };
    assert_eq!(
        row_to_object(ctx(), &row, false),
        Ok(HostValue::Hash {
            entries: vec![
                (HostValue::Symbol("id".to_string()), HostValue::Int(1)),
                (HostValue::Symbol("name".to_string()), HostValue::Str("n".to_string())),
            ],
            indifferent: false,
        })
    );
}

#[test]
fn object_projection_records_indifferent_access_capability() {
    let row = Row { cells: vec![ok_cell("k", SourceValue::Null)] };
    let with = row_to_object(ctx(), &row, true).unwrap();
    let without = row_to_object(ctx(), &row, false).unwrap();
    match (with, without) {
        (
            HostValue::Hash { indifferent: a, .. },
            HostValue::Hash { indifferent: b, .. },
        ) => {
            assert!(a);
            assert!(!b);
        },
        _ => panic!("object projection must yield hashes"),
    }
}

#[test]
fn empty_row_in_object_mode_is_an_empty_hash() {
    let row = Row { cells: vec![] };
    assert_eq!(
        row_to_object(ctx(), &row, false),
        Ok(HostValue::Hash { entries: vec![], indifferent: false })
    );
}

#[test]
fn object_projection_reports_failing_column() {
    let row = Row {
        cells: vec![
            ok_cell("id", SourceValue::Int32(7)),
            bad_cell("amount", "bad cell"),
        ],
    };
    assert_eq!(
        row_to_object(ctx(), &row, true),
        Err(ReportedError::ColumnConversion {
            column_name: "amount".to_string(),
            cause: "bad cell".to_string(),
        })
    );
}

#[test]
fn batch_array_projection_materializes_every_row() {
    let rows = vec![
        Row { cells: vec![ok_cell("v", SourceValue::Int32(1))] },
        Row { cells: vec![ok_cell("v", SourceValue::Int32(2))] },
    ];
    assert_eq!(
        rows_to_arrays(ctx(), &rows),
        Ok(vec![HostValue::Int(1), HostValue::Int(2)])
    );
}

#[test]
fn batch_projection_stops_at_first_failing_row() {
    let rows = vec![
        Row { cells: vec![ok_cell("v", SourceValue::Int32(1))] },
        Row { cells: vec![bad_cell("v", "boom")] },
        Row { cells: vec![ok_cell("v", SourceValue::Int32(3))] },
    ];
    assert_eq!(
        rows_to_arrays(ctx(), &rows),
        Err(ReportedError::ColumnConversion {
            column_name: "v".to_string(),
            cause: "boom".to_string(),
        })
    );
}

#[test]
fn batch_object_projection_applies_one_capability_decision() {
    let rows = vec![
        Row { cells: vec![ok_cell("v", SourceValue::Int32(1))] },
        Row { cells: vec![ok_cell("v", SourceValue::Int32(2))] },
    ];
    let out = rows_to_objects(ctx(), &rows, true).unwrap();
    assert_eq!(out.len(), 2);
    for h in out {
        match h {
            HostValue::Hash { indifferent, .. } => assert!(indifferent),
            _ => panic!("object projection must yield hashes"),
        }
    }
}
