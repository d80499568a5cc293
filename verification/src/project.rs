//! The row projector: shapes one engine result row into either a positional
//! (array or unwrapped scalar) host value or a keyed host structure.

use crate::convert::{convert, converts_to, ConversionContext};
use crate::errors::{column_failure, ReportedError};
use crate::value::{dates_in_range, HostValue, SourceValue};
use vstd::prelude::*;

verus! {

/// One column of a fetched row: its name, and either the extracted cell
/// value or the engine's description of why extraction failed.
pub struct RowCell {
    pub name: String,
    pub value: Result<SourceValue, String>,
}

/// One engine result record: ordered (column name, cell) pairs, positional
/// and possibly containing duplicate names.
pub struct Row {
    pub cells: Vec<RowCell>,
}

/// Every cell before position `k` was extracted successfully.
pub open spec fn all_ok_upto(cells: Seq<RowCell>, k: int) -> bool {
    forall|j: int| 0 <= j < k ==> (#[trigger] cells[j]).value is Ok
}

/// Every cell of the row was extracted successfully.
pub open spec fn row_all_ok(row: Row) -> bool {
    all_ok_upto(row.cells@, row.cells@.len() as int)
}

/// Every successfully extracted cell value keeps its calendar dates inside
/// the promised range.
pub open spec fn row_dates_ok(row: Row) -> bool {
    forall|j: int|
        0 <= j < row.cells@.len() ==> ((#[trigger] row.cells@[j]).value matches Ok(v)
            ==> dates_in_range(v))
}

/// The same, over a whole result set.
pub open spec fn rows_dates_ok(rows: Seq<Row>) -> bool {
    forall|i: int| 0 <= i < rows.len() ==> row_dates_ok(#[trigger] rows[i])
}

/// Executable counterpart of [`row_dates_ok`], for an embedding that must
/// test a fetched row before asking for its projection.
pub fn row_dates_within_range(row: &Row) -> (b: bool)
    ensures
        b == row_dates_ok(*row),
{
    let mut i: usize = 0;
    let mut good = true;
    while i < row.cells.len()
        invariant
            i <= row.cells@.len(),
            good == forall|j: int|
                0 <= j < i ==> ((#[trigger] row.cells@[j]).value matches Ok(v) ==> dates_in_range(
                    v,
                )),
        decreases row.cells@.len() - i,
    {
        let cell_ok = match &row.cells[i].value {
            Ok(v) => crate::value::dates_within_range(v),
            Err(_) => true,
        };
        good = cell_ok && good;
        i = i + 1;
    }
    good
}

/// The same test over a whole result set.
pub fn rows_dates_within_range(rows: &Vec<Row>) -> (b: bool)
    ensures
        b == rows_dates_ok(rows@),
{
    let mut i: usize = 0;
    let mut good = true;
    while i < rows.len()
        invariant
            i <= rows@.len(),
            good == forall|j: int| 0 <= j < i ==> row_dates_ok(#[trigger] rows@[j]),
        decreases rows@.len() - i,
    {
        good = row_dates_within_range(&rows[i]) && good;
        i = i + 1;
    }
    good
}

/// `e` is the error owed for `row`: the name of the first failing column
/// with the engine's cause attached.
pub open spec fn row_error(row: Row, e: ReportedError) -> bool {
    forall|k: int|
        0 <= k < row.cells@.len() && (#[trigger] row.cells@[k]).value is Err && all_ok_upto(
            row.cells@,
            k,
        ) ==> (e matches ReportedError::ColumnConversion { column_name, cause } && column_name@
            == row.cells@[k].name@ && cause@ == row.cells@[k].value->Err_0@)
}

/// `h` is the positional projection of a fully extracted `row`: the single
/// converted value, unwrapped, when the row has exactly one column, and the
/// ordered array of converted values otherwise.
pub open spec fn array_projection(ctx: ConversionContext, row: Row, h: HostValue) -> bool {
    if row.cells@.len() == 1 {
        converts_to(ctx, row.cells@[0].value->Ok_0, h)
    } else {
        &&& h matches HostValue::Array(out)
        &&& out@.len() == row.cells@.len()
        &&& forall|i: int|
            0 <= i < row.cells@.len() ==> converts_to(
                ctx,
                (#[trigger] row.cells@[i]).value->Ok_0,
                out@[i],
            )
    }
}

/// `h` is the keyed projection of a fully extracted `row`: each column name
/// as an interned label mapped to its converted value, in column order, with
/// the indifferent-access adapter applied exactly when the capability is
/// there.
pub open spec fn object_projection(
    ctx: ConversionContext,
    row: Row,
    indifferent: bool,
    h: HostValue,
) -> bool {
    &&& h matches HostValue::Hash { entries, indifferent: ind }
    &&& ind == indifferent
    &&& entries@.len() == row.cells@.len()
    &&& forall|i: int|
        0 <= i < row.cells@.len() ==> ((#[trigger] entries@[i]).0 matches HostValue::Symbol(s)
            && s@ == row.cells@[i].name@)
    &&& forall|i: int|
        0 <= i < row.cells@.len() ==> converts_to(
            ctx,
            (#[trigger] row.cells@[i]).value->Ok_0,
            entries@[i].1,
        )
}

/// A row that cannot be materialized: it has no first column to unwrap, or
/// some cell failed to extract.
pub open spec fn row_fails(row: Row) -> bool {
    row.cells@.len() == 0 || !row_all_ok(row)
}

/// The error owed for a failing row in positional mode.
pub open spec fn array_row_error(row: Row, e: ReportedError) -> bool {
    if row.cells@.len() == 0 {
        e matches ReportedError::QueryExecution { cause } && cause@
            == "Could not get first column"@
    } else {
        row_error(row, e)
    }
}

/// Projects one row positionally. A row with two or more columns becomes an
/// ordered array of its converted values; a row with exactly one column
/// yields the converted value itself, unwrapped — the one-column shape is
/// deliberately not a one-element array. The first failing cell aborts the
/// whole row, naming its column; no partial row is returned.
pub fn row_to_array(ctx: ConversionContext, row: &Row) -> (r: Result<HostValue, ReportedError>)
    requires
        ctx.valid(),
        row_dates_ok(*row),
    ensures
        r is Ok <==> !row_fails(*row),
        r matches Ok(h) ==> array_projection(ctx, *row, h),
        r matches Err(e) ==> array_row_error(*row, e),
{
    if row.cells.len() == 0 {
        return Err(
            ReportedError::QueryExecution { cause: String::from_str("Could not get first column") },
        );
    }
    if row.cells.len() == 1 {
        let cell = &row.cells[0];
        match &cell.value {
            Ok(v) => Ok(convert(ctx, v)),
            Err(cause) => Err(column_failure(cell.name.clone(), cause.clone())),
        }
    } else {
        let mut out: Vec<HostValue> = Vec::new();
        let mut i: usize = 0;
        while i < row.cells.len()
            invariant
                ctx.valid(),
                row_dates_ok(*row),
                i <= row.cells@.len(),
                out@.len() == i,
                all_ok_upto(row.cells@, i as int),
                forall|j: int|
                    0 <= j < i ==> converts_to(
                        ctx,
                        (#[trigger] row.cells@[j]).value->Ok_0,
                        out@[j],
                    ),
            decreases row.cells@.len() - i,
        {
            let cell = &row.cells[i];
            match &cell.value {
                Ok(v) => out.push(convert(ctx, v)),
                Err(cause) => {
                    return Err(column_failure(cell.name.clone(), cause.clone()));
                },
            }
            i = i + 1;
        }
        Ok(HostValue::Array(out))
    }
}

/// Projects one row into a keyed structure: column names become interned
/// labels mapped to converted values in column order. When the host's
/// indifferent-key-access capability is available the adapter is recorded on
/// the result; its absence is not an error. The first failing cell aborts
/// the whole row, naming its column.
pub fn row_to_object(ctx: ConversionContext, row: &Row, indifferent: bool) -> (r: Result<
    HostValue,
    ReportedError,
>)
    requires
        ctx.valid(),
        row_dates_ok(*row),
    ensures
        r is Ok <==> row_all_ok(*row),
        r matches Ok(h) ==> object_projection(ctx, *row, indifferent, h),
        r matches Err(e) ==> row_error(*row, e),
{
    let mut entries: Vec<(HostValue, HostValue)> = Vec::new();
    let mut i: usize = 0;
    while i < row.cells.len()
        invariant
            ctx.valid(),
            row_dates_ok(*row),
            i <= row.cells@.len(),
            entries@.len() == i,
            all_ok_upto(row.cells@, i as int),
            forall|j: int|
                0 <= j < i ==> ((#[trigger] entries@[j]).0 matches HostValue::Symbol(s) && s@
                    == row.cells@[j].name@),
            forall|j: int|
                0 <= j < i ==> converts_to(
                    ctx,
                    (#[trigger] row.cells@[j]).value->Ok_0,
                    entries@[j].1,
                ),
        decreases row.cells@.len() - i,
    {
        let cell = &row.cells[i];
        match &cell.value {
            Ok(v) => {
                let key = HostValue::Symbol(cell.name.clone());
                entries.push((key, convert(ctx, v)));
            },
            Err(cause) => {
                return Err(column_failure(cell.name.clone(), cause.clone()));
            },
        }
        i = i + 1;
    }
    Ok(HostValue::Hash { entries, indifferent })
}

/// Materializes a whole result set positionally: every row projected in
/// order, or the error of the first row that cannot be materialized.
pub fn rows_to_arrays(ctx: ConversionContext, rows: &Vec<Row>) -> (r: Result<
    Vec<HostValue>,
    ReportedError,
>)
    requires
        ctx.valid(),
        rows_dates_ok(rows@),
    ensures
        r is Ok <==> (forall|i: int| 0 <= i < rows@.len() ==> !row_fails(#[trigger] rows@[i])),
        r matches Ok(out) ==> out@.len() == rows@.len() && forall|i: int|
            0 <= i < rows@.len() ==> array_projection(ctx, #[trigger] rows@[i], out@[i]),
        r matches Err(e) ==> forall|k: int|
            0 <= k < rows@.len() && row_fails(#[trigger] rows@[k]) && (forall|j: int|
                0 <= j < k ==> !row_fails(#[trigger] rows@[j])) ==> array_row_error(rows@[k], e),
{
    let mut out: Vec<HostValue> = Vec::new();
    let mut i: usize = 0;
    while i < rows.len()
        invariant
            ctx.valid(),
            rows_dates_ok(rows@),
            i <= rows@.len(),
            out@.len() == i,
            forall|j: int| 0 <= j < i ==> !row_fails(#[trigger] rows@[j]),
            forall|j: int|
                0 <= j < i ==> array_projection(ctx, #[trigger] rows@[j], out@[j]),
        decreases rows@.len() - i,
    {
        match row_to_array(ctx, &rows[i]) {
            Ok(h) => out.push(h),
            Err(e) => {
                return Err(e);
            },
        }
        i = i + 1;
    }
    Ok(out)
}

/// Materializes a whole result set as keyed structures: every row projected
/// in order under the same capability decision, or the error of the first
/// row whose materialization fails.
pub fn rows_to_objects(ctx: ConversionContext, rows: &Vec<Row>, indifferent: bool) -> (r: Result<
    Vec<HostValue>,
    ReportedError,
>)
    requires
        ctx.valid(),
        rows_dates_ok(rows@),
    ensures
        r is Ok <==> (forall|i: int| 0 <= i < rows@.len() ==> row_all_ok(#[trigger] rows@[i])),
        r matches Ok(out) ==> out@.len() == rows@.len() && forall|i: int|
            0 <= i < rows@.len() ==> object_projection(ctx, #[trigger] rows@[i], indifferent, out@[i]),
        r matches Err(e) ==> forall|k: int|
            0 <= k < rows@.len() && !row_all_ok(#[trigger] rows@[k]) && (forall|j: int|
                0 <= j < k ==> row_all_ok(#[trigger] rows@[j])) ==> row_error(rows@[k], e),
{
    let mut out: Vec<HostValue> = Vec::new();
    let mut i: usize = 0;
    while i < rows.len()
        invariant
            ctx.valid(),
            rows_dates_ok(rows@),
            i <= rows@.len(),
            out@.len() == i,
            forall|j: int| 0 <= j < i ==> row_all_ok(#[trigger] rows@[j]),
            forall|j: int|
                0 <= j < i ==> object_projection(ctx, #[trigger] rows@[j], indifferent, out@[j]),
        decreases rows@.len() - i,
    {
        match row_to_object(ctx, &rows[i], indifferent) {
            Ok(h) => out.push(h),
            Err(e) => {
                return Err(e);
            },
        }
        i = i + 1;
    }
    Ok(out)
}

} // verus!
