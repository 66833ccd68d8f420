//! The columnar data model that the formatters read.

use vstd::prelude::*;

verus! {

/// The unit in which the integers of a duration column count time.
#[derive(Debug, Clone, Copy, PartialEq, Eq)]
pub enum TimeUnit {
    Second,
    Millisecond,
    Microsecond,
    Nanosecond,
}

/// How the children of a union column are addressed.
#[derive(Debug, Clone, Copy, PartialEq, Eq)]
pub enum UnionMode {
    /// Every child has one slot per row of the union.
    Sparse,
    /// Each row names the slot of its child through `offsets`.
    Dense,
}

/// A child of a union column: its type id, its field name and its values.
pub struct UnionChild {
    pub type_id: u8,
    pub name: String,
    pub column: Column,
}

/// The values of a column, by kind.
#[allow(inconsistent_fields)]
pub enum ColumnData {
    /// A column of the null type: every row is null.
    Null,
    Boolean(Vec<bool>),
    /// Signed integers of any width.
    Int(Vec<i64>),
    /// Unsigned integers of any width.
    UInt(Vec<u64>),
    /// Values that are written as they stand (strings, and values already rendered).
    Text(Vec<String>),
    Duration(TimeUnit, Vec<i64>),
    /// Dates, as days since the epoch.
    Date32(Vec<i32>),
    /// Dates, as milliseconds since the epoch.
    Date64(Vec<i64>),
    /// Times of day, in seconds or milliseconds.
    Time32(TimeUnit, Vec<i32>),
    /// Times of day, in microseconds or nanoseconds.
    Time64(TimeUnit, Vec<i64>),
    /// Instants since the epoch counted in `unit`, and the timezone, if any,
    /// in which they are shown.
    Timestamp { unit: TimeUnit, timezone: Option<String>, values: Vec<i64> },
    /// Decimals of 128 bits: unscaled values with a precision and a scale.
    Decimal128 { precision: u8, scale: i8, values: Vec<i128> },
    /// Decimals of 256 bits: unscaled values, each as its high and low halves.
    Decimal256 { precision: u8, scale: i8, values: Vec<(i128, u128)> },
    /// Variable-size lists: row `i` holds `values[offsets[i]..offsets[i + 1]]`.
    List { offsets: Vec<usize>, values: Box<Column> },
    /// Fixed-size lists: row `i` holds `values[i * size..(i + 1) * size]`.
    FixedSizeList { size: usize, values: Box<Column> },
    /// Structs: row `i` holds row `i` of each child.
    Struct { names: Vec<String>, columns: Vec<Column> },
    /// Maps: row `i` holds the entries `offsets[i]..offsets[i + 1]` of `keys` and `values`.
    KeyValue { offsets: Vec<usize>, keys: Box<Column>, values: Box<Column> },
    /// Dictionary encoding: row `i` is row `keys[i]` of `values`.
    Dictionary { keys: Vec<usize>, values: Box<Column> },
    /// Run-end encoding: row `i` is row `j` of `values` for the first run `j`
    /// whose end `run_ends[j]` is past `i`.
    RunEndEncoded { run_ends: Vec<usize>, values: Box<Column> },
    Union { mode: UnionMode, type_ids: Vec<u8>, offsets: Vec<usize>, children: Vec<UnionChild> },
    /// A column of a data type that cannot be formatted; `data_type` names its type.
    Unsupported { data_type: String },
}

/// A column: its number of rows, its validity (`nulls[i]` is `false` where row
/// `i` is null; no validity means that no row is marked null) and its values.
pub struct Column {
    pub len: usize,
    pub nulls: Option<Vec<bool>>,
    pub data: ColumnData,
}

/// Whether row `i` of `col` is marked null.
pub open spec fn is_null_at(col: Column, i: int) -> bool {
    match col.nulls {
        Some(v) => !v@[i],
        None => false,
    }
}

/// Whether formatting row `i` of `col` reads only what the column holds: `i`
/// is a row of the column, or the column is of the null type without a
/// validity, whose rows read nothing.
pub open spec fn row_readable(col: Column, i: int) -> bool {
    0 <= i < col.len || (col.data is Null && col.nulls is None)
}

/// Whether `offsets` describes `n` consecutive ranges inside `0..bound`.
pub open spec fn offsets_wf(offsets: Seq<usize>, n: int, bound: int) -> bool {
    &&& offsets.len() == n + 1
    &&& forall|i: int, j: int| 0 <= i <= j <= n ==> offsets[i] <= offsets[j]
    &&& offsets[n] <= bound
}

/// Whether the run ends are strictly increasing, cover the rows `0..n`, and
/// have a value each.
pub open spec fn run_ends_wf(run_ends: Seq<usize>, n: int, values_len: int) -> bool {
    &&& forall|i: int, j: int| 0 <= i < j < run_ends.len() ==> run_ends[i] < run_ends[j]
    &&& run_ends.len() <= values_len
    &&& n > 0 ==> run_ends.len() > 0 && run_ends.last() >= n
}

/// Whether the union children have distinct type ids below 128.
pub open spec fn union_ids_wf(children: Seq<UnionChild>) -> bool {
    &&& forall|j: int| 0 <= j < children.len() ==> #[trigger] children[j].type_id < 128
    &&& forall|j: int, k: int|
        0 <= j < k < children.len() ==> children[j].type_id != children[k].type_id
}

/// The position among `children[0..n]` of the last child whose type id is `id`.
pub open spec fn find_child(children: Seq<UnionChild>, id: u8, n: int) -> Option<int>
    decreases n,
{
    if n <= 0 {
        None
    } else if children[n - 1].type_id == id {
        Some(n - 1)
    } else {
        find_child(children, id, n - 1)
    }
}

/// The largest type id among `children[0..n]` (zero when there is none).
pub open spec fn max_type_id(children: Seq<UnionChild>, n: int) -> nat
    decreases n,
{
    if n <= 0 {
        0
    } else {
        let m = max_type_id(children, n - 1);
        if children[n - 1].type_id > m {
            children[n - 1].type_id as nat
        } else {
            m
        }
    }
}

/// The first run whose end is past row `i`, searching from run `j`: the
/// position in the values of a run-end encoded column that row `i` reads.
pub open spec fn run_of(run_ends: Seq<usize>, i: int, j: int) -> int
    decreases run_ends.len() - j,
{
    if j >= run_ends.len() || j < 0 {
        j
    } else if run_ends[j] > i {
        j
    } else {
        run_of(run_ends, i, j + 1)
    }
}

/// Whether a column is well formed: each kind holds as many values as its rows
/// need, its offsets and keys stay inside its children, and its children are
/// well formed.
pub open spec fn column_wf(col: Column) -> bool
    decreases col,
{
    &&& match col.nulls {
        Some(v) => v.len() == col.len,
        None => true,
    }
    &&& match col.data {
        ColumnData::Null => true,
        ColumnData::Boolean(v) => v.len() == col.len,
        ColumnData::Int(v) => v.len() == col.len,
        ColumnData::UInt(v) => v.len() == col.len,
        ColumnData::Text(v) => v.len() == col.len,
        ColumnData::Duration(_, v) => v.len() == col.len,
        ColumnData::Date32(v) => v.len() == col.len,
        ColumnData::Date64(v) => v.len() == col.len,
        ColumnData::Time32(u, v) => v.len() == col.len && (u == TimeUnit::Second || u
            == TimeUnit::Millisecond),
        ColumnData::Time64(u, v) => v.len() == col.len && (u == TimeUnit::Microsecond || u
            == TimeUnit::Nanosecond),
        ColumnData::Timestamp { values, .. } => values.len() == col.len,
        ColumnData::Decimal128 { values, .. } => values.len() == col.len,
        ColumnData::Decimal256 { values, .. } => values.len() == col.len,
        ColumnData::List { offsets, values } => {
            &&& offsets_wf(offsets@, col.len as int, values.len as int)
            &&& column_wf(*values)
        },
        ColumnData::FixedSizeList { size, values } => {
            &&& col.len * size <= values.len
            &&& column_wf(*values)
        },
        ColumnData::Struct { names, columns } => {
            &&& names.len() == columns.len()
            &&& forall|j: int|
                0 <= j < columns.len() ==> col.len <= (#[trigger] columns@[j]).len && column_wf(
                    columns@[j],
                )
        },
        ColumnData::KeyValue { offsets, keys, values } => {
            &&& offsets_wf(offsets@, col.len as int, keys.len as int)
            &&& keys.len <= values.len
            &&& column_wf(*keys)
            &&& column_wf(*values)
        },
        ColumnData::Dictionary { keys, values } => {
            &&& keys.len() == col.len
            &&& forall|i: int|
                0 <= i < col.len && !is_null_at(col, i) ==> #[trigger] keys@[i] < values.len
            &&& column_wf(*values)
        },
        ColumnData::RunEndEncoded { run_ends, values } => {
            &&& run_ends_wf(run_ends@, col.len as int, values.len as int)
            &&& column_wf(*values)
        },
        ColumnData::Union { mode, type_ids, offsets, children } => {
            &&& type_ids.len() == col.len
            &&& union_ids_wf(children@)
            &&& forall|i: int|
                0 <= i < col.len ==> #[trigger] type_ids@[i] <= max_type_id(
                    children@,
                    children.len() as int,
                )
            &&& forall|j: int|
                0 <= j < children.len() ==> column_wf(#[trigger] children@[j].column)
            &&& match mode {
                UnionMode::Sparse => forall|j: int|
                    0 <= j < children.len() ==> col.len <= (#[trigger] children@[j]).column.len,
                UnionMode::Dense => {
                    &&& offsets.len() == col.len
                    &&& forall|i: int|
                        0 <= i < col.len ==> match #[trigger] find_child(
                            children@,
                            type_ids@[i],
                            children.len() as int,
                        ) {
                            Some(j) => offsets@[i] < children@[j].column.len,
                            None => true,
                        }
                },
            }
        },
        ColumnData::Unsupported { .. } => true,
    }
}

/// Whether row `i` of `col` is marked null, where the validity covers the rows.
fn null_at(col: &Column, i: usize) -> (r: bool)
    requires
        col.nulls matches Some(v) ==> i < v.len(),
    ensures
        r == is_null_at(*col, i as int),
{
    match &col.nulls {
        Some(v) => !v[i],
        None => false,
    }
}

/// Whether `offsets` describes `n` consecutive ranges inside `0..bound`.
fn offsets_ok(offsets: &Vec<usize>, n: usize, bound: usize) -> (r: bool)
    ensures
        r == offsets_wf(offsets@, n as int, bound as int),
{
    if offsets.len() == 0 || offsets.len() - 1 != n {
        return false;
    }
    let mut k: usize = 1;
    while k < offsets.len()
        invariant
            offsets.len() == n + 1,
            1 <= k <= offsets.len(),
            forall|i: int, j: int| 0 <= i <= j < k ==> offsets@[i] <= offsets@[j],
        decreases offsets.len() - k,
    {
        if offsets[k - 1] > offsets[k] {
            assert(!(offsets@[k - 1] <= offsets@[k as int]));
            return false;
        }
        assert forall|i: int, j: int| 0 <= i <= j < k + 1 implies offsets@[i] <= offsets@[j] by {
            if j == k && i < k {
                assert(offsets@[i] <= offsets@[k - 1]);
            }
        }
        k += 1;
    }
    offsets[n] <= bound
}

/// Whether the run ends are strictly increasing, cover the rows `0..n`, and
/// have a value each.
fn run_ends_ok(run_ends: &Vec<usize>, n: usize, values_len: usize) -> (r: bool)
    ensures
        r == run_ends_wf(run_ends@, n as int, values_len as int),
{
    let m = run_ends.len();
    if m > values_len {
        return false;
    }
    if n > 0 && (m == 0 || run_ends[m - 1] < n) {
        return false;
    }
    let mut k: usize = 1;
    while k < m
        invariant
            m == run_ends.len(),
            1 <= k,
            k <= m || m == 0,
            forall|i: int, j: int| 0 <= i < j < k && j < m ==> run_ends@[i] < run_ends@[j],
        decreases m - k,
    {
        if run_ends[k - 1] >= run_ends[k] {
            assert(!(run_ends@[k - 1] < run_ends@[k as int]));
            return false;
        }
        assert forall|i: int, j: int| 0 <= i < j < k + 1 && j < m implies run_ends@[i]
            < run_ends@[j] by {
            if j == k && i < k - 1 {
                assert(run_ends@[i] < run_ends@[k - 1]);
            }
        }
        k += 1;
    }
    true
}

/// Whether the union children have distinct type ids below 128.
fn union_ids_ok(children: &Vec<UnionChild>) -> (r: bool)
    ensures
        r == union_ids_wf(children@),
{
    let n = children.len();
    let mut j: usize = 0;
    while j < n
        invariant
            n == children.len(),
            j <= n,
            forall|a: int| 0 <= a < j ==> #[trigger] children@[a].type_id < 128,
            forall|a: int, b: int|
                0 <= a < b < j ==> children@[a].type_id != children@[b].type_id,
        decreases n - j,
    {
        if children[j].type_id >= 128 {
            return false;
        }
        let mut a: usize = 0;
        while a < j
            invariant
                n == children.len(),
                a <= j < n,
                forall|c: int| 0 <= c < a ==> children@[c].type_id != children@[j as int].type_id,
            decreases j - a,
        {
            if children[a].type_id == children[j].type_id {
                return false;
            }
            a += 1;
        }
        j += 1;
    }
    true
}

/// The largest type id of the union children (zero when there is none).
pub(crate) fn max_id(children: &Vec<UnionChild>) -> (m: u8)
    ensures
        m == max_type_id(children@, children.len() as int),
{
    let n = children.len();
    let mut m: u8 = 0;
    let mut k: usize = 0;
    while k < n
        invariant
            k <= n,
            n == children.len(),
            m == max_type_id(children@, k as int),
        decreases n - k,
    {
        if children[k].type_id > m {
            m = children[k].type_id;
        }
        k += 1;
    }
    m
}

/// The position of the last union child whose type id is `id`.
pub(crate) fn child_position(children: &Vec<UnionChild>, id: u8) -> (r: Option<usize>)
    ensures
        match r {
            Some(j) => find_child(children@, id, children.len() as int) == Some(j as int),
            None => find_child(children@, id, children.len() as int) is None,
        },
{
    let n = children.len();
    let mut j = n;
    while j > 0 && children[j - 1].type_id != id
        invariant
            j <= n,
            n == children.len(),
            find_child(children@, id, n as int) == find_child(children@, id, j as int),
        decreases j,
    {
        j -= 1;
    }
    if j == 0 {
        None
    } else {
        Some(j - 1)
    }
}

/// Whether a column is well formed, as [`column_wf`] states it: the test to
/// make on a column built by hand before formatting it.
pub fn is_well_formed(col: &Column) -> (r: bool)
    ensures
        r == column_wf(*col),
    decreases *col,
{
    let n = col.len;
    match &col.nulls {
        Some(v) => {
            if v.len() != n {
                return false;
            }
        },
        None => {},
    }
    match &col.data {
        ColumnData::Null => true,
        ColumnData::Boolean(v) => v.len() == n,
        ColumnData::Int(v) => v.len() == n,
        ColumnData::UInt(v) => v.len() == n,
        ColumnData::Text(v) => v.len() == n,
        ColumnData::Duration(_, v) => v.len() == n,
        ColumnData::Date32(v) => v.len() == n,
        ColumnData::Date64(v) => v.len() == n,
        ColumnData::Time32(u, v) => v.len() == n && match u {
            TimeUnit::Second | TimeUnit::Millisecond => true,
            _ => false,
        },
        ColumnData::Time64(u, v) => v.len() == n && match u {
            TimeUnit::Microsecond | TimeUnit::Nanosecond => true,
            _ => false,
        },
        ColumnData::Timestamp { values, .. } => values.len() == n,
        ColumnData::Decimal128 { values, .. } => values.len() == n,
        ColumnData::Decimal256 { values, .. } => values.len() == n,
        ColumnData::List { offsets, values } => offsets_ok(offsets, n, values.len)
            && is_well_formed(values),
        ColumnData::FixedSizeList { size, values } => match n.checked_mul(*size) {
            Some(total) => total <= values.len && is_well_formed(values),
            None => false,
        },
        ColumnData::Struct { names, columns } => {
            if names.len() != columns.len() {
                return false;
            }
            let mut j: usize = 0;
            while j < columns.len()
                invariant
                    j <= columns.len(),
                    n == col.len,
                    col.data is Struct,
                    *columns == col.data->columns,
                    forall|k: int|
                        0 <= k < j ==> col.len <= (#[trigger] columns@[k]).len && column_wf(
                            columns@[k],
                        ),
                decreases columns.len() - j,
            {
                if columns[j].len < n || !is_well_formed(&columns[j]) {
                    return false;
                }
                j += 1;
            }
            true
        },
        ColumnData::KeyValue { offsets, keys, values } => offsets_ok(offsets, n, keys.len)
            && keys.len <= values.len && is_well_formed(keys) && is_well_formed(values),
        ColumnData::Dictionary { keys, values } => {
            if keys.len() != n {
                return false;
            }
            let mut i: usize = 0;
            while i < n
                invariant
                    i <= n,
                    n == col.len,
                    keys.len() == n,
                    col.data is Dictionary,
                    *keys == col.data->Dictionary_keys,
                    *values == col.data->Dictionary_values,
                    col.nulls matches Some(v) ==> v.len() == n,
                    forall|k: int|
                        0 <= k < i && !is_null_at(*col, k) ==> #[trigger] keys@[k] < values.len,
                decreases n - i,
            {
                if !null_at(col, i) && keys[i] >= values.len {
                    return false;
                }
                i += 1;
            }
            is_well_formed(values)
        },
        ColumnData::RunEndEncoded { run_ends, values } => run_ends_ok(run_ends, n, values.len)
            && is_well_formed(values),
        ColumnData::Union { mode, type_ids, offsets, children } => {
            if type_ids.len() != n || !union_ids_ok(children) {
                return false;
            }
            let top = max_id(children);
            let mut i: usize = 0;
            while i < n
                invariant
                    i <= n,
                    type_ids.len() == n,
                    n == col.len,
                    col.data is Union,
                    *type_ids == col.data->Union_type_ids,
                    *children == col.data->Union_children,
                    top == max_type_id(children@, children.len() as int),
                    forall|k: int| 0 <= k < i ==> #[trigger] type_ids@[k] <= top,
                decreases n - i,
            {
                if type_ids[i] > top {
                    return false;
                }
                i += 1;
            }
            let mut j: usize = 0;
            while j < children.len()
                invariant
                    j <= children.len(),
                    col.data is Union,
                    *children == col.data->Union_children,
                    forall|k: int| 0 <= k < j ==> column_wf(#[trigger] children@[k].column),
                decreases children.len() - j,
            {
                if !is_well_formed(&children[j].column) {
                    return false;
                }
                j += 1;
            }
            match mode {
                UnionMode::Sparse => {
                    let mut j: usize = 0;
                    while j < children.len()
                        invariant
                            j <= children.len(),
                            n == col.len,
                            col.data is Union,
                            col.data->Union_mode is Sparse,
                            *children == col.data->Union_children,
                            forall|k: int|
                                0 <= k < j ==> col.len <= (#[trigger] children@[k]).column.len,
                        decreases children.len() - j,
                    {
                        if children[j].column.len < n {
                            assert(!(col.len <= children@[j as int].column.len));
                            return false;
                        }
                        j += 1;
                    }
                    true
                },
                UnionMode::Dense => {
                    if offsets.len() != n {
                        return false;
                    }
                    let mut i: usize = 0;
                    while i < n
                        invariant
                            i <= n,
                            type_ids.len() == n,
                            offsets.len() == n,
                            n == col.len,
                            col.data is Union,
                            col.data->Union_mode is Dense,
                            *type_ids == col.data->Union_type_ids,
                            *offsets == col.data->Union_offsets,
                            *children == col.data->Union_children,
                            forall|k: int|
                                0 <= k < i ==> match #[trigger] find_child(
                                    children@,
                                    type_ids@[k],
                                    children.len() as int,
                                ) {
                                    Some(c) => offsets@[k] < children@[c].column.len,
                                    None => true,
                                },
                        decreases n - i,
                    {
                        match child_position(children, type_ids[i]) {
                            Some(c) => {
                                proof {
                                    lemma_find_child(children@, type_ids@[i as int], children.len() as int);
                                }
                                if offsets[i] >= children[c].column.len {
                                    assert(find_child(children@, type_ids@[i as int], children.len() as int) == Some(c as int));
                                    return false;
                                }
                            },
                            None => {},
                        }
                        i += 1;
                    }
                    true
                },
            }
        },
        ColumnData::Unsupported { .. } => true,
    }
}

/// The child that `find_child` names lies among the first `n` and has the type id.
pub proof fn lemma_find_child(children: Seq<UnionChild>, id: u8, n: int)
    requires
        0 <= n <= children.len(),
    ensures
        find_child(children, id, n) matches Some(j) ==> 0 <= j < n && children[j].type_id == id,
    decreases n,
{
    if n > 0 && children[n - 1].type_id != id {
        lemma_find_child(children, id, n - 1);
    }
}

} // verus!
