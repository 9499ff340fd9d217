//! The raw-samples file of one benchmark: a header naming the columns, then
//! one row per measured sample, mapped to fields by header name and validated
//! field by field. Row order is meaningful and is preserved exactly.

use vstd::prelude::*;
use vstd::string::StrSliceExecFns;

use crate::decode;
use crate::text::check_float;
use crate::text::dec_val;
use crate::text::is_float_text;
use crate::text::is_usize_text;
use crate::text::parse_usize;
use crate::text::str_is;

verus! {

/// A named column of the raw-samples table.
#[derive(Debug, Clone, Copy, PartialEq, Eq, Structural)]
pub enum ColName {
    Group,
    Function,
    Value,
    ThroughputNum,
    ThroughputType,
    SampleMeasuredValue,
    Unit,
    IterationCount,
}

/// Why a raw-samples table was rejected. Row ordinals count data rows from 1,
/// in file order.
#[derive(Debug, Clone, Copy, PartialEq, Eq, Structural)]
pub enum RawError {
    /// The bytes are not a well-formed comma-separated table.
    Syntax,
    /// The header does not name a required column.
    MissingColumn(ColName),
    /// A row's field count differs from the header's.
    WrongFieldCount(usize),
    /// A required string field of a row is empty.
    EmptyField(usize, ColName),
    /// A field that must be a non-negative integer is not one.
    NotAnInteger(usize, ColName),
    /// The measured sample value is not a decimal number.
    NotANumber(usize),
}

/// Mathematical model of one sample row. The measured value is carried as
/// its validated decimal text: the library checks it and stores it, it never
/// computes with it.
#[verifier::ext_equal]
pub struct SampleData {
    pub group: Seq<char>,
    pub function: Seq<char>,
    pub value: Option<Seq<char>>,
    pub throughput_num: Option<usize>,
    pub throughput_type: Option<Seq<char>>,
    pub sample_measured_value: Seq<char>,
    pub unit: Seq<char>,
    pub iteration_count: usize,
}

/// One sample row as held at run time.
#[derive(Debug, PartialEq)]
pub struct CriterionRawLine {
    pub group: String,
    pub function: String,
    pub value: Option<String>,
    pub throughput_num: Option<usize>,
    pub throughput_type: Option<String>,
    pub sample_measured_value: String,
    pub unit: String,
    pub iteration_count: usize,
}

impl View for CriterionRawLine {
    type V = SampleData;

    open spec fn view(&self) -> SampleData {
        SampleData {
            group: self.group@,
            function: self.function@,
            value: match self.value {
                Option::Some(s) => Option::Some(s@),
                Option::None => Option::None,
            },
            throughput_num: self.throughput_num,
            throughput_type: match self.throughput_type {
                Option::Some(s) => Option::Some(s@),
                Option::None => Option::None,
            },
            sample_measured_value: self.sample_measured_value@,
            unit: self.unit@,
            iteration_count: self.iteration_count,
        }
    }
}

impl DeepView for CriterionRawLine {
    type V = SampleData;

    open spec fn deep_view(&self) -> SampleData {
        self.view()
    }
}

/// The ordered samples of one raw file.
#[derive(Debug, PartialEq)]
pub struct CriterionRaw(pub Vec<CriterionRawLine>);

impl View for CriterionRaw {
    type V = Seq<SampleData>;

    open spec fn view(&self) -> Seq<SampleData> {
        self.0.deep_view()
    }
}

/// The index of the first column named `name`, if any.
pub open spec fn col_of(h: Seq<Seq<char>>, name: Seq<char>) -> Option<int>
    decreases h,
{
    if h.len() == 0 {
        Option::None
    } else if h[0] == name {
        Option::Some(0)
    } else {
        match col_of(h.drop_first(), name) {
            Option::Some(i) => Option::Some(i + 1),
            Option::None => Option::None,
        }
    }
}

/// The first matching index is in range and matches; nothing before it does.
pub proof fn lemma_col_of_props(h: Seq<Seq<char>>, name: Seq<char>)
    ensures
        match col_of(h, name) {
            Option::Some(i) => 0 <= i < h.len() && h[i] == name && forall|j: int|
                0 <= j < i ==> h[j] != name,
            Option::None => forall|j: int| 0 <= j < h.len() ==> h[j] != name,
        },
    decreases h,
{
    if h.len() > 0 && h[0] != name {
        lemma_col_of_props(h.drop_first(), name);
        match col_of(h.drop_first(), name) {
            Option::Some(i) => {
                assert(h[i + 1] == h.drop_first()[i]);
                assert forall|j: int| 0 <= j < i + 1 implies h[j] != name by {
                    if j > 0 {
                        assert(h[j] == h.drop_first()[j - 1]);
                    }
                }
            },
            Option::None => {
                assert forall|j: int| 0 <= j < h.len() implies h[j] != name by {
                    if j > 0 {
                        assert(h[j] == h.drop_first()[j - 1]);
                    }
                }
            },
        }
    }
}

/// A first match at `k` decides the column lookup.
pub proof fn lemma_col_of_found(h: Seq<Seq<char>>, name: Seq<char>, k: int)
    requires
        0 <= k < h.len(),
        h[k] == name,
        forall|j: int| 0 <= j < k ==> h[j] != name,
    ensures
        col_of(h, name) == Option::Some(k),
    decreases k,
{
    if k > 0 {
        assert(forall|j: int| 0 <= j < k - 1 ==> #[trigger] h.drop_first()[j] == h[j + 1]);
        lemma_col_of_found(h.drop_first(), name, k - 1);
    }
}

/// With no match anywhere, the lookup is empty.
pub proof fn lemma_col_of_none(h: Seq<Seq<char>>, name: Seq<char>)
    requires
        forall|j: int| 0 <= j < h.len() ==> h[j] != name,
    ensures
        col_of(h, name) is None,
    decreases h,
{
    if h.len() > 0 {
        lemma_col_of_none(h.drop_first(), name);
    }
}

/// The index of the first column of `h` named `name`, if any.
fn find_col(h: &Vec<String>, name: &str) -> (r: Option<usize>)
    ensures
        match r {
            Option::Some(i) => i < h@.len() && col_of(h.deep_view(), name@) == Option::Some(
                i as int,
            ),
            Option::None => col_of(h.deep_view(), name@) is None,
        },
{
    let ghost hv = h.deep_view();
    let n = h.len();
    let mut i: usize = 0;
    while i < n
        invariant
            n == h@.len(),
            0 <= i <= n,
            hv == h.deep_view(),
            hv.len() == n,
            forall|j: int| 0 <= j < i ==> hv[j] != name@,
        decreases n - i,
    {
        if str_is(&h[i], name) {
            proof {
                lemma_col_of_found(hv, name@, i as int);
            }
            return Option::Some(i);
        }
        i += 1;
    }
    proof {
        lemma_col_of_none(hv, name@);
    }
    Option::None
}

/// The cell of row `r` under the first column named `name`, if the header
/// has one.
pub open spec fn cell(h: Seq<Seq<char>>, r: Seq<Seq<char>>, name: Seq<char>) -> Option<Seq<char>> {
    match col_of(h, name) {
        Option::Some(i) => Option::Some(r[i]),
        Option::None => Option::None,
    }
}

/// What reading one data row yields: the sample, or the first rejection in
/// field order. `group`, `function` and `unit` must be present and
/// non-empty; `value`, `throughput_num` and `throughput_type` are optional
/// with the empty cell standing for "no value"; the measured value must be
/// decimal-number text; the iteration count must fit in `usize`.
pub open spec fn parse_row(h: Seq<Seq<char>>, r: Seq<Seq<char>>, ord: usize) -> Result<
    SampleData,
    RawError,
> {
    if r.len() != h.len() {
        Result::Err(RawError::WrongFieldCount(ord))
    } else {
        let c_group = cell(h, r, "group"@);
        let c_function = cell(h, r, "function"@);
        let c_value = cell(h, r, "value"@);
        let c_tnum = cell(h, r, "throughput_num"@);
        let c_ttype = cell(h, r, "throughput_type"@);
        let c_smv = cell(h, r, "sample_measured_value"@);
        let c_unit = cell(h, r, "unit"@);
        let c_iters = cell(h, r, "iteration_count"@);
        if c_group is None {
            Result::Err(RawError::MissingColumn(ColName::Group))
        } else if c_group->0.len() == 0 {
            Result::Err(RawError::EmptyField(ord, ColName::Group))
        } else if c_function is None {
            Result::Err(RawError::MissingColumn(ColName::Function))
        } else if c_function->0.len() == 0 {
            Result::Err(RawError::EmptyField(ord, ColName::Function))
        } else if c_tnum matches Option::Some(t) && t.len() > 0 && !is_usize_text(t) {
            Result::Err(RawError::NotAnInteger(ord, ColName::ThroughputNum))
        } else if c_smv is None {
            Result::Err(RawError::MissingColumn(ColName::SampleMeasuredValue))
        } else if !is_float_text(c_smv->0) {
            Result::Err(RawError::NotANumber(ord))
        } else if c_unit is None {
            Result::Err(RawError::MissingColumn(ColName::Unit))
        } else if c_unit->0.len() == 0 {
            Result::Err(RawError::EmptyField(ord, ColName::Unit))
        } else if c_iters is None {
            Result::Err(RawError::MissingColumn(ColName::IterationCount))
        } else if !is_usize_text(c_iters->0) {
            Result::Err(RawError::NotAnInteger(ord, ColName::IterationCount))
        } else {
            Result::Ok(
                SampleData {
                    group: c_group->0,
                    function: c_function->0,
                    value: match c_value {
                        Option::Some(v) => if v.len() == 0 {
                            Option::None
                        } else {
                            Option::Some(v)
                        },
                        Option::None => Option::None,
                    },
                    throughput_num: match c_tnum {
                        Option::Some(t) => if t.len() == 0 {
                            Option::None
                        } else {
                            Option::Some(dec_val(t) as usize)
                        },
                        Option::None => Option::None,
                    },
                    throughput_type: match c_ttype {
                        Option::Some(t) => if t.len() == 0 {
                            Option::None
                        } else {
                            Option::Some(t)
                        },
                        Option::None => Option::None,
                    },
                    sample_measured_value: c_smv->0,
                    unit: c_unit->0,
                    iteration_count: dec_val(c_iters->0) as usize,
                },
            )
        }
    }
}

/// What reading the data rows from `rows` yields, the first row carrying
/// ordinal `ord`: the samples in row order, or the first rejection.
pub open spec fn parse_rows(h: Seq<Seq<char>>, rows: Seq<Seq<Seq<char>>>, ord: usize) -> Result<
    Seq<SampleData>,
    RawError,
>
    decreases rows,
{
    if rows.len() == 0 {
        Result::Ok(Seq::empty())
    } else {
        match parse_row(h, rows[0], ord) {
            Result::Err(e) => Result::Err(e),
            Result::Ok(s) => match parse_rows(h, rows.drop_first(), (ord + 1) as usize) {
                Result::Err(e) => Result::Err(e),
                Result::Ok(rest) => Result::Ok(seq![s] + rest),
            },
        }
    }
}

/// What reading a whole table yields. An empty table is an empty sample set;
/// otherwise the first row is the header, which must name every required
/// column, and the remaining rows are data.
pub open spec fn parse_table(t: Seq<Seq<Seq<char>>>) -> Result<Seq<SampleData>, RawError> {
    if t.len() == 0 {
        Result::Ok(Seq::empty())
    } else {
        let h = t[0];
        if col_of(h, "group"@) is None {
            Result::Err(RawError::MissingColumn(ColName::Group))
        } else if col_of(h, "function"@) is None {
            Result::Err(RawError::MissingColumn(ColName::Function))
        } else if col_of(h, "sample_measured_value"@) is None {
            Result::Err(RawError::MissingColumn(ColName::SampleMeasuredValue))
        } else if col_of(h, "unit"@) is None {
            Result::Err(RawError::MissingColumn(ColName::Unit))
        } else if col_of(h, "iteration_count"@) is None {
            Result::Err(RawError::MissingColumn(ColName::IterationCount))
        } else {
            parse_rows(h, t.drop_first(), 1)
        }
    }
}

/// What reading a raw-samples file out of the bytes `b` yields.
pub open spec fn parse_raw_bytes(b: Seq<u8>) -> Result<Seq<SampleData>, RawError> {
    match decode::csv_table(b) {
        Option::None => Result::Err(RawError::Syntax),
        Option::Some(t) => parse_table(t),
    }
}

/// The model of a line-parse result.
pub open spec fn line_result_data(r: Result<CriterionRawLine, RawError>) -> Result<
    SampleData,
    RawError,
> {
    match r {
        Result::Ok(l) => Result::Ok(l@),
        Result::Err(e) => Result::Err(e),
    }
}

/// The model of a table-parse result.
pub open spec fn raw_result_data(r: Result<CriterionRaw, RawError>) -> Result<
    Seq<SampleData>,
    RawError,
> {
    match r {
        Result::Ok(v) => Result::Ok(v@),
        Result::Err(e) => Result::Err(e),
    }
}

/// Reads one data row under the header `h`.
fn parse_line(h: &Vec<String>, row: &Vec<String>, ord: usize) -> (r: Result<
    CriterionRawLine,
    RawError,
>)
    ensures
        line_result_data(r) == parse_row(h.deep_view(), row.deep_view(), ord),
{
    if row.len() != h.len() {
        return Result::Err(RawError::WrongFieldCount(ord));
    }
    let gi = match find_col(h, "group") {
        Option::Some(i) => i,
        Option::None => {
            return Result::Err(RawError::MissingColumn(ColName::Group));
        },
    };
    let group = row[gi].clone();
    if group.as_str().unicode_len() == 0 {
        return Result::Err(RawError::EmptyField(ord, ColName::Group));
    }
    let fi = match find_col(h, "function") {
        Option::Some(i) => i,
        Option::None => {
            return Result::Err(RawError::MissingColumn(ColName::Function));
        },
    };
    let function = row[fi].clone();
    if function.as_str().unicode_len() == 0 {
        return Result::Err(RawError::EmptyField(ord, ColName::Function));
    }
    let throughput_num = match find_col(h, "throughput_num") {
        Option::Some(i) => {
            if row[i].as_str().unicode_len() == 0 {
                Option::None
            } else {
                match parse_usize(row[i].as_str()) {
                    Option::Some(v) => Option::Some(v),
                    Option::None => {
                        return Result::Err(RawError::NotAnInteger(ord, ColName::ThroughputNum));
                    },
                }
            }
        },
        Option::None => Option::None,
    };
    let si = match find_col(h, "sample_measured_value") {
        Option::Some(i) => i,
        Option::None => {
            return Result::Err(RawError::MissingColumn(ColName::SampleMeasuredValue));
        },
    };
    if !check_float(row[si].as_str()) {
        return Result::Err(RawError::NotANumber(ord));
    }
    let sample_measured_value = row[si].clone();
    let ui = match find_col(h, "unit") {
        Option::Some(i) => i,
        Option::None => {
            return Result::Err(RawError::MissingColumn(ColName::Unit));
        },
    };
    let unit = row[ui].clone();
    if unit.as_str().unicode_len() == 0 {
        return Result::Err(RawError::EmptyField(ord, ColName::Unit));
    }
    let ii = match find_col(h, "iteration_count") {
        Option::Some(i) => i,
        Option::None => {
            return Result::Err(RawError::MissingColumn(ColName::IterationCount));
        },
    };
    let iteration_count = match parse_usize(row[ii].as_str()) {
        Option::Some(v) => v,
        Option::None => {
            return Result::Err(RawError::NotAnInteger(ord, ColName::IterationCount));
        },
    };
    let value = match find_col(h, "value") {
        Option::Some(i) => {
            if row[i].as_str().unicode_len() == 0 {
                Option::None
            } else {
                Option::Some(row[i].clone())
            }
        },
        Option::None => Option::None,
    };
    let throughput_type = match find_col(h, "throughput_type") {
        Option::Some(i) => {
            if row[i].as_str().unicode_len() == 0 {
                Option::None
            } else {
                Option::Some(row[i].clone())
            }
        },
        Option::None => Option::None,
    };
    let line = CriterionRawLine {
        group,
        function,
        value,
        throughput_num,
        throughput_type,
        sample_measured_value,
        unit,
        iteration_count,
    };
    proof {
        assert(line@ =~= parse_row(h.deep_view(), row.deep_view(), ord)->Ok_0);
    }
    Result::Ok(line)
}

/// Composing the samples read so far with what the remaining rows yield.
pub open spec fn rows_after(
    h: Seq<Seq<char>>,
    rows: Seq<Seq<Seq<char>>>,
    ord: usize,
    prefix: Seq<SampleData>,
) -> Result<Seq<SampleData>, RawError> {
    match parse_rows(h, rows, ord) {
        Result::Ok(rest) => Result::Ok(prefix + rest),
        Result::Err(e) => Result::Err(e),
    }
}

impl CriterionRaw {
    /// Reads a whole table of already-split rows, the first row being the
    /// header.
    pub fn from_rows(rows: &Vec<Vec<String>>) -> (r: Result<CriterionRaw, RawError>)
        ensures
            raw_result_data(r) == parse_table(rows.deep_view()),
    {
        let ghost tv = rows.deep_view();
        if rows.len() == 0 {
            let empty = CriterionRaw(Vec::new());
            proof {
                assert(empty@ =~= Seq::<SampleData>::empty());
            }
            return Result::Ok(empty);
        }
        let h = &rows[0];
        let ghost hv = tv[0];
        proof {
            assert(h.deep_view() == tv[0]);
        }
        if find_col(h, "group").is_none() {
            return Result::Err(RawError::MissingColumn(ColName::Group));
        }
        if find_col(h, "function").is_none() {
            return Result::Err(RawError::MissingColumn(ColName::Function));
        }
        if find_col(h, "sample_measured_value").is_none() {
            return Result::Err(RawError::MissingColumn(ColName::SampleMeasuredValue));
        }
        if find_col(h, "unit").is_none() {
            return Result::Err(RawError::MissingColumn(ColName::Unit));
        }
        if find_col(h, "iteration_count").is_none() {
            return Result::Err(RawError::MissingColumn(ColName::IterationCount));
        }
        let mut out: Vec<CriterionRawLine> = Vec::new();
        let mut i: usize = 1;
        proof {
            assert(tv.skip(1) =~= tv.drop_first());
            assert(out.deep_view() =~= Seq::<SampleData>::empty());
            assert(Seq::<SampleData>::empty() + parse_rows(hv, tv.skip(1), 1)->Ok_0 =~= parse_rows(
                hv,
                tv.skip(1),
                1,
            )->Ok_0);
        }
        while i < rows.len()
            invariant
                1 <= i <= rows@.len(),
                tv == rows.deep_view(),
                tv.len() == rows@.len(),
                hv == tv[0],
                h.deep_view() == hv,
                parse_table(tv) == parse_rows(hv, tv.skip(1), 1),
                rows_after(hv, tv.skip(i as int), i, out.deep_view()) == parse_rows(
                    hv,
                    tv.skip(1),
                    1,
                ),
            decreases rows@.len() - i,
        {
            let line = match parse_line(h, &rows[i], i) {
                Result::Ok(l) => l,
                Result::Err(e) => {
                    proof {
                        assert(tv.skip(i as int)[0] == tv[i as int]);
                    }
                    return Result::Err(e);
                },
            };
            let ghost pre = out.deep_view();
            proof {
                assert(tv.skip(i as int)[0] == tv[i as int]);
                assert(rows@[i as int].deep_view() == tv[i as int]);
                assert(parse_row(hv, tv.skip(i as int)[0], i) == Result::Ok::<
                    SampleData,
                    RawError,
                >(line@));
                assert(tv.skip(i as int).drop_first() =~= tv.skip(i as int + 1));
            }
            out.push(line);
            i += 1;
            proof {
                assert(out.deep_view() =~= pre + seq![line@]);
                let rows_left = parse_rows(hv, tv.skip(i as int), i);
                if rows_left is Ok {
                    assert((pre + seq![line@]) + rows_left->Ok_0 =~= pre + (seq![line@]
                        + rows_left->Ok_0));
                }
                assert(rows_after(hv, tv.skip(i as int), i, out.deep_view()) == parse_rows(
                    hv,
                    tv.skip(1),
                    1,
                ));
            }
        }
        proof {
            assert(tv.skip(i as int) =~= Seq::<Seq<Seq<char>>>::empty());
            assert(out.deep_view() + Seq::<SampleData>::empty() =~= out.deep_view());
        }
        let raw = CriterionRaw(out);
        Result::Ok(raw)
    }

    /// Reads a raw-samples file out of table bytes.
    pub fn from_bytes(b: &[u8]) -> (r: Result<CriterionRaw, RawError>)
        ensures
            raw_result_data(r) == parse_raw_bytes(b@),
    {
        match decode::read_table(b) {
            Option::Some(rows) => CriterionRaw::from_rows(&rows),
            Option::None => Result::Err(RawError::Syntax),
        }
    }
}

/// `t2` is `t1` with its columns reordered by `p`: cell `j` of any row of
/// `t2` is cell `p[j]` of the same row of `t1`, `p` ranges over all columns
/// exactly once, and the header names its columns uniquely.
pub open spec fn permuted_table(t1: Seq<Seq<Seq<char>>>, t2: Seq<Seq<Seq<char>>>, p: Seq<
    int,
>) -> bool {
    &&& t1.len() >= 1
    &&& t2.len() == t1.len()
    &&& p.len() == t1[0].len()
    &&& forall|j: int| 0 <= j < p.len() ==> 0 <= #[trigger] p[j] < p.len()
    &&& forall|i: int|
        #![trigger p[i]]
        0 <= i < p.len() ==> exists|j: int| 0 <= j < p.len() && #[trigger] p[j] == i
    &&& forall|j1: int, j2: int|
        0 <= j1 < t1[0].len() && 0 <= j2 < t1[0].len() && j1 != j2 ==> #[trigger] t1[0][j1]
            != #[trigger] t1[0][j2]
    &&& forall|i: int| 0 <= i < t1.len() ==> (#[trigger] t1[i]).len() == t1[0].len()
    &&& forall|i: int| 0 <= i < t2.len() ==> (#[trigger] t2[i]).len() == t1[0].len()
    &&& forall|i: int, j: int| 0 <= i < t1.len() && 0 <= j < p.len() ==> #[trigger] t2[i][j]
        == t1[i][p[j]]
}

/// Under a column reordering, a name is found in the new header exactly when
/// it is found in the old one, and the found column carries over through `p`.
proof fn lemma_col_permuted(
    t1: Seq<Seq<Seq<char>>>,
    t2: Seq<Seq<Seq<char>>>,
    p: Seq<int>,
    c: Seq<char>,
)
    requires
        permuted_table(t1, t2, p),
    ensures
        match col_of(t1[0], c) {
            Option::None => col_of(t2[0], c) is None,
            Option::Some(i1) => col_of(t2[0], c) matches Option::Some(j2) && 0 <= j2
                < p.len() && p[j2] == i1,
        },
{
    lemma_col_of_props(t1[0], c);
    lemma_col_of_props(t2[0], c);
    match col_of(t1[0], c) {
        Option::None => {
            match col_of(t2[0], c) {
                Option::Some(j2) => {
                    assert(t2[0][j2] == t1[0][p[j2]]);
                    assert(false);
                },
                Option::None => {},
            }
        },
        Option::Some(i1) => {
            assert(0 <= p[i1] < p.len());
            let j0 = choose|j: int| 0 <= j < p.len() && p[j] == i1;
            assert(t2[0][j0] == t1[0][i1]);
            match col_of(t2[0], c) {
                Option::None => {
                    assert(t2[0][j0] == c);
                    assert(false);
                },
                Option::Some(j2) => {
                    assert(t2[0][j2] == t1[0][p[j2]]);
                    if p[j2] != i1 {
                        assert(t1[0][p[j2]] != t1[0][i1]);
                        assert(false);
                    }
                },
            }
        },
    }
}

/// Under a column reordering, every cell lookup of a row carries over.
proof fn lemma_cell_permuted(
    t1: Seq<Seq<Seq<char>>>,
    t2: Seq<Seq<Seq<char>>>,
    p: Seq<int>,
    i: int,
    c: Seq<char>,
)
    requires
        permuted_table(t1, t2, p),
        0 <= i < t1.len(),
    ensures
        cell(t2[0], t2[i], c) == cell(t1[0], t1[i], c),
{
    lemma_col_permuted(t1, t2, p, c);
    match col_of(t1[0], c) {
        Option::None => {},
        Option::Some(i1) => {
            lemma_col_of_props(t1[0], c);
            let j2 = col_of(t2[0], c)->0;
            assert(t2[i][j2] == t1[i][p[j2]]);
        },
    }
}

/// Under a column reordering, one data row parses to the same result.
proof fn lemma_row_permuted(t1: Seq<Seq<Seq<char>>>, t2: Seq<Seq<Seq<char>>>, p: Seq<int>, i: int)
    requires
        permuted_table(t1, t2, p),
        0 <= i < t1.len(),
    ensures
        parse_row(t2[0], t2[i], i as usize) == parse_row(t1[0], t1[i], i as usize),
{
    lemma_cell_permuted(t1, t2, p, i, "group"@);
    lemma_cell_permuted(t1, t2, p, i, "function"@);
    lemma_cell_permuted(t1, t2, p, i, "value"@);
    lemma_cell_permuted(t1, t2, p, i, "throughput_num"@);
    lemma_cell_permuted(t1, t2, p, i, "throughput_type"@);
    lemma_cell_permuted(t1, t2, p, i, "sample_measured_value"@);
    lemma_cell_permuted(t1, t2, p, i, "unit"@);
    lemma_cell_permuted(t1, t2, p, i, "iteration_count"@);
    assert(t1[i].len() == t1[0].len());
    assert(t2[i].len() == t2[0].len());
}

/// Under a column reordering, the data rows from `k` on parse to the same
/// result.
proof fn lemma_rows_permuted(t1: Seq<Seq<Seq<char>>>, t2: Seq<Seq<Seq<char>>>, p: Seq<int>, k: int)
    requires
        permuted_table(t1, t2, p),
        t1.len() <= usize::MAX,
        1 <= k <= t1.len(),
    ensures
        parse_rows(t2[0], t2.skip(k), k as usize) == parse_rows(t1[0], t1.skip(k), k as usize),
    decreases t1.len() - k,
{
    if k == t1.len() {
        assert(t1.skip(k) =~= Seq::<Seq<Seq<char>>>::empty());
        assert(t2.skip(k) =~= Seq::<Seq<Seq<char>>>::empty());
    } else {
        lemma_row_permuted(t1, t2, p, k);
        lemma_rows_permuted(t1, t2, p, k + 1);
        assert(t1.skip(k)[0] == t1[k]);
        assert(t2.skip(k)[0] == t2[k]);
        assert(t1.skip(k).drop_first() =~= t1.skip(k + 1));
        assert(t2.skip(k).drop_first() =~= t2.skip(k + 1));
    }
}

/// Reordering the header's columns, with every row's cells reordered the
/// same way, leaves the parse result unchanged: the mapping from columns to
/// fields goes by header name, not by position.
pub proof fn lemma_column_order_irrelevant(
    t1: Seq<Seq<Seq<char>>>,
    t2: Seq<Seq<Seq<char>>>,
    p: Seq<int>,
)
    requires
        permuted_table(t1, t2, p),
        t1.len() <= usize::MAX,
    ensures
        parse_table(t2) == parse_table(t1),
{
    lemma_col_permuted(t1, t2, p, "group"@);
    lemma_col_permuted(t1, t2, p, "function"@);
    lemma_col_permuted(t1, t2, p, "sample_measured_value"@);
    lemma_col_permuted(t1, t2, p, "unit"@);
    lemma_col_permuted(t1, t2, p, "iteration_count"@);
    lemma_rows_permuted(t1, t2, p, 1);
    assert(t1.drop_first() =~= t1.skip(1));
    assert(t2.drop_first() =~= t2.skip(1));
}

/// A successful parse yields exactly one sample per data row: the header is
/// the only line not counted.
pub proof fn lemma_sample_count(t: Seq<Seq<Seq<char>>>)
    ensures
        parse_table(t) matches Result::Ok(s) ==> s.len() == if t.len() == 0 {
            0int
        } else {
            t.len() - 1
        },
{
    if t.len() > 0 {
        lemma_rows_count(t[0], t.drop_first(), 1);
    }
}

/// Row counting for the data part.
proof fn lemma_rows_count(h: Seq<Seq<char>>, rows: Seq<Seq<Seq<char>>>, ord: usize)
    ensures
        parse_rows(h, rows, ord) matches Result::Ok(s) ==> s.len() == rows.len(),
    decreases rows,
{
    if rows.len() > 0 {
        lemma_rows_count(h, rows.drop_first(), (ord + 1) as usize);
    }
}

} // verus!
