//! Layout of the results CSV that ViSQOL writes: a header row of column names
//! and a row of values. The numbers themselves are read by the caller; this
//! module finds which cell holds what.

use vstd::prelude::*;
use crate::text::{starts_with, starts_with_chars, trim, split_on, text_lines, char_rows, trim_chars, split_chars, first_two_lines, chars_of, equal_chars, lemma_char_rows_push};

verus! {

/// The per-band metrics that the results CSV holds, one column per band.
#[derive(Debug, Clone, Copy)]
pub enum BandMetric {
    /// Mean similarity of a band (`fvnsim<band>`).
    Fvnsim,
    /// Tenth percentile similarity of a band (`fvnsim10_<band>`).
    Fvnsim10,
    /// Standard deviation of the similarity of a band (`fstdnsim*`).
    Fstdnsim,
    /// Degraded energy of a band (`fvdegenergy*`).
    Fvdegenergy,
}

pub open spec fn fvnsim_name() -> Seq<char> {
    seq!['f', 'v', 'n', 's', 'i', 'm']
}

pub open spec fn fvnsim10_name() -> Seq<char> {
    seq!['f', 'v', 'n', 's', 'i', 'm', '1', '0', '_']
}

pub open spec fn fstdnsim_name() -> Seq<char> {
    seq!['f', 's', 't', 'd', 'n', 's', 'i', 'm']
}

pub open spec fn fvdegenergy_name() -> Seq<char> {
    seq!['f', 'v', 'd', 'e', 'g', 'e', 'n', 'e', 'r', 'g', 'y']
}

pub open spec fn moslqo_name() -> Seq<char> {
    seq!['m', 'o', 's', 'l', 'q', 'o']
}

/// `c` is one of the digits `0` to `9`.
pub open spec fn is_digit(c: char) -> bool {
    '0' <= c <= '9'
}

/// `s` is a band number: one or more digits and nothing else.
pub open spec fn is_band_number(s: Seq<char>) -> bool {
    s.len() > 0 && forall|i: int| 0 <= i < s.len() ==> is_digit(#[trigger] s[i])
}

/// `h` is `prefix` followed by a band number.
pub open spec fn names_band(h: Seq<char>, prefix: Seq<char>) -> bool {
    starts_with(h, prefix) && is_band_number(h.skip(prefix.len() as int))
}

/// Which band metric a (trimmed) column name announces: `fvnsim<band>` is the
/// mean similarity of a band (band 10 included), `fvnsim10_<band>` its tenth
/// percentile; names beginning with `fstdnsim` or `fvdegenergy` are the
/// standard deviation and the degraded energy of a band.
pub open spec fn classify_header(h: Seq<char>) -> Option<BandMetric> {
    if names_band(h, fvnsim_name()) {
        Some(BandMetric::Fvnsim)
    } else if names_band(h, fvnsim10_name()) {
        Some(BandMetric::Fvnsim10)
    } else if starts_with(h, fstdnsim_name()) {
        Some(BandMetric::Fstdnsim)
    } else if starts_with(h, fvdegenergy_name()) {
        Some(BandMetric::Fvdegenergy)
    } else {
        None
    }
}

/// The trimmed value cells, in column order, of the first `n` columns whose
/// trimmed name announces `metric` and that have a cell in the values row.
pub open spec fn metric_cells(
    header: Seq<Seq<char>>,
    values: Seq<Seq<char>>,
    metric: BandMetric,
    n: int,
) -> Seq<Seq<char>>
    decreases n,
{
    if n <= 0 {
        seq![]
    } else {
        let prev = metric_cells(header, values, metric, n - 1);
        let i = n - 1;
        if i < values.len() && classify_header(trim(header[i])) == Some(metric) {
            prev.push(trim(values[i]))
        } else {
            prev
        }
    }
}

/// Column `c` holds a value of `metric`: its trimmed name announces `metric`
/// and the values row has a cell under it.
pub open spec fn column_holds(
    header: Seq<Seq<char>>,
    values: Seq<Seq<char>>,
    metric: BandMetric,
    c: int,
) -> bool {
    0 <= c < header.len() && c < values.len() && classify_header(trim(header[c])) == Some(metric)
}

/// `columns` lists, in increasing order, exactly the columns below `n` that
/// hold a value of `metric`, and `cells[j]` is the trimmed value under
/// `columns[j]`.
pub open spec fn lists_columns(
    columns: Seq<int>,
    cells: Seq<Seq<char>>,
    header: Seq<Seq<char>>,
    values: Seq<Seq<char>>,
    metric: BandMetric,
    n: int,
) -> bool {
    &&& columns.len() == cells.len()
    &&& forall|j: int|
        0 <= j < columns.len() ==> 0 <= #[trigger] columns[j] < n && column_holds(
            header,
            values,
            metric,
            columns[j],
        ) && cells[j] == trim(values[columns[j]])
    &&& forall|j: int, k: int| 0 <= j < k < columns.len() ==> columns[j] < columns[k]
    &&& forall|c: int|
        0 <= c < n && #[trigger] column_holds(header, values, metric, c) ==> exists|j: int|
            0 <= j < columns.len() && columns[j] == c
}

/// `cells` holds one trimmed value per column below `n` that holds a value of
/// `metric`, in column order.
pub open spec fn cells_in_column_order(
    cells: Seq<Seq<char>>,
    header: Seq<Seq<char>>,
    values: Seq<Seq<char>>,
    metric: BandMetric,
    n: int,
) -> bool {
    exists|columns: Seq<int>| #[trigger] lists_columns(columns, cells, header, values, metric, n)
}

/// The cells collected for a metric are one per matching column, each the
/// trimmed value under its column, in column order: none is dropped,
/// overwritten or reordered.
pub proof fn lemma_metric_cells_in_column_order(
    header: Seq<Seq<char>>,
    values: Seq<Seq<char>>,
    metric: BandMetric,
    n: int,
)
    requires
        0 <= n <= header.len(),
    ensures
        cells_in_column_order(metric_cells(header, values, metric, n), header, values, metric, n),
    decreases n,
{
    if n == 0 {
        let columns = Seq::<int>::empty();
        assert(lists_columns(columns, metric_cells(header, values, metric, n), header, values, metric, n));
    } else {
        lemma_metric_cells_in_column_order(header, values, metric, n - 1);
        let prev = metric_cells(header, values, metric, n - 1);
        let pc = choose|columns: Seq<int>|
            #[trigger] lists_columns(columns, prev, header, values, metric, n - 1);
        let cells = metric_cells(header, values, metric, n);
        if column_holds(header, values, metric, n - 1) {
            let columns = pc.push(n - 1);
            assert(cells == prev.push(trim(values[n - 1])));
            assert forall|c: int|
                0 <= c < n && #[trigger] column_holds(header, values, metric, c) implies exists|j: int|
                0 <= j < columns.len() && columns[j] == c by {
                if c == n - 1 {
                    assert(columns[columns.len() - 1] == c);
                } else {
                    let j = choose|j: int| 0 <= j < pc.len() && pc[j] == c;
                    assert(columns[j] == c);
                }
            }
            assert(lists_columns(columns, cells, header, values, metric, n));
        } else {
            assert(cells == prev);
            assert forall|c: int|
                0 <= c < n && #[trigger] column_holds(header, values, metric, c) implies exists|j: int|
                0 <= j < pc.len() && pc[j] == c by {
                assert(c != n - 1);
            }
            assert(lists_columns(pc, cells, header, values, metric, n));
        }
    }
}

/// Column `i` is named `moslqo` (after trimming).
pub open spec fn is_moslqo_column(header: Seq<Seq<char>>, i: int) -> bool {
    trim(header[i]) == moslqo_name()
}

/// The header row of a results file: its first line split at commas.
pub open spec fn header_cells(content: Seq<char>) -> Seq<Seq<char>> {
    split_on(text_lines(content)[0], ',')
}

/// The values row of a results file: its second line split at commas.
pub open spec fn value_cells(content: Seq<char>) -> Seq<Seq<char>> {
    split_on(text_lines(content)[1], ',')
}

/// What the results CSV holds, cell by cell.
#[derive(Debug)]
pub struct VisqolCsvFields {
    /// The header row, split at commas, untrimmed.
    pub header: Vec<Vec<char>>,
    /// The values row, split at commas, untrimmed.
    pub values: Vec<Vec<char>>,
    /// The first column whose trimmed name is `moslqo`.
    pub moslqo_column: usize,
    /// The trimmed value under `moslqo_column`; `None` when the values row is
    /// too short to have one.
    pub moslqo: Option<Vec<char>>,
    /// The trimmed value cells of the `fvnsim<band>` columns, in column order.
    pub fvnsim: Vec<Vec<char>>,
    /// The trimmed value cells of the `fvnsim10_<band>` columns, in column order.
    pub fvnsim10: Vec<Vec<char>>,
    /// The trimmed value cells of the `fstdnsim` columns, in column order.
    pub fstdnsim: Vec<Vec<char>>,
    /// The trimmed value cells of the `fvdegenergy` columns, in column order.
    pub fvdegenergy: Vec<Vec<char>>,
}

/// Why a results file cannot be read.
#[derive(Debug)]
pub enum CsvLayoutError {
    /// The file has fewer than two lines.
    TooFewLines,
    /// No column is named `moslqo`; the header row, split at commas, is given.
    NoMoslqoColumn { header: Vec<Vec<char>> },
}

fn name_vec(which: u8) -> (r: Vec<char>)
    ensures
        which == 0 ==> r@ == fvnsim_name(),
        which == 1 ==> r@ == fvnsim10_name(),
        which == 2 ==> r@ == fstdnsim_name(),
        which == 3 ==> r@ == fvdegenergy_name(),
        which >= 4 ==> r@ == moslqo_name(),
{
    let r = if which == 0 {
        vec!['f', 'v', 'n', 's', 'i', 'm']
    } else if which == 1 {
        vec!['f', 'v', 'n', 's', 'i', 'm', '1', '0', '_']
    } else if which == 2 {
        vec!['f', 's', 't', 'd', 'n', 's', 'i', 'm']
    } else if which == 3 {
        vec!['f', 'v', 'd', 'e', 'g', 'e', 'n', 'e', 'r', 'g', 'y']
    } else {
        vec!['m', 'o', 's', 'l', 'q', 'o']
    };
    assert(which == 0 ==> r@ =~= fvnsim_name());
    assert(which == 1 ==> r@ =~= fvnsim10_name());
    assert(which == 2 ==> r@ =~= fstdnsim_name());
    assert(which == 3 ==> r@ =~= fvdegenergy_name());
    assert(which >= 4 ==> r@ =~= moslqo_name());
    r
}

/// `s` from `from` on is a band number.
fn band_number_from(s: &Vec<char>, from: usize) -> (r: bool)
    requires
        from <= s.len(),
    ensures
        r == is_band_number(s@.skip(from as int)),
{
    if from == s.len() {
        return false;
    }
    let mut i = from;
    while i < s.len()
        invariant
            from <= i <= s.len(),
            forall|k: int| from <= k < i ==> is_digit(s@[k]),
        decreases s.len() - i,
    {
        if !('0' <= s[i] && s[i] <= '9') {
            assert(s@.skip(from as int)[i - from] == s@[i as int]);
            return false;
        }
        i = i + 1;
    }
    assert forall|k: int| 0 <= k < s@.skip(from as int).len() implies is_digit(
        #[trigger] s@.skip(from as int)[k],
    ) by {
        assert(s@.skip(from as int)[k] == s@[k + from]);
    }
    true
}

/// `h` is `prefix` followed by a band number.
fn names_band_cell(h: &Vec<char>, prefix: &Vec<char>) -> (r: bool)
    ensures
        r == names_band(h@, prefix@),
{
    starts_with_chars(h, prefix) && band_number_from(h, prefix.len())
}

/// Which band metric a trimmed column name announces.
pub fn classify_header_cell(h: &Vec<char>) -> (r: Option<BandMetric>)
    ensures
        r == classify_header(h@),
{
    if names_band_cell(h, &name_vec(0)) {
        Some(BandMetric::Fvnsim)
    } else if names_band_cell(h, &name_vec(1)) {
        Some(BandMetric::Fvnsim10)
    } else if starts_with_chars(h, &name_vec(2)) {
        Some(BandMetric::Fstdnsim)
    } else if starts_with_chars(h, &name_vec(3)) {
        Some(BandMetric::Fvdegenergy)
    } else {
        None
    }
}


/// Reads the layout of a ViSQOL results file: the header row and the values
/// row, the `moslqo` column, and the value cells of each per-band metric.
pub fn parse_visqol_csv(content: &str) -> (r: Result<VisqolCsvFields, CsvLayoutError>)
    ensures
        text_lines(content@).len() < 2 <==> r matches Err(CsvLayoutError::TooFewLines),
        text_lines(content@).len() >= 2 ==> {
            let header = header_cells(content@);
            let values = value_cells(content@);
            &&& (r is Ok <==> exists|i: int|
                0 <= i < header.len() && #[trigger] is_moslqo_column(header, i))
            &&& (r matches Err(CsvLayoutError::NoMoslqoColumn { header: h }) ==> char_rows(h@)
                == header)
            &&& (r matches Ok(f) ==> {
                &&& char_rows(f.header@) == header
                &&& char_rows(f.values@) == values
                &&& f.moslqo_column < header.len()
                &&& is_moslqo_column(header, f.moslqo_column as int)
                &&& (forall|j: int|
                    0 <= j < f.moslqo_column ==> !#[trigger] is_moslqo_column(header, j))
                &&& (f.moslqo_column < values.len() ==> (f.moslqo matches Some(m) && m@
                    == trim(values[f.moslqo_column as int])))
                &&& (f.moslqo_column >= values.len() ==> f.moslqo is None)
                &&& char_rows(f.fvnsim@) == metric_cells(
                    header,
                    values,
                    BandMetric::Fvnsim,
                    header.len() as int,
                )
                &&& cells_in_column_order(
                    char_rows(f.fvnsim@),
                    header,
                    values,
                    BandMetric::Fvnsim,
                    header.len() as int,
                )
                &&& char_rows(f.fvnsim10@) == metric_cells(
                    header,
                    values,
                    BandMetric::Fvnsim10,
                    header.len() as int,
                )
                &&& cells_in_column_order(
                    char_rows(f.fvnsim10@),
                    header,
                    values,
                    BandMetric::Fvnsim10,
                    header.len() as int,
                )
                &&& char_rows(f.fstdnsim@) == metric_cells(
                    header,
                    values,
                    BandMetric::Fstdnsim,
                    header.len() as int,
                )
                &&& cells_in_column_order(
                    char_rows(f.fstdnsim@),
                    header,
                    values,
                    BandMetric::Fstdnsim,
                    header.len() as int,
                )
                &&& char_rows(f.fvdegenergy@) == metric_cells(
                    header,
                    values,
                    BandMetric::Fvdegenergy,
                    header.len() as int,
                )
                &&& cells_in_column_order(
                    char_rows(f.fvdegenergy@),
                    header,
                    values,
                    BandMetric::Fvdegenergy,
                    header.len() as int,
                )
            })
        },
{
    let text = chars_of(content);
    let (first, second) = match first_two_lines(&text) {
        Some(lines) => lines,
        None => {
            return Err(CsvLayoutError::TooFewLines);
        },
    };
    let header = split_chars(&first, ',');
    let values = split_chars(&second, ',');
    let ghost hrows = char_rows(header@);
    let ghost vrows = char_rows(values@);
    let moslqo_text = name_vec(5);

    let mut col: usize = 0;
    let mut found = false;
    while col < header.len() && !found
        invariant
            hrows == char_rows(header@),
            moslqo_text@ == moslqo_name(),
            col <= header.len(),
            found ==> col < header.len() && is_moslqo_column(hrows, col as int),
            forall|j: int| 0 <= j < col ==> !#[trigger] is_moslqo_column(hrows, j),
        decreases header.len() - col, if found { 0int } else { 1int },
    {
        let t = trim_chars(&header[col]);
        if equal_chars(&t, &moslqo_text) {
            found = true;
        } else {
            col = col + 1;
        }
    }
    if !found {
        return Err(CsvLayoutError::NoMoslqoColumn { header });
    }
    let moslqo = if col < values.len() {
        Some(trim_chars(&values[col]))
    } else {
        None
    };

    let mut fvnsim: Vec<Vec<char>> = Vec::new();
    let mut fvnsim10: Vec<Vec<char>> = Vec::new();
    let mut fstdnsim: Vec<Vec<char>> = Vec::new();
    let mut fvdegenergy: Vec<Vec<char>> = Vec::new();
    let mut i: usize = 0;
    proof {
        assert(char_rows(fvnsim@) =~= Seq::<Seq<char>>::empty());
    }
    while i < header.len()
        invariant
            hrows == char_rows(header@),
            vrows == char_rows(values@),
            i <= header.len(),
            char_rows(fvnsim@) == metric_cells(hrows, vrows, BandMetric::Fvnsim, i as int),
            char_rows(fvnsim10@) == metric_cells(hrows, vrows, BandMetric::Fvnsim10, i as int),
            char_rows(fstdnsim@) == metric_cells(hrows, vrows, BandMetric::Fstdnsim, i as int),
            char_rows(fvdegenergy@) == metric_cells(
                hrows,
                vrows,
                BandMetric::Fvdegenergy,
                i as int,
            ),
        decreases header.len() - i,
    {
        if i < values.len() {
            let name = trim_chars(&header[i]);
            let kind = classify_header_cell(&name);
            match kind {
                Some(BandMetric::Fvnsim) => {
                    let cell = trim_chars(&values[i]);
                    proof {
                        lemma_char_rows_push(fvnsim@, cell);
                    }
                    fvnsim.push(cell);
                },
                Some(BandMetric::Fvnsim10) => {
                    let cell = trim_chars(&values[i]);
                    proof {
                        lemma_char_rows_push(fvnsim10@, cell);
                    }
                    fvnsim10.push(cell);
                },
                Some(BandMetric::Fstdnsim) => {
                    let cell = trim_chars(&values[i]);
                    proof {
                        lemma_char_rows_push(fstdnsim@, cell);
                    }
                    fstdnsim.push(cell);
                },
                Some(BandMetric::Fvdegenergy) => {
                    let cell = trim_chars(&values[i]);
                    proof {
                        lemma_char_rows_push(fvdegenergy@, cell);
                    }
                    fvdegenergy.push(cell);
                },
                None => {},
            }
        }
        i = i + 1;
    }
    proof {
        let n = hrows.len() as int;
        lemma_metric_cells_in_column_order(hrows, vrows, BandMetric::Fvnsim, n);
        lemma_metric_cells_in_column_order(hrows, vrows, BandMetric::Fvnsim10, n);
        lemma_metric_cells_in_column_order(hrows, vrows, BandMetric::Fstdnsim, n);
        lemma_metric_cells_in_column_order(hrows, vrows, BandMetric::Fvdegenergy, n);
    }
    Ok(VisqolCsvFields {
        header,
        values,
        moslqo_column: col,
        moslqo,
        fvnsim,
        fvnsim10,
        fstdnsim,
        fvdegenergy,
    })
}

} // verus!
