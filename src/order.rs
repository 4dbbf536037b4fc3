//! Turning a parts list into one cart request per distinct part, with the
//! quantities of repeated rows summed.

use vstd::prelude::*;
use crate::text::{opt_view, strings_view, trim, trim_of};

verus! {

/// The identity of a part: every field of a request but its quantity.
pub struct PartKey {
    pub id: Seq<char>,
    pub sku: Seq<char>,
    pub qualifier_a: Seq<char>,
    pub qualifier_b: Seq<char>,
    pub qualifier_c: Seq<char>,
    pub length: Option<Seq<char>>,
    pub width: Option<Seq<char>>,
}

/// One distinct part to put in the cart, with how many rows asked for it.
#[derive(Debug, Clone)]
pub struct PartRequest {
    pub id: String,
    pub sku: String,
    pub qualifier_a: String,
    pub qualifier_b: String,
    pub qualifier_c: String,
    pub length: Option<String>,
    pub width: Option<String>,
    pub quantity: usize,
}

impl PartRequest {
    pub open spec fn key(&self) -> PartKey {
        PartKey {
            id: self.id@,
            sku: self.sku@,
            qualifier_a: self.qualifier_a@,
            qualifier_b: self.qualifier_b@,
            qualifier_c: self.qualifier_c@,
            length: opt_view(self.length),
            width: opt_view(self.width),
        }
    }

    /// The part and its quantity, as plain values.
    pub open spec fn entry(&self) -> (PartKey, nat) {
        (self.key(), self.quantity as nat)
    }

    /// Copies the request with another quantity.
    pub fn with_quantity(&self, quantity: usize) -> (r: PartRequest)
        ensures
            r.key() == self.key(),
            r.quantity == quantity,
    {
        PartRequest {
            id: self.id.clone(),
            sku: self.sku.clone(),
            qualifier_a: self.qualifier_a.clone(),
            qualifier_b: self.qualifier_b.clone(),
            qualifier_c: self.qualifier_c.clone(),
            length: clone_opt(&self.length),
            width: clone_opt(&self.width),
            quantity,
        }
    }

    /// Whether two requests name the same part, quantities aside.
    pub fn same_part(&self, other: &PartRequest) -> (r: bool)
        ensures
            r == (self.key() == other.key()),
    {
        self.id == other.id && self.sku == other.sku && self.qualifier_a == other.qualifier_a
            && self.qualifier_b == other.qualifier_b && self.qualifier_c == other.qualifier_c
            && opt_eq(&self.length, &other.length) && opt_eq(&self.width, &other.width)
    }
}

/// Two requests are equal when they name the same part, whatever their
/// quantities.
impl PartialEq for PartRequest {
    fn eq(&self, other: &PartRequest) -> (r: bool)
        ensures
            r == (self.key() == other.key()),
    {
        self.same_part(other)
    }
}

impl vstd::std_specs::cmp::PartialEqSpecImpl for PartRequest {
    open spec fn obeys_eq_spec() -> bool {
        true
    }

    open spec fn eq_spec(&self, other: &PartRequest) -> bool {
        self.key() == other.key()
    }
}

impl Eq for PartRequest {}

fn clone_opt(o: &Option<String>) -> (r: Option<String>)
    ensures
        opt_view(r) == opt_view(*o),
{
    match o {
        Some(s) => Some(s.clone()),
        None => None,
    }
}

fn opt_eq(a: &Option<String>, b: &Option<String>) -> (r: bool)
    ensures
        r == (opt_view(*a) == opt_view(*b)),
{
    match (a, b) {
        (Some(x), Some(y)) => *x == *y,
        (None, None) => true,
        _ => false,
    }
}

/// How many of `keys` equal `k`.
pub open spec fn count_key(keys: Seq<PartKey>, k: PartKey) -> nat
    decreases keys.len(),
{
    if keys.len() == 0 {
        0
    } else {
        count_key(keys.drop_last(), k) + if keys.last() == k { 1nat } else { 0nat }
    }
}

/// `out` holds each part of `keys` exactly once, with the number of times
/// it occurs there as its quantity, and nothing else.
pub open spec fn is_aggregation(keys: Seq<PartKey>, out: Seq<PartRequest>) -> bool {
    &&& forall|j: int, l: int| 0 <= j < l < out.len() ==> out[j].key() != out[l].key()
    &&& forall|j: int| 0 <= j < out.len() ==> keys.contains(#[trigger] out[j].key())
    &&& forall|j: int| 0 <= j < out.len() ==> out[j].quantity == count_key(keys, #[trigger] out[j].key())
    &&& forall|i: int| 0 <= i < keys.len() ==> exists|j: int| 0 <= j < out.len() && #[trigger] out[j].key() == #[trigger] keys[i]
}

proof fn lemma_count_absent(keys: Seq<PartKey>, k: PartKey)
    requires
        !keys.contains(k),
    ensures
        count_key(keys, k) == 0,
    decreases keys.len(),
{
    if keys.len() > 0 {
        assert(!keys.drop_last().contains(k)) by {
            if keys.drop_last().contains(k) {
                let i = choose|i: int| 0 <= i < keys.drop_last().len() && keys.drop_last()[i] == k;
                assert(keys[i] == k);
            }
        }
        assert(keys.last() != k) by {
            assert(keys[keys.len() - 1] == keys.last());
        }
        lemma_count_absent(keys.drop_last(), k);
    }
}

fn find_part(parts: &Vec<PartRequest>, p: &PartRequest) -> (r: Option<usize>)
    ensures
        match r {
            Some(j) => j < parts.len() && parts[j as int].key() == p.key(),
            None => forall|t: int| 0 <= t < parts.len() ==> #[trigger] parts[t].key() != p.key(),
        },
{
    let mut j: usize = 0;
    while j < parts.len()
        invariant
            j <= parts.len(),
            forall|t: int| 0 <= t < j ==> #[trigger] parts[t].key() != p.key(),
        decreases parts.len() - j,
    {
        if parts[j].same_part(p) {
            return Some(j);
        }
        j = j + 1;
    }
    None
}

/// Sums the quantities of rows that name the same part: the result has one
/// request per distinct part, in the order of first occurrence.
pub fn aggregate_parts(rows: &Vec<PartRequest>) -> (r: Vec<PartRequest>)
    ensures
        is_aggregation(rows@.map_values(|p: PartRequest| p.key()), r@),
{
    let ghost keys = rows@.map_values(|p: PartRequest| p.key());
    let mut out: Vec<PartRequest> = Vec::new();
    let mut i: usize = 0;
    while i < rows.len()
        invariant
            i <= rows.len(),
            keys == rows@.map_values(|p: PartRequest| p.key()),
            is_aggregation(keys.take(i as int), out@),
            forall|j: int| 0 <= j < out.len() ==> #[trigger] out[j].quantity <= i,
        decreases rows.len() - i,
    {
        let row = &rows[i];
        let ghost k = row.key();
        let ghost prev = keys.take(i as int);
        let ghost next = keys.take(i as int + 1);
        assert(next.drop_last() =~= prev);
        assert(next.last() == k);
        assert forall|x: PartKey| #[trigger] count_key(next, x) == count_key(prev, x) + if x == k { 1nat } else { 0nat } by {}
        assert forall|x: PartKey| prev.contains(x) implies #[trigger] next.contains(x) by {
            if prev.contains(x) {
                let t = choose|t: int| 0 <= t < prev.len() && prev[t] == x;
                assert(next[t] == x);
            }
        }
        assert(next.contains(k)) by {
            assert(next[i as int] == k);
        }
        let found = find_part(&out, row);
        let ghost old_out = out@;
        match found {
            Some(j) => {
                assert(out[j as int].key() == k);
                let q = out[j].quantity + 1;
                let updated = out[j].with_quantity(q);
                out.set(j, updated);
                assert forall|t: int| 0 <= t < out.len() implies #[trigger] out[t].key() == old_out[t].key() by {}
                assert forall|t: int| 0 <= t < out.len() && t != j implies out[t].key() != k by {
                    assert(old_out[j as int].key() == k);
                }
                assert forall|ii: int| 0 <= ii < next.len() implies exists|l: int| 0 <= l < out.len() && #[trigger] out[l].key() == #[trigger] next[ii] by {
                    if ii < i {
                        assert(next[ii] == prev[ii]);
                        let l = choose|l: int| 0 <= l < old_out.len() && #[trigger] old_out[l].key() == prev[ii];
                        assert(out[l].key() == next[ii]);
                    } else {
                        assert(out[j as int].key() == next[ii]);
                    }
                }
            },
            None => {
                proof {
                    if prev.contains(k) {
                        let t = choose|t: int| 0 <= t < prev.len() && prev[t] == k;
                        let l = choose|l: int| 0 <= l < old_out.len() && #[trigger] old_out[l].key() == prev[t];
                        assert(old_out[l].key() == k);
                    }
                    lemma_count_absent(prev, k);
                }
                let fresh = row.with_quantity(1);
                out.push(fresh);
                assert forall|t: int| 0 <= t < old_out.len() implies #[trigger] out[t].key() == old_out[t].key() by {}
                assert forall|ii: int| 0 <= ii < next.len() implies exists|l: int| 0 <= l < out.len() && #[trigger] out[l].key() == #[trigger] next[ii] by {
                    if ii < i {
                        assert(next[ii] == prev[ii]);
                        let l = choose|l: int| 0 <= l < old_out.len() && #[trigger] old_out[l].key() == prev[ii];
                        assert(out[l].key() == next[ii]);
                    } else {
                        assert(out[old_out.len() as int].key() == next[ii]);
                    }
                }
            },
        }
        i = i + 1;
    }
    assert(keys.take(rows.len() as int) =~= keys);
    out
}


/// Why a parts list could not be turned into cart requests.
#[derive(Debug, Clone, PartialEq, Eq)]
pub enum OrderError {
    /// The header row lacks this required column.
    MissingColumn(String),
    /// The header row cannot be read.
    UnreadableCsv,
}

/// The header names that a parts list must have, in the order in which a
/// missing one is reported.
pub open spec fn required_columns() -> Seq<Seq<char>> {
    seq![
        "ID"@,
        "SKU"@,
        "Qualifier A"@,
        "Qualifier B"@,
        "Qualifier C"@,
        "Length"@,
        "Width"@,
    ]
}

pub const REQUIRED_COLUMN_COUNT: usize = 7;

/// The name of the `k`-th required column.
pub fn required_column(k: usize) -> (r: &'static str)
    requires
        k < REQUIRED_COLUMN_COUNT,
    ensures
        r@ == required_columns()[k as int],
{
    if k == 0 {
        "ID"
    } else if k == 1 {
        "SKU"
    } else if k == 2 {
        "Qualifier A"
    } else if k == 3 {
        "Qualifier B"
    } else if k == 4 {
        "Qualifier C"
    } else if k == 5 {
        "Length"
    } else {
        "Width"
    }
}

pub open spec fn table_view(rows: Seq<Vec<String>>) -> Seq<Seq<Seq<char>>> {
    rows.map_values(|r: Vec<String>| strings_view(r@))
}

/// `i` is the first position of `name` among `headers`.
pub open spec fn is_first_index(headers: Seq<Seq<char>>, name: Seq<char>, i: int) -> bool {
    0 <= i < headers.len() && headers[i] == name && forall|t: int| 0 <= t < i ==> headers[t] != name
}

pub open spec fn first_index(headers: Seq<Seq<char>>, name: Seq<char>) -> int {
    choose|i: int| is_first_index(headers, name, i)
}

/// The first required column that `headers` lacks, if any.
pub open spec fn first_missing(headers: Seq<Seq<char>>) -> Option<Seq<char>> {
    if exists|k: int| 0 <= k < 7 && !headers.contains(#[trigger] required_columns()[k]) {
        let k = choose|k: int|
            0 <= k < 7 && !headers.contains(#[trigger] required_columns()[k])
                && forall|t: int| 0 <= t < k ==> headers.contains(#[trigger] required_columns()[t]);
        Some(required_columns()[k])
    } else {
        None
    }
}

/// Where each required column stands in `headers`.
pub open spec fn column_positions(headers: Seq<Seq<char>>) -> Seq<int> {
    required_columns().map_values(|c: Seq<char>| first_index(headers, c))
}

/// The field of `row` at `i`, empty where the row is shorter.
pub open spec fn cell(row: Seq<Seq<char>>, i: int) -> Seq<char> {
    if 0 <= i < row.len() { row[i] } else { Seq::empty() }
}

/// A size field: absent when blank after trimming, else its trimmed text.
pub open spec fn optional_cell(c: Seq<char>) -> Option<Seq<char>> {
    if trim_of(c).len() == 0 { None } else { Some(trim_of(c)) }
}

/// The part that a row names, given where the required columns stand.
pub open spec fn row_key(row: Seq<Seq<char>>, pos: Seq<int>) -> PartKey {
    PartKey {
        id: cell(row, pos[0]),
        sku: cell(row, pos[1]),
        qualifier_a: cell(row, pos[2]),
        qualifier_b: cell(row, pos[3]),
        qualifier_c: cell(row, pos[4]),
        length: optional_cell(cell(row, pos[5])),
        width: optional_cell(cell(row, pos[6])),
    }
}

pub open spec fn table_keys(headers: Seq<Seq<char>>, rows: Seq<Seq<Seq<char>>>) -> Seq<PartKey> {
    rows.map_values(|row: Seq<Seq<char>>| row_key(row, column_positions(headers)))
}

/// What aggregating `rows` under `headers` yields: the first missing
/// column, or one request per distinct part with its row count.
pub open spec fn table_outcome(
    headers: Seq<Seq<char>>,
    rows: Seq<Seq<Seq<char>>>,
    r: Result<Vec<PartRequest>, OrderError>,
) -> bool {
    match first_missing(headers) {
        Some(c) => r matches Err(OrderError::MissingColumn(name)) && name@ == c,
        None => r matches Ok(out) && is_aggregation(table_keys(headers, rows), out@),
    }
}

/// Position of the first header equal to `name`.
pub fn find_column(headers: &Vec<String>, name: &str) -> (r: Option<usize>)
    ensures
        match r {
            Some(i) => is_first_index(strings_view(headers@), name@, i as int),
            None => !strings_view(headers@).contains(name@),
        },
{
    let ghost hv = strings_view(headers@);
    let target = String::from_str(name);
    let mut i: usize = 0;
    while i < headers.len()
        invariant
            i <= headers.len(),
            hv == strings_view(headers@),
            target@ == name@,
            forall|t: int| 0 <= t < i ==> hv[t] != name@,
        decreases headers.len() - i,
    {
        if headers[i] == target {
            return Some(i);
        }
        i = i + 1;
    }
    proof {
        if hv.contains(name@) {
            let t = choose|t: int| 0 <= t < hv.len() && hv[t] == name@;
            assert(hv[t] != name@);
        }
    }
    None
}

proof fn lemma_first_index_unique(headers: Seq<Seq<char>>, name: Seq<char>, i: int)
    requires
        is_first_index(headers, name, i),
    ensures
        first_index(headers, name) == i,
{
    let j = first_index(headers, name);
    assert(is_first_index(headers, name, j));
    if j < i {
        assert(headers[j] != name);
    } else if i < j {
        assert(headers[i] != name);
    }
}

/// Locates every required column, or names the first one missing.
pub fn locate_columns(headers: &Vec<String>) -> (r: Result<Vec<usize>, OrderError>)
    ensures
        match first_missing(strings_view(headers@)) {
            Some(c) => r matches Err(OrderError::MissingColumn(name)) && name@ == c,
            None => r matches Ok(pos) && pos@.len() == 7 && forall|k: int|
                0 <= k < 7 ==> #[trigger] pos@[k] as int == column_positions(strings_view(headers@))[k],
        },
{
    let ghost hv = strings_view(headers@);
    let mut pos: Vec<usize> = Vec::new();
    let mut k: usize = 0;
    while k < REQUIRED_COLUMN_COUNT
        invariant
            k <= 7,
            hv == strings_view(headers@),
            pos@.len() == k,
            forall|t: int| 0 <= t < k ==> hv.contains(#[trigger] required_columns()[t]),
            forall|t: int| 0 <= t < k ==> #[trigger] pos@[t] as int == column_positions(hv)[t],
        decreases 7 - k,
    {
        let name = required_column(k);
        match find_column(headers, name) {
            Some(i) => {
                proof {
                    lemma_first_index_unique(hv, name@, i as int);
                    assert(hv.contains(name@)) by {
                        assert(hv[i as int] == name@);
                    }
                }
                pos.push(i);
            },
            None => {
                let missing = String::from_str(name);
                proof {
                    assert(0 <= k < 7 && !hv.contains(required_columns()[k as int]));
                    let j = choose|j: int|
                        0 <= j < 7 && !hv.contains(#[trigger] required_columns()[j])
                            && forall|t: int| 0 <= t < j ==> hv.contains(#[trigger] required_columns()[t]);
                    if j < k {
                        assert(hv.contains(required_columns()[j]));
                    } else if k < j {
                        assert(hv.contains(required_columns()[k as int]));
                    }
                }
                return Err(OrderError::MissingColumn(missing));
            },
        }
        k = k + 1;
    }
    proof {
        assert(!exists|j: int| 0 <= j < 7 && !hv.contains(#[trigger] required_columns()[j]));
    }
    Ok(pos)
}

fn field_at(row: &Vec<String>, i: usize) -> (r: String)
    ensures
        r@ == cell(strings_view(row@), i as int),
{
    if i < row.len() {
        row[i].clone()
    } else {
        String::new()
    }
}

fn optional_field(raw: String) -> (r: Option<String>)
    ensures
        opt_view(r) == optional_cell(raw@),
{
    let t = trim(raw.as_str());
    if t.as_str().is_empty() {
        None
    } else {
        Some(t)
    }
}

/// The request that one data row makes, for one unit.
pub fn part_of_row(row: &Vec<String>, pos: &Vec<usize>) -> (r: PartRequest)
    requires
        pos@.len() == 7,
    ensures
        r.key() == row_key(strings_view(row@), pos@.map_values(|p: usize| p as int)),
        r.quantity == 1,
{
    PartRequest {
        id: field_at(row, pos[0]),
        sku: field_at(row, pos[1]),
        qualifier_a: field_at(row, pos[2]),
        qualifier_b: field_at(row, pos[3]),
        qualifier_c: field_at(row, pos[4]),
        length: optional_field(field_at(row, pos[5])),
        width: optional_field(field_at(row, pos[6])),
        quantity: 1,
    }
}

/// Checks the header row, then sums the rows that name the same part.
pub fn aggregate_rows(headers: &Vec<String>, rows: &Vec<Vec<String>>) -> (r: Result<Vec<PartRequest>, OrderError>)
    ensures
        table_outcome(strings_view(headers@), table_view(rows@), r),
{
    let pos = match locate_columns(headers) {
        Ok(pos) => pos,
        Err(e) => return Err(e),
    };
    let ghost hv = strings_view(headers@);
    let ghost posv = pos@.map_values(|p: usize| p as int);
    assert(posv =~= column_positions(hv));
    let mut parts: Vec<PartRequest> = Vec::new();
    let mut i: usize = 0;
    while i < rows.len()
        invariant
            i <= rows.len(),
            pos@.len() == 7,
            posv == pos@.map_values(|p: usize| p as int),
            posv == column_positions(hv),
            parts@.len() == i,
            forall|t: int| 0 <= t < i ==> #[trigger] parts@[t].key() == table_keys(hv, table_view(rows@))[t],
        decreases rows.len() - i,
    {
        let p = part_of_row(&rows[i], &pos);
        parts.push(p);
        i = i + 1;
    }
    let out = aggregate_parts(&parts);
    assert(parts@.map_values(|p: PartRequest| p.key()) =~= table_keys(hv, table_view(rows@)));
    Ok(out)
}


/// The header row that the `csv` crate reads from `text`, if it can.
pub uninterp spec fn csv_header_row(text: Seq<char>) -> Option<Seq<Seq<char>>>;

/// What the `csv` crate reads for each data row of `text`: its fields, or
/// `None` for a row it rejects.
pub uninterp spec fn csv_data_rows(text: Seq<char>) -> Seq<Option<Seq<Seq<char>>>>;

/// Relies on `csv::Reader::headers` over a reader built with
/// `csv::Reader::from_reader` (default settings: a header row, comma
/// separated).
#[verifier::external_body]
fn read_csv_headers(text: &str) -> (r: Option<Vec<String>>)
    ensures
        match r {
            Some(h) => csv_header_row(text@) == Some(strings_view(h@)),
            None => csv_header_row(text@).is_none(),
        },
{
    let mut reader = csv::Reader::from_reader(text.as_bytes());
    match reader.headers() {
        Ok(h) => Some(h.iter().map(|f| f.to_string()).collect()),
        Err(_) => None,
    }
}

pub open spec fn row_results_view(rows: Seq<Option<Vec<String>>>) -> Seq<Option<Seq<Seq<char>>>> {
    rows.map_values(|r: Option<Vec<String>>| match r {
        Some(fields) => Some(strings_view(fields@)),
        None => None,
    })
}

/// Relies on `csv::Reader::records` over a reader built with
/// `csv::Reader::from_reader`: one item per data row after the header row,
/// an error for a row it rejects (one of unequal length), after which it
/// goes on with the next row.
#[verifier::external_body]
fn read_csv_records(text: &str) -> (r: Vec<Option<Vec<String>>>)
    ensures
        row_results_view(r@) == csv_data_rows(text@),
{
    let mut reader = csv::Reader::from_reader(text.as_bytes());
    reader.records().map(|rec| rec.ok().map(|r| r.iter().map(|f| f.to_string()).collect())).collect()
}

/// The rows that were read, in order; rejected rows are left out.
pub open spec fn readable_rows(rows: Seq<Option<Seq<Seq<char>>>>) -> Seq<Seq<Seq<char>>>
    decreases rows.len(),
{
    if rows.len() == 0 {
        Seq::empty()
    } else {
        match rows.last() {
            Some(r) => readable_rows(rows.drop_last()).push(r),
            None => readable_rows(rows.drop_last()),
        }
    }
}

/// Keeps the rows that were read, in order.
pub fn keep_readable(rows: Vec<Option<Vec<String>>>) -> (r: Vec<Vec<String>>)
    ensures
        table_view(r@) == readable_rows(row_results_view(rows@)),
{
    let ghost rv = row_results_view(rows@);
    let mut out: Vec<Vec<String>> = Vec::new();
    let ghost all = rows@;
    let mut i: usize = 0;
    while i < rows.len()
        invariant
            i <= rows@.len(),
            rows@ == all,
            rv == row_results_view(all),
            table_view(out@) == readable_rows(rv.take(i as int)),
        decreases rows@.len() - i,
    {
        assert(rv.take(i as int + 1).drop_last() =~= rv.take(i as int));
        assert(rv.take(i as int + 1).last() == rv[i as int]);
        match &rows[i] {
            Some(fields) => {
                out.push(fields.clone());
                assert(table_view(out@) =~= readable_rows(rv.take(i as int + 1)));
            },
            None => {},
        }
        i = i + 1;
    }
    assert(rv.take(rows@.len() as int) =~= rv);
    out
}

/// What aggregating the parts list `text` yields: an unreadable header row
/// or missing column is reported before any data row is read; a data row
/// that cannot be read is skipped.
pub open spec fn csv_outcome(text: Seq<char>, r: Result<Vec<PartRequest>, OrderError>) -> bool {
    match csv_header_row(text) {
        None => r matches Err(OrderError::UnreadableCsv),
        Some(headers) => match first_missing(headers) {
            Some(c) => r matches Err(OrderError::MissingColumn(name)) && name@ == c,
            None => table_outcome(headers, readable_rows(csv_data_rows(text)), r),
        },
    }
}

/// Reads a parts list and returns one request per distinct part, with the
/// number of rows that name it as its quantity.
pub fn aggregate_csv(text: &str) -> (r: Result<Vec<PartRequest>, OrderError>)
    ensures
        csv_outcome(text@, r),
{
    let headers = match read_csv_headers(text) {
        Some(h) => h,
        None => return Err(OrderError::UnreadableCsv),
    };
    if let Err(e) = locate_columns(&headers) {
        return Err(e);
    }
    let rows = keep_readable(read_csv_records(text));
    aggregate_rows(&headers, &rows)
}

/// Rows that name the same part, whatever else they hold, become a single
/// request whose quantity is the number of such rows.
pub proof fn lemma_shared_key_one_request(
    headers: Seq<Seq<char>>,
    rows: Seq<Seq<Seq<char>>>,
    out: Seq<PartRequest>,
    i: int,
)
    requires
        0 <= i < rows.len(),
        is_aggregation(table_keys(headers, rows), out),
    ensures
        exists|j: int|
            0 <= j < out.len() && #[trigger] out[j].key() == table_keys(headers, rows)[i]
                && out[j].quantity == count_key(table_keys(headers, rows), table_keys(headers, rows)[i])
                && forall|l: int| 0 <= l < out.len() && #[trigger] out[l].key() == out[j].key() ==> l == j,
{
    let keys = table_keys(headers, rows);
    let j = choose|j: int| 0 <= j < out.len() && #[trigger] out[j].key() == #[trigger] keys[i];
    assert(out[j].quantity == count_key(keys, out[j].key()));
}

proof fn lemma_entries_no_duplicates(keys: Seq<PartKey>, out: Seq<PartRequest>)
    requires
        is_aggregation(keys, out),
    ensures
        out.map_values(|p: PartRequest| p.entry()).no_duplicates(),
{
    let e = out.map_values(|p: PartRequest| p.entry());
    assert forall|a: int, b: int| 0 <= a < e.len() && 0 <= b < e.len() && a != b implies e[a] != e[b] by {
        if a < b {
            assert(out[a].key() != out[b].key());
        } else {
            assert(out[b].key() != out[a].key());
        }
    }
}

proof fn lemma_entries_contain(keys: Seq<PartKey>, out: Seq<PartRequest>, x: (PartKey, nat))
    requires
        is_aggregation(keys, out),
    ensures
        out.map_values(|p: PartRequest| p.entry()).contains(x) <==> (keys.contains(x.0) && x.1 == count_key(keys, x.0)),
{
    let e = out.map_values(|p: PartRequest| p.entry());
    if keys.contains(x.0) && x.1 == count_key(keys, x.0) {
        let i = choose|i: int| 0 <= i < keys.len() && keys[i] == x.0;
        let j = choose|j: int| 0 <= j < out.len() && #[trigger] out[j].key() == #[trigger] keys[i];
        assert(e[j] == x);
    }
    if e.contains(x) {
        let j = choose|j: int| 0 <= j < e.len() && e[j] == x;
        assert(out[j].key() == x.0);
    }
}

/// Two aggregations of the same rows hold the same parts with the same
/// quantities, whatever their order.
pub proof fn lemma_aggregation_unique(keys: Seq<PartKey>, a: Seq<PartRequest>, b: Seq<PartRequest>)
    requires
        is_aggregation(keys, a),
        is_aggregation(keys, b),
    ensures
        a.map_values(|p: PartRequest| p.entry()).to_multiset() =~= b.map_values(|p: PartRequest| p.entry()).to_multiset(),
{
    broadcast use vstd::seq_lib::to_multiset_contains;
    let ea = a.map_values(|p: PartRequest| p.entry());
    let eb = b.map_values(|p: PartRequest| p.entry());
    lemma_entries_no_duplicates(keys, a);
    lemma_entries_no_duplicates(keys, b);
    ea.lemma_multiset_has_no_duplicates();
    eb.lemma_multiset_has_no_duplicates();
    assert forall|x: (PartKey, nat)| ea.to_multiset().count(x) == eb.to_multiset().count(x) by {
        lemma_entries_contain(keys, a, x);
        lemma_entries_contain(keys, b, x);
    }
}

/// Aggregating the same parts list twice gives the same outcome: the same
/// error, or the same requests up to order.
pub proof fn lemma_aggregate_csv_idempotent(
    text: Seq<char>,
    r1: Result<Vec<PartRequest>, OrderError>,
    r2: Result<Vec<PartRequest>, OrderError>,
)
    requires
        csv_outcome(text, r1),
        csv_outcome(text, r2),
    ensures
        r1 is Ok <==> r2 is Ok,
        r1 matches Err(OrderError::UnreadableCsv) <==> r2 matches Err(OrderError::UnreadableCsv),
        r1 matches Err(OrderError::MissingColumn(c1)) ==> (r2 matches Err(OrderError::MissingColumn(c2)) && c1@ == c2@),
        r1 matches Ok(a) ==> (r2 matches Ok(b) && a@.map_values(|p: PartRequest| p.entry()).to_multiset()
            =~= b@.map_values(|p: PartRequest| p.entry()).to_multiset()),
{
    if let (Ok(a), Ok(b)) = (r1, r2) {
        let headers = csv_header_row(text)->Some_0;
        let rows = readable_rows(csv_data_rows(text));
        lemma_aggregation_unique(table_keys(headers, rows), a@, b@);
    }
}

/// A parts list whose header row lacks a required column is rejected with
/// that column (the first missing one), whatever its data rows hold: no
/// request comes of it.
pub proof fn lemma_missing_column_rejects(
    text: Seq<char>,
    headers: Seq<Seq<char>>,
    k: int,
    r: Result<Vec<PartRequest>, OrderError>,
)
    requires
        csv_header_row(text) == Some(headers),
        0 <= k < 7,
        !headers.contains(required_columns()[k]),
        csv_outcome(text, r),
    ensures
        r matches Err(OrderError::MissingColumn(c)) && first_missing(headers) == Some(c@),
{
    assert(exists|j: int| 0 <= j < 7 && !headers.contains(#[trigger] required_columns()[j]));
}

} // verus!
