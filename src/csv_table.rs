use vstd::prelude::*;
use vstd::string::*;

use crate::numeric::{parse_u32, u32_literal_value};

verus! {

/// A CSV file as read: its header row, and each following record in file
/// order (`None` for a record that the reader rejected).
pub struct CsvTable {
    pub headers: Vec<String>,
    pub records: Vec<Option<Vec<String>>>,
}

impl CsvTable {
    pub open spec fn header_view(&self) -> Seq<Seq<char>> {
        self.headers.deep_view()
    }

    pub open spec fn record_view(&self) -> Seq<Option<Seq<Seq<char>>>> {
        self.records.deep_view()
    }
}

/// What the CSV reader makes of a file: the header row and the records, or
/// `None` where not even the header row can be read.
pub uninterp spec fn csv_contents(bytes: Seq<u8>) -> Option<(Seq<Seq<char>>, Seq<Option<Seq<Seq<char>>>>)>;

/// Relies on csv's `Reader` (first row as headers, every record as long as
/// the header row): the header row and each record's fields as text, or
/// `None` where the header row cannot be read. Depends on the bytes alone.
#[verifier::external_body]
pub(crate) fn read_csv(bytes: &[u8]) -> (r: Option<CsvTable>)
    ensures
        match r {
            Some(t) => csv_contents(bytes@) == Some((t.header_view(), t.record_view())),
            None => csv_contents(bytes@).is_none(),
        },
{
    let mut reader = csv::ReaderBuilder::new().from_reader(bytes);
    let headers = reader.headers().ok()?.iter().map(String::from).collect();
    let records = reader
        .into_records()
        .map(|rec| rec.ok().map(|rec| rec.iter().map(String::from).collect()))
        .collect();
    Some(CsvTable { headers, records })
}

/// Whether `i` is the first position of `key` in `keys`.
pub open spec fn is_first_index(keys: Seq<Seq<char>>, key: Seq<char>, i: int) -> bool {
    &&& 0 <= i < keys.len()
    &&& keys[i] == key
    &&& forall|j: int| 0 <= j < i ==> keys[j] != key
}

/// The first position of `key` in `keys`, if it occurs.
pub open spec fn first_index_of(keys: Seq<Seq<char>>, key: Seq<char>) -> Option<int> {
    if exists|i: int| is_first_index(keys, key, i) {
        Some(choose|i: int| is_first_index(keys, key, i))
    } else {
        None
    }
}

/// The field of `record` under the header `name`, if there is one.
pub open spec fn field_of(headers: Seq<Seq<char>>, record: Seq<Seq<char>>, name: Seq<char>) -> Option<
    Seq<char>,
> {
    match first_index_of(headers, name) {
        Some(i) => if i < record.len() {
            Some(record[i])
        } else {
            None
        },
        None => None,
    }
}

/// An optional field: one that is absent or empty has no value.
pub open spec fn optional_field(headers: Seq<Seq<char>>, record: Seq<Seq<char>>, name: Seq<char>) -> Option<
    Seq<char>,
> {
    match field_of(headers, record, name) {
        Some(f) => if f.len() == 0 {
            None
        } else {
            Some(f)
        },
        None => None,
    }
}

pub open spec fn opt_string_view(o: Option<String>) -> Option<Seq<char>> {
    match o {
        Some(s) => Some(s@),
        None => None,
    }
}

pub proof fn lemma_first_index_unique(keys: Seq<Seq<char>>, key: Seq<char>, i: int, j: int)
    requires
        is_first_index(keys, key, i),
        is_first_index(keys, key, j),
    ensures
        i == j,
{
}

/// Finds the column under the header `name`.
pub fn column(headers: &Vec<String>, name: &str) -> (r: Option<usize>)
    ensures
        match r {
            Some(i) => first_index_of(headers.deep_view(), name@) == Some(i as int),
            None => first_index_of(headers.deep_view(), name@) is None,
        },
{
    let key = String::from_str(name);
    let ghost hs = headers.deep_view();
    let mut i: usize = 0;
    while i < headers.len()
        invariant
            i <= headers.len(),
            hs == headers.deep_view(),
            key@ == name@,
            forall|j: int| 0 <= j < i ==> hs[j] != name@,
        decreases headers.len() - i,
    {
        if headers[i] == key {
            assert(is_first_index(hs, name@, i as int));
            proof {
                let c = choose|c: int| is_first_index(hs, name@, c);
                lemma_first_index_unique(hs, name@, i as int, c);
            }
            return Some(i);
        }
        i = i + 1;
    }
    assert(!exists|c: int| is_first_index(hs, name@, c));
    None
}

/// The field under the header `name`.
pub fn field(headers: &Vec<String>, record: &Vec<String>, name: &str) -> (r: Option<String>)
    ensures
        opt_string_view(r) == field_of(headers.deep_view(), record.deep_view(), name@),
{
    match column(headers, name) {
        Some(i) => if i < record.len() {
            Some(record[i].clone())
        } else {
            None
        },
        None => None,
    }
}

/// An optional field: absent or empty gives `None`.
pub fn optional(headers: &Vec<String>, record: &Vec<String>, name: &str) -> (r: Option<String>)
    ensures
        opt_string_view(r) == optional_field(headers.deep_view(), record.deep_view(), name@),
{
    match field(headers, record, name) {
        Some(f) => if f.unicode_len() == 0 {
            None
        } else {
            Some(f)
        },
        None => None,
    }
}

/// A numeric field: `Some(None)` where it is absent or empty, `None` where
/// it is not an unsigned 32-bit decimal number.
pub open spec fn numeric_field_of(headers: Seq<Seq<char>>, record: Seq<Seq<char>>, name: Seq<char>) -> Option<
    Option<u32>,
> {
    match optional_field(headers, record, name) {
        None => Some(None),
        Some(f) => match u32_literal_value(f) {
            Some(c) => Some(Some(c)),
            None => None,
        },
    }
}

/// Reads a numeric field.
pub fn numeric_field(headers: &Vec<String>, record: &Vec<String>, name: &str) -> (r: Option<Option<u32>>)
    ensures
        r == numeric_field_of(headers.deep_view(), record.deep_view(), name@),
{
    match optional(headers, record, name) {
        None => Some(None),
        Some(f) => match parse_u32(f.as_str()) {
            Some(c) => Some(Some(c)),
            None => None,
        },
    }
}

/// The seconds past midnight of a time of day written `HH:MM[:SS[.fff]]`.
pub uninterp spec fn time_of_day_seconds(s: Seq<char>) -> Option<u32>;

/// Relies on chrono's `NaiveTime::from_str` and
/// `Timelike::num_seconds_from_midnight`: the seconds past midnight of a time
/// of day, or `None` where the text is not one. Depends on the text alone.
#[verifier::external_body]
fn parse_time_of_day(s: &str) -> (r: Option<u32>)
    ensures
        r == time_of_day_seconds(s@),
{
    s.parse::<chrono::NaiveTime>().ok().map(|t| chrono::Timelike::num_seconds_from_midnight(&t))
}

/// The serialization of a URL, or `None` where the text is not a URL.
pub uninterp spec fn url_serialization(s: Seq<char>) -> Option<Seq<char>>;

/// Relies on url's `Url::parse`: the URL's serialization, or `None` where the
/// text is not a URL. Depends on the text alone.
#[verifier::external_body]
fn parse_url(s: &str) -> (r: Option<String>)
    ensures
        opt_string_view(r) == url_serialization(s@),
{
    url::Url::parse(s).ok().map(String::from)
}

/// A time-of-day field: `Some(None)` where it is absent or empty, `None`
/// where it is not a time of day.
pub open spec fn time_field_of(headers: Seq<Seq<char>>, record: Seq<Seq<char>>, name: Seq<char>) -> Option<
    Option<u32>,
> {
    match optional_field(headers, record, name) {
        None => Some(None),
        Some(f) => match time_of_day_seconds(f) {
            Some(t) => Some(Some(t)),
            None => None,
        },
    }
}

/// Reads a time-of-day field.
pub fn time_field(headers: &Vec<String>, record: &Vec<String>, name: &str) -> (r: Option<Option<u32>>)
    ensures
        r == time_field_of(headers.deep_view(), record.deep_view(), name@),
{
    match optional(headers, record, name) {
        None => Some(None),
        Some(f) => match parse_time_of_day(f.as_str()) {
            Some(t) => Some(Some(t)),
            None => None,
        },
    }
}

/// A URL field: `Some(None)` where it is absent or empty, `None` where it is
/// not a URL.
pub open spec fn url_field_of(headers: Seq<Seq<char>>, record: Seq<Seq<char>>, name: Seq<char>) -> Option<
    Option<Seq<char>>,
> {
    match optional_field(headers, record, name) {
        None => Some(None),
        Some(f) => match url_serialization(f) {
            Some(u) => Some(Some(u)),
            None => None,
        },
    }
}

/// Reads a URL field, as its serialization.
pub fn url_field(headers: &Vec<String>, record: &Vec<String>, name: &str) -> (r: Option<Option<String>>)
    ensures
        match r {
            Some(u) => url_field_of(headers.deep_view(), record.deep_view(), name@) == Some(opt_string_view(u)),
            None => url_field_of(headers.deep_view(), record.deep_view(), name@) is None,
        },
{
    match optional(headers, record, name) {
        None => Some(None),
        Some(f) => match parse_url(f.as_str()) {
            Some(u) => Some(Some(u)),
            None => None,
        },
    }
}

/// A type whose values are read from one CSV record.
pub trait FromRecord: Sized {
    /// Whether the record holds a value of this type.
    spec fn readable(headers: Seq<Seq<char>>, record: Seq<Seq<char>>) -> bool;

    /// Whether `self` is the value that the record holds.
    spec fn read_from(&self, headers: Seq<Seq<char>>, record: Seq<Seq<char>>) -> bool;

    fn from_record(headers: &Vec<String>, record: &Vec<String>) -> (r: Option<Self>)
        ensures
            r.is_some() == Self::readable(headers.deep_view(), record.deep_view()),
            r matches Some(v) ==> v.read_from(headers.deep_view(), record.deep_view()),
    ;
}

pub open spec fn record_readable<T: FromRecord>(
    headers: Seq<Seq<char>>,
    record: Option<Seq<Seq<char>>>,
) -> bool {
    match record {
        Some(r) => T::readable(headers, r),
        None => false,
    }
}

/// How many of the first `n` records hold a value of type `T`.
pub open spec fn readable_count<T: FromRecord>(
    headers: Seq<Seq<char>>,
    records: Seq<Option<Seq<Seq<char>>>>,
    n: int,
) -> nat
    decreases n,
{
    if n <= 0 {
        0
    } else {
        readable_count::<T>(headers, records, n - 1) + if record_readable::<T>(
            headers,
            records[n - 1],
        ) {
            1nat
        } else {
            0nat
        }
    }
}

pub proof fn lemma_readable_count_monotone<T: FromRecord>(
    headers: Seq<Seq<char>>,
    records: Seq<Option<Seq<Seq<char>>>>,
    i: int,
    j: int,
)
    requires
        0 <= i <= j,
    ensures
        readable_count::<T>(headers, records, i) <= readable_count::<T>(headers, records, j),
    decreases j - i,
{
    if i < j {
        lemma_readable_count_monotone::<T>(headers, records, i, j - 1);
    }
}

/// The rows of a table read as `T`, in file order; the row `i` that holds a
/// value stands at the number of such rows before it.
pub open spec fn rows_read<T: FromRecord>(
    headers: Seq<Seq<char>>,
    records: Seq<Option<Seq<Seq<char>>>>,
    out: Seq<T>,
) -> bool {
    &&& out.len() == readable_count::<T>(headers, records, records.len() as int)
    &&& forall|i: int|
        0 <= i < records.len() && record_readable::<T>(headers, #[trigger] records[i]) ==> out[readable_count::<T>(headers, records, i) as int].read_from(headers, records[i]->0)
}

/// Reads every record that holds a `T`, dropping the others.
pub fn read_rows<T: FromRecord>(table: &CsvTable) -> (out: Vec<T>)
    ensures
        rows_read(table.header_view(), table.record_view(), out@),
{
    let ghost hs = table.header_view();
    let ghost recs = table.record_view();
    let mut out: Vec<T> = Vec::new();
    let mut i: usize = 0;
    while i < table.records.len()
        invariant
            i <= table.records.len(),
            hs == table.header_view(),
            recs == table.record_view(),
            out.len() == readable_count::<T>(hs, recs, i as int),
            forall|k: int|
                0 <= k < i && record_readable::<T>(hs, #[trigger] recs[k]) ==> out@[readable_count::<T>(hs, recs, k) as int].read_from(hs, recs[k]->0),
        decreases table.records.len() - i,
    {
        assert(recs[i as int] == table.records@[i as int].deep_view());
        match &table.records[i] {
            Some(rec) => {
                match T::from_record(&table.headers, rec) {
                    Some(v) => {
                        out.push(v);
                    },
                    None => {},
                }
            },
            None => {},
        }
        proof {
            assert forall|k: int|
                0 <= k < i + 1 && record_readable::<T>(hs, #[trigger] recs[k]) implies out@[readable_count::<T>(hs, recs, k) as int].read_from(hs, recs[k]->0) by {
                if k < i {
                    lemma_readable_count_monotone::<T>(hs, recs, k + 1, i as int);
                }
            }
        }
        i = i + 1;
    }
    out
}

} // verus!
