use vstd::prelude::*;
use vstd::string::*;
use crate::codec::{encode_meta, json_list_text, meta_text};
use crate::entry::{decoded, Entry, StoreError};
use crate::meta::strs_view;

verus! {

/// What the csv crate reads from bytes, one record per row, every record
/// kept (the header too), whatever its width: `None` where the bytes are no
/// table.
pub uninterp spec fn csv_table(b: Seq<u8>) -> Option<Seq<Seq<Seq<char>>>>;

/// The bytes that the csv crate writes for one record, line end included.
pub uninterp spec fn csv_record_text(r: Seq<Seq<char>>) -> Seq<u8>;

/// The bytes of the given records written one after another.
pub open spec fn csv_text(rows: Seq<Seq<Seq<char>>>) -> Seq<u8>
    decreases rows.len(),
{
    if rows.len() == 0 {
        Seq::empty()
    } else {
        csv_text(rows.drop_last()) + csv_record_text(rows.last())
    }
}

/// The records as character sequences.
pub open spec fn rows_view(rows: Seq<Vec<String>>) -> Seq<Seq<Seq<char>>> {
    rows.map_values(|r: Vec<String>| strs_view(r@))
}

/// The error type of the csv crate, carried through and mapped.
#[verifier::external_type_specification]
#[verifier::external_body]
pub struct ExCsvError(csv::Error);

/// Relies on `csv::Reader::records`, with headers not skipped and records of
/// any width accepted: the records that the bytes hold, or an error.
#[verifier::external_body]
fn read_table(b: &[u8]) -> (r: Result<Vec<Vec<String>>, csv::Error>)
    ensures
        r is Ok <==> csv_table(b@) is Some,
        r is Ok ==> csv_table(b@) == Some(rows_view(r->Ok_0@)),
{
    csv::ReaderBuilder::new()
        .has_headers(false)
        .flexible(true)
        .from_reader(b)
        .records()
        .map(|rec| rec.map(|r| r.iter().map(String::from).collect()))
        .collect()
}

/// Relies on `csv::Writer::write_record` on a fresh writer over a `Vec<u8>`,
/// then `csv::Writer::into_inner`: the bytes of one record. Writing into a
/// `Vec<u8>` does not fail, and one record alone meets no width check.
#[verifier::external_body]
fn write_record(row: &Vec<String>) -> (r: Result<Vec<u8>, csv::Error>)
    ensures
        r is Ok,
        r is Ok ==> r->Ok_0@ == csv_record_text(strs_view(row@)),
{
    let mut w = csv::Writer::from_writer(Vec::new());
    w.write_record(row)?;
    w.into_inner().map_err(|e| csv::Error::from(e.into_error()))
}

/// The name of the column holding the term asked in English.
pub open spec fn en_col() -> Seq<char> {
    "en"@
}

/// The name of the column holding the term asked in Chinese.
pub open spec fn zh_col() -> Seq<char> {
    "zh"@
}

/// The name of the column holding the statistics text.
pub open spec fn meta_col() -> Seq<char> {
    "meta_str"@
}

/// A header names exactly the three columns, in any order.
pub open spec fn header_ok(h: Seq<Seq<char>>) -> bool {
    &&& h.len() == 3
    &&& h.contains(en_col())
    &&& h.contains(zh_col())
    &&& h.contains(meta_col())
}

/// Where the column `name` stands in a header that holds it.
pub open spec fn col(h: Seq<Seq<char>>, name: Seq<char>) -> int {
    if h[0] == name {
        0
    } else if h[1] == name {
        1
    } else {
        2
    }
}

/// The entry that a record stands for under header `h`: an empty statistics
/// cell means the entry was never reviewed.
pub open spec fn row_entry(h: Seq<Seq<char>>, r: Seq<Seq<char>>) -> (
    Seq<char>,
    Seq<char>,
    Option<Seq<char>>,
) {
    let m = r[col(h, meta_col())];
    (r[col(h, en_col())], r[col(h, zh_col())], if m.len() == 0 { None } else { Some(m) })
}

/// The rows of a table in order, or `None` where it has no valid header or a
/// record of another width than three.
pub open spec fn table_rows(t: Seq<Seq<Seq<char>>>) -> Option<
    Seq<(Seq<char>, Seq<char>, Option<Seq<char>>)>,
> {
    if t.len() > 0 && header_ok(t[0]) && forall|i: int| 1 <= i < t.len() ==> #[trigger] t[i].len()
        == 3 {
        Some(t.drop_first().map_values(|r: Seq<Seq<char>>| row_entry(t[0], r)))
    } else {
        None
    }
}

/// Every row's statistics text is absent or well formed.
pub open spec fn all_decodable(rows: Seq<(Seq<char>, Seq<char>, Option<Seq<char>>)>) -> bool {
    forall|i: int| 0 <= i < rows.len() ==> (#[trigger] decoded(rows[i].2)) is Some
}

/// What reading a table of records yields: its rows in order, each with its
/// statistics decoded; a `Format` error where the table is malformed, a
/// `Metadata` error where it is well formed but a statistics text is not.
pub open spec fn loaded(tv: Seq<Seq<Seq<char>>>, r: Result<Vec<Entry>, StoreError>) -> bool {
    &&& (r is Ok <==> table_rows(tv) is Some && all_decodable(table_rows(tv)->0))
    &&& (r is Err && table_rows(tv) is None ==> r->Err_0 == StoreError::Format)
    &&& (r is Err && table_rows(tv) is Some ==> r->Err_0 == StoreError::Metadata)
    &&& (r is Ok ==> {
        let rows = table_rows(tv)->0;
        &&& r->Ok_0@.len() == rows.len()
        &&& forall|i: int|
            0 <= i < rows.len() ==> {
                &&& (#[trigger] r->Ok_0@[i]).row_view() == rows[i]
                &&& r->Ok_0@[i].meta.wf()
                &&& decoded(rows[i].2) == Some(r->Ok_0@[i].meta_view())
            }
    })
}

/// Whether `s` is `lit`.
fn same_text(s: &String, lit: &str) -> (r: bool)
    ensures
        r == (s@ == lit@),
{
    let t = String::from_str(lit);
    s.eq(&t)
}

/// Where the column `name` stands in a header that holds it.
fn find_col(h: &Vec<String>, name: &str) -> (r: usize)
    requires
        h@.len() == 3,
    ensures
        r == col(strs_view(h@), name@),
{
    if same_text(&h[0], name) {
        0
    } else if same_text(&h[1], name) {
        1
    } else {
        2
    }
}

/// Reads the entries of a table of records, first row the header, in file
/// order, and decodes their statistics. A missing or wrong header, or a
/// record of another width, is a `Format` error; a malformed statistics text,
/// a `Metadata` error.
pub fn parse_all(t: &Vec<Vec<String>>) -> (r: Result<Vec<Entry>, StoreError>)
    ensures
        loaded(rows_view(t@), r),
{
    let ghost tv = rows_view(t@);
    if t.len() == 0 {
        return Err(StoreError::Format);
    }
    let h = &t[0];
    if h.len() != 3 {
        return Err(StoreError::Format);
    }
    let e_at = find_col(h, "en");
    let z_at = find_col(h, "zh");
    let m_at = find_col(h, "meta_str");
    assert(tv[0] == strs_view(h@));
    if !same_text(&h[e_at], "en") || !same_text(&h[z_at], "zh") || !same_text(&h[m_at], "meta_str") {
        proof {
            if header_ok(tv[0]) {
                let hv = tv[0];
                assert(hv[col(hv, en_col())] == en_col());
                assert(hv[col(hv, zh_col())] == zh_col());
                assert(hv[col(hv, meta_col())] == meta_col());
            }
        }
        return Err(StoreError::Format);
    }
    assert(header_ok(tv[0])) by {
        assert(tv[0][e_at as int] == en_col());
        assert(tv[0][z_at as int] == zh_col());
        assert(tv[0][m_at as int] == meta_col());
    }
    let mut i: usize = 1;
    while i < t.len()
        invariant
            1 <= i <= t@.len(),
            tv == rows_view(t@),
            forall|j: int| 1 <= j < i ==> #[trigger] tv[j].len() == 3,
        decreases t@.len() - i,
    {
        if t[i].len() != 3 {
            assert(tv[i as int].len() != 3);
            return Err(StoreError::Format);
        }
        i = i + 1;
    }
    let ghost rows = table_rows(tv)->0;
    assert(rows.len() == t@.len() - 1);
    let mut out: Vec<Entry> = Vec::new();
    let mut i: usize = 1;
    while i < t.len()
        invariant
            1 <= i <= t@.len(),
            tv == rows_view(t@),
            table_rows(tv) is Some,
            rows == table_rows(tv)->0,
            rows.len() == t@.len() - 1,
            e_at as int == col(tv[0], en_col()),
            z_at as int == col(tv[0], zh_col()),
            m_at as int == col(tv[0], meta_col()),
            out@.len() == i - 1,
            forall|j: int|
                0 <= j < i - 1 ==> {
                    &&& (#[trigger] out@[j]).row_view() == rows[j]
                    &&& out@[j].meta.wf()
                    &&& decoded(rows[j].2) == Some(out@[j].meta_view())
                },
            forall|j: int| 0 <= j < i - 1 ==> (#[trigger] decoded(rows[j].2)) is Some,
        decreases t@.len() - i,
    {
        let r = &t[i];
        assert(tv[i as int].len() == 3);
        assert(rows[i - 1] == row_entry(tv[0], tv[i as int]));
        let raw = if r[m_at].as_str().unicode_len() == 0 {
            None
        } else {
            Some(r[m_at].clone())
        };
        let mut e = Entry::new(r[e_at].clone(), r[z_at].clone(), raw);
        assert(e.row_view() == rows[i - 1]);
        match e.load() {
            Ok(()) => {},
            Err(err) => {
                assert(!all_decodable(rows));
                return Err(err);
            },
        }
        out.push(e);
        i = i + 1;
    }
    Ok(out)
}

/// Reads the entries of a word list from the bytes of its file. Bytes that
/// are no table are a `Format` error; otherwise as `parse_all`.
pub fn load_entries(b: &[u8]) -> (r: Result<Vec<Entry>, StoreError>)
    ensures
        csv_table(b@) is None ==> r is Err && r->Err_0 == StoreError::Format,
        csv_table(b@) is Some ==> loaded(csv_table(b@)->0, r),
{
    match read_table(b) {
        Ok(t) => parse_all(&t),
        Err(_) => Err(StoreError::Format),
    }
}

/// The header that a saved word list starts with.
pub open spec fn header_row() -> Seq<Seq<char>> {
    seq![en_col(), zh_col(), meta_col()]
}

/// The record that an entry is saved as, its statistics freshly encoded.
pub open spec fn out_row(e: Entry) -> Seq<Seq<char>> {
    seq![e.en@, e.zh@, meta_text(e.meta.cnt as nat, json_list_text(e.meta.aliases()))]
}

/// The records of a saved word list: the header, then one per entry in order.
pub open spec fn out_rows(es: Seq<Entry>) -> Seq<Seq<Seq<char>>> {
    seq![header_row()] + es.map_values(|e: Entry| out_row(e))
}

/// The bytes of the word list file for `entries`: the header, then one record
/// per entry in order, its statistics encoded afresh.
pub fn save_all(entries: &Vec<Entry>) -> (r: Result<Vec<u8>, StoreError>)
    ensures
        r is Ok,
        r->Ok_0@ == csv_text(out_rows(entries@)),
{
    let mut header: Vec<String> = Vec::new();
    header.push(String::from_str("en"));
    header.push(String::from_str("zh"));
    header.push(String::from_str("meta_str"));
    assert(strs_view(header@) =~= header_row());
    let mut out = match write_record(&header) {
        Ok(b) => b,
        Err(_) => {
            return Err(StoreError::Format);
        },
    };
    assert(out_rows(entries@.take(0)) =~= seq![header_row()]);
    assert(seq![header_row()].drop_last() =~= Seq::<Seq<Seq<char>>>::empty());
    assert(csv_text(Seq::<Seq<Seq<char>>>::empty()) == Seq::<u8>::empty());
    assert(Seq::<u8>::empty() + csv_record_text(header_row()) =~= csv_record_text(header_row()));
    assert(csv_text(seq![header_row()]) == csv_record_text(header_row()));
    let mut i: usize = 0;
    while i < entries.len()
        invariant
            i <= entries@.len(),
            out@ == csv_text(out_rows(entries@.take(i as int))),
        decreases entries@.len() - i,
    {
        let e = &entries[i];
        let text = match encode_meta(&e.meta) {
            Some(text) => text,
            None => {
                return Err(StoreError::Metadata);
            },
        };
        let mut row: Vec<String> = Vec::new();
        row.push(e.en.clone());
        row.push(e.zh.clone());
        row.push(text);
        assert(strs_view(row@) =~= out_row(*e));
        let mut b = match write_record(&row) {
            Ok(b) => b,
            Err(_) => {
                return Err(StoreError::Format);
            },
        };
        out.append(&mut b);
        assert(entries@.take(i + 1) =~= entries@.take(i as int).push(*e));
        assert(out_rows(entries@.take(i + 1)) =~= out_rows(entries@.take(i as int)).push(out_row(*e)));
        assert(out_rows(entries@.take(i as int)).push(out_row(*e)).drop_last() =~= out_rows(entries@.take(i as int)));
        assert(out_rows(entries@)[i + 1] == out_row(*e));
        i = i + 1;
    }
    assert(entries@.take(i as int) =~= entries@);
    Ok(out)
}

} // verus!
