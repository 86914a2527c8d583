use vstd::prelude::*;
use vstd::string::*;
use crate::entry::StoreError;
use crate::meta::{strs_view, Meta};

verus! {

/// The text that opens the statistics object, up to the count.
pub open spec fn cnt_key() -> Seq<char> {
    "{\"cnt\":"@
}

/// The text between the count and the alias list.
pub open spec fn aka_key() -> Seq<char> {
    ",\"aka\":"@
}

/// The text that closes the statistics object.
pub open spec fn close_key() -> Seq<char> {
    "}"@
}

/// The digit for `d`, below ten.
pub open spec fn digit_char(d: nat) -> char {
    seq!['0', '1', '2', '3', '4', '5', '6', '7', '8', '9'][d as int]
}

/// `n` in decimal, without leading zeros.
pub open spec fn decimal(n: nat) -> Seq<char>
    decreases n,
{
    if n < 10 {
        seq![digit_char(n)]
    } else {
        decimal(n / 10).push(digit_char(n % 10))
    }
}

/// What serde_json reads from a JSON array of strings: `None` where the text
/// is no such array.
pub uninterp spec fn json_string_list(s: Seq<char>) -> Option<Seq<Seq<char>>>;

/// The JSON array that serde_json writes for a list of strings.
pub uninterp spec fn json_list_text(l: Seq<Seq<char>>) -> Seq<char>;

/// The fields of the JSON object that serde_json reads from `s`, in order of
/// their names, each value written back as compact JSON text: `None` where
/// the text is no JSON object.
pub uninterp spec fn json_object_fields(s: Seq<char>) -> Option<Seq<(Seq<char>, Seq<char>)>>;

/// The `u32` that serde_json reads from `s`: `None` where the text is no
/// JSON integer within `u32`.
pub uninterp spec fn json_u32(s: Seq<char>) -> Option<u32>;

/// The fields as character sequences.
pub open spec fn fields_view(fs: Seq<(String, String)>) -> Seq<(Seq<char>, Seq<char>)> {
    fs.map_values(|f: (String, String)| (f.0@, f.1@))
}

/// The value text of the first field named `k` from position `i` on.
pub open spec fn field_from(fs: Seq<(Seq<char>, Seq<char>)>, k: Seq<char>, i: int) -> Option<
    Seq<char>,
>
    decreases fs.len() - i,
{
    if i < 0 || i >= fs.len() {
        None
    } else if fs[i].0 == k {
        Some(fs[i].1)
    } else {
        field_from(fs, k, i + 1)
    }
}

/// The name of the count field.
pub open spec fn cnt_name() -> Seq<char> {
    "cnt"@
}

/// The name of the alias field.
pub open spec fn aka_name() -> Seq<char> {
    "aka"@
}

/// The statistics text with count `cnt` and alias list written as `list`.
pub open spec fn meta_text(cnt: nat, list: Seq<char>) -> Seq<char> {
    cnt_key() + decimal(cnt) + aka_key() + list + close_key()
}

/// The count and the aliases that a statistics text holds, or `None` where it
/// is malformed: the text must be a JSON object whose field `cnt` is an
/// integer within `u32` and whose field `aka` is an array of strings; other
/// fields are ignored. The aliases form a set.
pub open spec fn meta_of_text(t: Seq<char>) -> Option<(nat, Set<Seq<char>>)> {
    match json_object_fields(t) {
        Some(fs) => match (field_from(fs, cnt_name(), 0), field_from(fs, aka_name(), 0)) {
            (Some(c), Some(a)) => match (json_u32(c), json_string_list(a)) {
                (Some(n), Some(l)) => Some((n as nat, l.to_set())),
                _ => None,
            },
            _ => None,
        },
        None => None,
    }
}

/// Relies on `serde_json::from_str` into a `BTreeMap<String, serde_json::Value>`
/// and on `Value`'s `Display`: the fields of a JSON object with their values
/// as compact JSON text, or an error on any other text.
#[verifier::external_body]
fn read_object_fields(s: &str) -> (r: Result<Vec<(String, String)>, serde_json::Error>)
    ensures
        r is Ok <==> json_object_fields(s@) is Some,
        r is Ok ==> json_object_fields(s@) == Some(fields_view(r->Ok_0@)),
{
    serde_json::from_str::<std::collections::BTreeMap<String, serde_json::Value>>(s)
        .map(|m| m.into_iter().map(|(k, v)| (k, v.to_string())).collect())
}

/// Relies on `serde_json::from_str::<u32>`: reads a JSON integer within `u32`,
/// and fails on any other text.
#[verifier::external_body]
fn read_u32(s: &str) -> (r: Result<u32, serde_json::Error>)
    ensures
        r is Ok <==> json_u32(s@) is Some,
        r is Ok ==> json_u32(s@) == Some(r->Ok_0),
{
    serde_json::from_str::<u32>(s)
}

/// Relies on `serde_json::from_str::<Vec<String>>`: reads a JSON array of
/// strings, and fails on any other text.
#[verifier::external_body]
fn read_string_list(s: &str) -> (r: Result<Vec<String>, serde_json::Error>)
    ensures
        r is Ok <==> json_string_list(s@) is Some,
        r is Ok ==> json_string_list(s@) == Some(strs_view(r->Ok_0@)),
{
    serde_json::from_str::<Vec<String>>(s)
}

/// Relies on `serde_json::to_string::<Vec<String>>`: writes a list of strings
/// as a JSON array, which `serde_json::from_str::<Vec<String>>` reads back as
/// the same list. Writing escaped strings into a `Vec<u8>` does not fail.
#[verifier::external_body]
fn write_string_list(l: &Vec<String>) -> (r: Result<String, serde_json::Error>)
    ensures
        r is Ok,
        r is Ok ==> r->Ok_0@ == json_list_text(strs_view(l@)),
        r is Ok ==> json_string_list(r->Ok_0@) == Some(strs_view(l@)),
{
    serde_json::to_string(l)
}

/// The error type of serde_json, carried through and mapped.
#[verifier::external_type_specification]
#[verifier::external_body]
pub struct ExJsonError(serde_json::Error);

proof fn lemma_digit_strs()
    ensures
        "0"@ == seq![digit_char(0)],
        "1"@ == seq![digit_char(1)],
        "2"@ == seq![digit_char(2)],
        "3"@ == seq![digit_char(3)],
        "4"@ == seq![digit_char(4)],
        "5"@ == seq![digit_char(5)],
        "6"@ == seq![digit_char(6)],
        "7"@ == seq![digit_char(7)],
        "8"@ == seq![digit_char(8)],
        "9"@ == seq![digit_char(9)],
{
    reveal_strlit("0");
    reveal_strlit("1");
    reveal_strlit("2");
    reveal_strlit("3");
    reveal_strlit("4");
    reveal_strlit("5");
    reveal_strlit("6");
    reveal_strlit("7");
    reveal_strlit("8");
    reveal_strlit("9");
    assert("0"@ =~= seq![digit_char(0)]);
    assert("1"@ =~= seq![digit_char(1)]);
    assert("2"@ =~= seq![digit_char(2)]);
    assert("3"@ =~= seq![digit_char(3)]);
    assert("4"@ =~= seq![digit_char(4)]);
    assert("5"@ =~= seq![digit_char(5)]);
    assert("6"@ =~= seq![digit_char(6)]);
    assert("7"@ =~= seq![digit_char(7)]);
    assert("8"@ =~= seq![digit_char(8)]);
    assert("9"@ =~= seq![digit_char(9)]);
}

fn digit_str(d: u32) -> (r: &'static str)
    requires
        d < 10,
    ensures
        r@ == seq![digit_char(d as nat)],
{
    proof {
        lemma_digit_strs();
    }
    match d {
        0 => "0",
        1 => "1",
        2 => "2",
        3 => "3",
        4 => "4",
        5 => "5",
        6 => "6",
        7 => "7",
        8 => "8",
        _ => "9",
    }
}

/// Appends `n` in decimal to `out`.
fn push_decimal(out: &mut String, n: u32)
    ensures
        final(out)@ == old(out)@ + decimal(n as nat),
    decreases n,
{
    if n >= 10 {
        push_decimal(out, n / 10);
    }
    out.append(digit_str(n % 10));
    proof {
        if n >= 10 {
            assert(old(out)@ + decimal((n / 10) as nat) + seq![digit_char((n % 10) as nat)]
                =~= old(out)@ + decimal(n as nat));
        } else {
            assert(old(out)@ + seq![digit_char((n % 10) as nat)] =~= old(out)@ + decimal(n as nat));
        }
    }
}

/// The value text of the field named `k`, the first one if there are several.
fn find_field(fs: &Vec<(String, String)>, k: &str) -> (r: Option<String>)
    ensures
        r is None <==> field_from(fields_view(fs@), k@, 0) is None,
        r is Some ==> field_from(fields_view(fs@), k@, 0) == Some(r->0@),
{
    let key = String::from_str(k);
    let ghost fv = fields_view(fs@);
    let mut i: usize = 0;
    while i < fs.len()
        invariant
            i <= fs@.len(),
            fv == fields_view(fs@),
            key@ == k@,
            field_from(fv, k@, 0) == field_from(fv, k@, i as int),
        decreases fs@.len() - i,
    {
        if fs[i].0.eq(&key) {
            return Some(fs[i].1.clone());
        }
        i = i + 1;
    }
    None
}

/// Decodes a statistics text: the count and the aliases it holds, or
/// `Metadata` where it is malformed.
pub fn decode_meta(t: &str) -> (r: Result<Meta, StoreError>)
    ensures
        r is Ok <==> meta_of_text(t@) is Some,
        r is Ok ==> r->Ok_0.wf(),
        r is Ok ==> meta_of_text(t@) == Some((r->Ok_0.cnt as nat, r->Ok_0.alias_set())),
        r is Err ==> r->Err_0 == StoreError::Metadata,
{
    let fields = match read_object_fields(t) {
        Ok(fields) => fields,
        Err(_) => {
            return Err(StoreError::Metadata);
        },
    };
    let c = match find_field(&fields, "cnt") {
        Some(c) => c,
        None => {
            return Err(StoreError::Metadata);
        },
    };
    let a = match find_field(&fields, "aka") {
        Some(a) => a,
        None => {
            return Err(StoreError::Metadata);
        },
    };
    let n = match read_u32(c.as_str()) {
        Ok(n) => n,
        Err(_) => {
            return Err(StoreError::Metadata);
        },
    };
    let items = match read_string_list(a.as_str()) {
        Ok(items) => items,
        Err(_) => {
            return Err(StoreError::Metadata);
        },
    };
    let mut m = Meta::new();
    m.cnt = n;
    let mut j: usize = 0;
    while j < items.len()
        invariant
            j <= items@.len(),
            m.wf(),
            m.cnt == n,
            m.alias_set() == strs_view(items@).take(j as int).to_set(),
        decreases items@.len() - j,
    {
        assert(strs_view(items@).take(j + 1) =~= strs_view(items@).take(j as int).push(items@[j as int]@));
        proof { strs_view(items@).take(j as int).lemma_push_to_set_commute(items@[j as int]@); }
        m.add_alias(items[j].clone());
        j = j + 1;
    }
    assert(strs_view(items@).take(j as int) =~= strs_view(items@));
    Ok(m)
}

/// Encodes statistics as text: the count in decimal and the aliases as the
/// JSON array serde_json writes.
pub fn encode_meta(m: &Meta) -> (r: Option<String>)
    ensures
        r is Some,
        r->0@ == meta_text(m.cnt as nat, json_list_text(m.aliases())),
{
    match write_string_list(&m.aka) {
        Ok(list) => {
            let mut out = String::from_str("{\"cnt\":");
            push_decimal(&mut out, m.cnt);
            out.append(",\"aka\":");
            out.append(list.as_str());
            out.append("}");
            Some(out)
        },
        Err(_) => None,
    }
}

} // verus!
