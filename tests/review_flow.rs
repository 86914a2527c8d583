use word_review::codec::{decode_meta, encode_meta};
use word_review::entry::StoreError;
use word_review::session::Session;
use word_review::store::{load_entries, parse_all, save_all};
use word_review::{Entry, Meta, Mode, Reply, Turn};

const ONE_ROW: &str = "en,zh,meta_str\ncat,猫,\n";

fn texts(v: &[&str]) -> Vec<String> {
    v.iter().map(|s| s.to_string()).collect()
}

fn run(entries: Vec<Entry>, skip: u32, replies: Vec<Reply>) -> (Vec<Entry>, Vec<Turn>) {
    let mut s = Session::new(entries, Mode::E2Z, skip);
    let mut turns = Vec::new();
    for r in replies {
        assert!(s.current().is_some());
        turns.push(s.reply(r));
    }
    (s.into_entries(), turns)
}

#[test]
fn check_then_right_counts_one() {
    let entries = load_entries(ONE_ROW.as_bytes()).unwrap();
    assert_eq!(entries.len(), 1);
    assert_eq!(entries[0].meta.cnt, 0);
    let (entries, turns) = run(entries, 3, vec![Reply::Check, Reply::Right]);
    assert_eq!(turns, vec![Turn::Judging, Turn::Closed]);
    assert_eq!(entries[0].meta.cnt, 1);
    assert!(entries[0].meta.aka.is_empty());
    let bytes = save_all(&entries).unwrap();
    assert_eq!(
        String::from_utf8(bytes.clone()).unwrap(),
        "en,zh,meta_str\ncat,猫,\"{\"\"cnt\"\":1,\"\"aka\"\":[]}\"\n"
    );
    let again = load_entries(&bytes).unwrap();
    assert_eq!(again[0].meta.cnt, 1);
    assert_eq!(again[0].meta_str.as_deref(), Some("{\"cnt\":1,\"aka\":[]}"));
}

#[test]
fn mastered_entry_is_not_asked() {
    let file = "en,zh,meta_str\ncat,猫,\"{\"\"cnt\"\":3,\"\"aka\"\":[]}\"\n";
    let entries = load_entries(file.as_bytes()).unwrap();
    assert_eq!(entries[0].meta.cnt, 3);
    assert_eq!(entries[0].begin(3), Turn::Closed);
    let s = Session::new(entries, Mode::E2Z, 3);
    assert_eq!(s.current(), None);
    let entries = s.into_entries();
    assert_eq!(entries[0].meta.cnt, 3);
    let bytes = save_all(&entries).unwrap();
    assert_eq!(String::from_utf8(bytes).unwrap(), file);
}

#[test]
fn alias_then_right_keeps_both() {
    let entries = load_entries(ONE_ROW.as_bytes()).unwrap();
    let replies = vec![Reply::Check, Reply::AddAlias, Reply::Text("kitty".to_string()), Reply::Right];
    let (entries, turns) = run(entries, 3, replies);
    assert_eq!(turns, vec![Turn::Judging, Turn::Naming, Turn::Judging, Turn::Closed]);
    assert_eq!(entries[0].meta.cnt, 1);
    assert_eq!(entries[0].meta.aka, texts(&["kitty"]));
}

#[test]
fn round_trip_without_changes() {
    let file = "en,zh,meta_str\ncat,猫,\"{\"\"cnt\"\":5,\"\"aka\"\":[\"\"kitty\"\"]}\"\ndog,狗,\"{\"\"cnt\"\":7,\"\"aka\"\":[]}\"\n";
    let entries = load_entries(file.as_bytes()).unwrap();
    let s = Session::new(entries, Mode::Z2E, 5);
    assert_eq!(s.current(), None);
    let entries = s.into_entries();
    let bytes = save_all(&entries).unwrap();
    assert_eq!(String::from_utf8(bytes.clone()).unwrap(), file);
    let again = load_entries(&bytes).unwrap();
    assert_eq!(again[0].meta.cnt, 5);
    assert_eq!(again[0].meta.aka, texts(&["kitty"]));
    assert_eq!(again[1].meta.cnt, 7);
}

#[test]
fn alias_added_twice_is_held_once() {
    let mut m = Meta::new();
    m.add_alias("kitty".to_string());
    m.add_alias("kitty".to_string());
    assert_eq!(m.aka, texts(&["kitty"]));
    m.add_alias("puss".to_string());
    assert_eq!(m.aka, texts(&["kitty", "puss"]));
    assert!(m.has_alias(&"puss".to_string()));
    assert!(!m.has_alias(&"dog".to_string()));
}

#[test]
fn wrong_and_pass_leave_count() {
    let entries = load_entries(ONE_ROW.as_bytes()).unwrap();
    let (entries, turns) = run(entries, 3, vec![Reply::Check, Reply::Wrong]);
    assert_eq!(turns, vec![Turn::Judging, Turn::Revealed]);
    assert_eq!(entries[0].meta.cnt, 0);
    let (entries, turns) = run(entries, 3, vec![Reply::Pass]);
    assert_eq!(turns, vec![Turn::Revealed]);
    assert_eq!(entries[0].meta.cnt, 0);
}

#[test]
fn unexpected_reply_keeps_turn() {
    let mut e = Entry::new("cat".to_string(), "猫".to_string(), None);
    assert_eq!(e.prompt(Turn::Question, Reply::Right), Turn::Question);
    assert_eq!(e.prompt(Turn::Closed, Reply::Right), Turn::Closed);
    assert_eq!(e.prompt(Turn::Judging, Reply::Text("x".to_string())), Turn::Judging);
    assert_eq!(e.meta.cnt, 0);
    assert!(e.meta.aka.is_empty());
}

#[test]
fn session_goes_in_file_order_and_skips_mastered() {
    let file = "en,zh,meta_str\na,甲,\nb,乙,\"{\"\"cnt\"\":2,\"\"aka\"\":[]}\"\nc,丙,\"{\"\"cnt\"\":1,\"\"aka\"\":[]}\"\n";
    let entries = load_entries(file.as_bytes()).unwrap();
    let mut s = Session::new(entries, Mode::Z2E, 2);
    assert_eq!(s.current(), Some(0));
    let (q, a) = s.entries()[0].question_answer(s.mode());
    assert_eq!((q.as_str(), a.as_str()), ("甲", "a"));
    s.reply(Reply::Check);
    s.reply(Reply::Right);
    assert_eq!(s.current(), Some(2));
    assert_eq!(s.turn(), Turn::Question);
    s.reply(Reply::Check);
    s.reply(Reply::Right);
    assert_eq!(s.current(), None);
    assert_eq!(s.reply(Reply::Right), Turn::Closed);
    let entries = s.into_entries();
    let counts: Vec<u32> = entries.iter().map(|e| e.meta.cnt).collect();
    assert_eq!(counts, vec![1, 2, 2]);
}

#[test]
fn question_follows_direction() {
    let e = Entry::new("cat".to_string(), "猫".to_string(), None);
    let (q, a) = e.question_answer(Mode::E2Z);
    assert_eq!((q.as_str(), a.as_str()), ("cat", "猫"));
    let (q, a) = e.question_answer(Mode::Z2E);
    assert_eq!((q.as_str(), a.as_str()), ("猫", "cat"));
    assert_eq!(e.begin(1), Turn::Question);
    assert_eq!(e.begin(0), Turn::Closed);
}

#[test]
fn columns_found_by_name() {
    let file = "zh,meta_str,en\n猫,,cat\n";
    let entries = load_entries(file.as_bytes()).unwrap();
    assert_eq!(entries[0].en, "cat");
    assert_eq!(entries[0].zh, "猫");
    assert_eq!(entries[0].meta_str, None);
}

#[test]
fn format_errors() {
    assert_eq!(load_entries(b"").unwrap_err(), StoreError::Format);
    assert_eq!(load_entries("en,zh\ncat,猫\n".as_bytes()).unwrap_err(), StoreError::Format);
    assert_eq!(load_entries("en,zh,notes\ncat,猫,\n".as_bytes()).unwrap_err(), StoreError::Format);
    assert_eq!(load_entries("en,zh,meta_str\ncat,猫\n".as_bytes()).unwrap_err(), StoreError::Format);
    let rows = vec![texts(&["en", "zh", "meta_str"]), texts(&["a", "b", "c", "d"])];
    assert_eq!(parse_all(&rows).unwrap_err(), StoreError::Format);
    let rows = vec![texts(&["en", "zh", "meta_str"])];
    assert!(parse_all(&rows).unwrap().is_empty());
}

#[test]
fn metadata_errors() {
    assert_eq!(
        load_entries("en,zh,meta_str\ncat,猫,oops\n".as_bytes()).unwrap_err(),
        StoreError::Metadata
    );
    for bad in [
        "{\"cnt\":,\"aka\":[]}",
        "{\"cnt\":01,\"aka\":[]}",
        "{\"cnt\":4294967296,\"aka\":[]}",
        "{\"cnt\":1,\"aka\":[1]}",
        "{\"cnt\":1,\"aka\":[]",
        "{\"cnt\":1}",
    ] {
        assert_eq!(decode_meta(bad).unwrap_err(), StoreError::Metadata, "{bad}");
    }
    let mut e = Entry::new("cat".to_string(), "猫".to_string(), Some("{\"cnt\":x}".to_string()));
    assert_eq!(e.load(), Err(StoreError::Metadata));
}

#[test]
fn metadata_decodes() {
    let m = decode_meta("{\"cnt\":4294967295,\"aka\":[\"a\\\"b\",\"c\",\"a\\\"b\"]}").unwrap();
    assert_eq!(m.cnt, u32::MAX);
    assert_eq!(m.aka, texts(&["a\"b", "c"]));
    let m = decode_meta("{\"cnt\":0,\"aka\":[]}").unwrap();
    assert_eq!(m.cnt, 0);
    assert!(m.aka.is_empty());
}

#[test]
fn metadata_encodes() {
    let m = Meta { cnt: 12, aka: texts(&["x", "y\"z"]) };
    assert_eq!(encode_meta(&m).unwrap(), "{\"cnt\":12,\"aka\":[\"x\",\"y\\\"z\"]}");
    let back = decode_meta(&encode_meta(&m).unwrap()).unwrap();
    assert_eq!(back.cnt, 12);
    assert_eq!(back.aka, m.aka);
    let mut e = Entry::new("cat".to_string(), "猫".to_string(), None);
    e.load().unwrap();
    e.meta.record_right();
    e.save().unwrap();
    assert_eq!(e.meta_str.as_deref(), Some("{\"cnt\":1,\"aka\":[]}"));
}

#[test]
fn count_stops_at_largest() {
    let mut m = Meta { cnt: u32::MAX, aka: Vec::new() };
    m.record_right();
    assert_eq!(m.cnt, u32::MAX);
}

#[test]
fn typed_answer_exact_counts() {
    let mut e = Entry::new("cat".to_string(), "猫".to_string(), None);
    assert!(e.is_answer(Mode::E2Z, &"猫".to_string()));
    assert!(!e.is_answer(Mode::Z2E, &"猫".to_string()));
    assert!(e.answer_typed(Mode::E2Z, "猫".to_string(), false));
    assert_eq!(e.meta.cnt, 1);
    assert!(e.meta.aka.is_empty());
}

#[test]
fn typed_answer_other_text_needs_consent() {
    let mut e = Entry::new("cat".to_string(), "猫".to_string(), None);
    assert!(!e.answer_typed(Mode::Z2E, "kitty".to_string(), false));
    assert_eq!(e.meta.cnt, 0);
    assert!(e.meta.aka.is_empty());
    assert!(e.answer_typed(Mode::Z2E, "kitty".to_string(), true));
    assert_eq!(e.meta.cnt, 1);
    assert_eq!(e.meta.aka, texts(&["kitty"]));
}

#[test]
fn aliases_saved_in_one_order() {
    let mut m1 = Meta::new();
    m1.add_alias("puss".to_string());
    m1.add_alias("kitty".to_string());
    m1.add_alias("moggy".to_string());
    let mut m2 = Meta::new();
    m2.add_alias("moggy".to_string());
    m2.add_alias("kitty".to_string());
    m2.add_alias("puss".to_string());
    assert_eq!(m1.aka, texts(&["kitty", "moggy", "puss"]));
    assert_eq!(encode_meta(&m1), encode_meta(&m2));
    assert_eq!(
        encode_meta(&m1).unwrap(),
        "{\"cnt\":0,\"aka\":[\"kitty\",\"moggy\",\"puss\"]}"
    );
}

#[test]
fn metadata_read_as_json_object() {
    for text in [
        "{\"aka\":[\"b\",\"a\"],\"cnt\":1}",
        "{ \"cnt\": 1, \"aka\": [ \"a\", \"b\" ] }",
        "{\"cnt\":1,\"aka\":[\"a\",\"b\"],\"note\":null}",
    ] {
        let m = decode_meta(text).unwrap();
        assert_eq!(m.cnt, 1, "{text}");
        assert_eq!(m.aka, texts(&["a", "b"]), "{text}");
    }
    for bad in ["{\"cnt\":-1,\"aka\":[]}", "{\"cnt\":1.5,\"aka\":[]}", "{\"aka\":[]}", "[1,[]]"] {
        assert_eq!(decode_meta(bad).unwrap_err(), StoreError::Metadata, "{bad}");
    }
}
