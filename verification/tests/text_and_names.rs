use neco::codegen::{arity_error, contains_exec, is_text, join3, slot_text, CompileError};
use neco::compile_text::{
    drop_end, ends_with, hex8_text, number_string_to_number, parse_u64_text, parse_usize_text, string_length, trim_end_all,
    usize_text,
};
use neco::id::{Id, IdGenerator};
use neco::names::{text_eq, NameMap};
use neco::text::{concat3, id_to_string, int_to_string, nat_to_string};

#[test]
fn suffix_helpers() {
    assert!(ends_with("42u64", "u64"));
    assert!(!ends_with("42", "u64"));
    assert!(ends_with("x", ""));
    assert_eq!(drop_end("42u64", 3), "42");
    assert_eq!(trim_end_all("1.500", "0"), "1.5");
    assert_eq!(trim_end_all("abc", ""), "abc");
}

#[test]
fn parsing_decimal_numerals() {
    assert_eq!(parse_usize_text("10"), Some(10));
    assert_eq!(parse_usize_text("+7"), Some(7));
    assert_eq!(parse_usize_text(""), None);
    assert_eq!(parse_usize_text("-1"), None);
    assert_eq!(parse_usize_text("12a"), None);
    assert_eq!(parse_u64_text("18446744073709551615"), Some(u64::MAX));
    assert_eq!(parse_u64_text("18446744073709551616"), None);
}

#[test]
fn numbers_written_as_text() {
    assert_eq!(hex8_text(0x3f800000), "0x3f800000");
    assert_eq!(hex8_text(255), "0x000000ff");
    assert_eq!(usize_text(0), "0");
    assert_eq!(usize_text(1234), "1234");
    assert_eq!(nat_to_string(987654321), "987654321");
    assert_eq!(int_to_string(-42), "-42");
    assert_eq!(int_to_string(0), "0");
    assert_eq!(number_string_to_number("123"), "123");
    assert_eq!(concat3("a", "b", "c"), "abc");
    assert_eq!(id_to_string(Id(5)), "Id(5)");
}

#[test]
fn id_generator_counts_up() {
    let mut g = IdGenerator::new();
    assert_eq!(g.generate_id(), Id(0));
    assert_eq!(g.generate_id(), Id(1));
    assert_eq!(g.generate_id(), Id(2));
}

#[test]
fn stack_slots_and_messages() {
    assert_eq!(slot_text(8), "qword ptr [rbp - 8 - 0]");
    assert_eq!(slot_text(24), "qword ptr [rbp - 8 - 16]");
    match arity_error("__u64_add", "2 arguments", 3) {
        CompileError::UnsupportedConstruct(m) => assert_eq!(m, "__u64_add expects 2 arguments, got 3"),
        other => panic!("unexpected {:?}", other),
    }
    assert_eq!(join3("a", "-", "b"), "a-b");
    assert!(contains_exec("hello world", "o w"));
    assert!(!contains_exec("hello", "world"));
    assert!(is_text("u64", "u64"));
    assert!(!is_text("u64", "u32"));
}

#[test]
fn name_map_insert_replaces() {
    let mut m: NameMap<i32> = NameMap::new();
    m.insert("a".to_string(), 1);
    m.insert("b".to_string(), 2);
    m.insert("a".to_string(), 3);
    assert_eq!(m.len(), 2);
    assert_eq!(m.get("a"), Some(&3));
    assert_eq!(m.get("b"), Some(&2));
    assert_eq!(m.get("c"), None);
    assert!(m.contains_key("b"));
    let copy = m.duplicate();
    m.clear();
    assert_eq!(m.len(), 0);
    assert_eq!(copy.get("a"), Some(&3));
    assert!(text_eq("same", "same"));
    assert!(!text_eq("same", "Same"));
}

#[test]
fn string_length_reads_escapes_as_one_character() {
    assert_eq!(string_length("hello"), 5);
    assert_eq!(string_length("a\\nb"), 3);
    assert_eq!(string_length("\\\\"), 1);
    assert_eq!(string_length("x\\"), 2);
    assert_eq!(string_length(""), 0);
}
