use zstd_streaming_reader::bytes::{has_byte, head, same_bytes};
use zstd_streaming_reader::entry::{clone_index, find_entry, paths_unique, same_index};
use zstd_streaming_reader::index::{
    decimal_digits, encode_index, find_member, parse_index, push_entry, NEWLINE,
};
use zstd_streaming_reader::{FileEntry, ReadError, WriteError};

fn entry(path: &str, size: u64) -> FileEntry {
    FileEntry { path: path.to_string(), size }
}

#[test]
fn decimal_digits_of_small_and_large_numbers() {
    assert_eq!(decimal_digits(0), b"0".to_vec());
    assert_eq!(decimal_digits(7), b"7".to_vec());
    assert_eq!(decimal_digits(10), b"10".to_vec());
    assert_eq!(decimal_digits(1234567890), b"1234567890".to_vec());
    assert_eq!(decimal_digits(u64::MAX), b"18446744073709551615".to_vec());
}

#[test]
fn index_line_of_two_files() {
    let index = vec![entry("a.txt", 3), entry("b.bin", 0)];
    let line = encode_index(&index).unwrap();
    assert_eq!(
        line,
        br#"[{"path":"a.txt","size":3},{"path":"b.bin","size":0}]"#.to_vec()
    );
}

#[test]
fn index_line_of_no_files() {
    let line = encode_index(&Vec::new()).unwrap();
    assert_eq!(line, b"[]".to_vec());
    assert_eq!(parse_index(b"[]").unwrap(), Vec::<FileEntry>::new());
}

#[test]
fn index_line_of_one_file() {
    let line = encode_index(&vec![entry("only", 18446744073709551615)]).unwrap();
    assert_eq!(line, br#"[{"path":"only","size":18446744073709551615}]"#.to_vec());
}

#[test]
fn index_line_escapes_what_json_escapes() {
    let index = vec![entry("dir/a\"b\\c\nd\t\u{e9}", 5)];
    let line = encode_index(&index).unwrap();
    assert_eq!(
        line,
        "[{\"path\":\"dir/a\\\"b\\\\c\\nd\\t\u{e9}\",\"size\":5}]".as_bytes().to_vec()
    );
    assert!(!line.contains(&NEWLINE));
    assert_eq!(parse_index(&line).unwrap(), index);
}

#[test]
fn index_line_never_holds_a_newline() {
    let index = vec![entry("\n", 1), entry("a\nb", 2), entry("\r\n\n", 3)];
    let line = encode_index(&index).unwrap();
    assert!(!line.contains(&b'\n'));
    assert_eq!(parse_index(&line).unwrap(), index);
}

#[test]
fn index_line_with_a_path_twice_is_refused() {
    let index = vec![entry("a", 1), entry("b", 2), entry("a", 3)];
    assert_eq!(encode_index(&index), Err(WriteError::IndexEncoding));
}

#[test]
fn push_entry_appends_one_object() {
    let mut out = b"x".to_vec();
    push_entry(&mut out, b"\"p\"", 42);
    assert_eq!(out, br#"x{"path":"p","size":42}"#.to_vec());
}

#[test]
fn parse_index_reads_what_the_line_says() {
    let index = parse_index(br#"[{"path":"a.txt","size":3},{"path":"b.bin","size":0}]"#).unwrap();
    assert_eq!(index, vec![entry("a.txt", 3), entry("b.bin", 0)]);
}

#[test]
fn parse_index_resolves_escapes() {
    let index = parse_index(r#"[{"path":"a\"b\\c\nd\u00e9\/é","size":1}]"#.as_bytes()).unwrap();
    assert_eq!(index, vec![entry("a\"b\\c\nd\u{e9}/\u{e9}", 1)]);
}

#[test]
fn parse_index_takes_white_space_other_members_and_any_order() {
    let text = b" [ {\"size\" : 3 , \"mode\" : [1, {\"x\": null}], \"path\" : \"a.txt\"} ,\t{\"path\":\"b\",\"size\":18446744073709551615} ] ";
    let index = parse_index(text).unwrap();
    assert_eq!(index, vec![entry("a.txt", 3), entry("b", u64::MAX)]);
}

#[test]
fn parse_index_takes_the_last_of_a_repeated_member() {
    let index = parse_index(br#"[{"path":"a","path":"b","size":1,"size":2}]"#).unwrap();
    assert_eq!(index, vec![entry("b", 2)]);
}

#[test]
fn parse_index_refuses_what_is_no_index() {
    let bad: Vec<&[u8]> = vec![
        b"",
        b"not json",
        b"{}",
        b"null",
        b"[1]",
        b"[[\"a.txt\",3]]",
        br#"[{"path":"a"}]"#,
        br#"[{"size":1}]"#,
        br#"[{"path":1,"size":1}]"#,
        br#"[{"path":null,"size":1}]"#,
        br#"[{"path":"a","size":-1}]"#,
        br#"[{"path":"a","size":1.5}]"#,
        br#"[{"path":"a","size":"3"}]"#,
        br#"[{"path":"a","size":18446744073709551616}]"#,
        br#"[{"path":"a","size":1},]"#,
        br#"[{"path":"a","size":1}"#,
        br#"[{"path":"a","size":1}] x"#,
        b"[{\"path\":\"\xff\",\"size\":1}]",
    ];
    for text in bad {
        assert_eq!(parse_index(text), Err(ReadError::MalformedIndex), "{:?}", text);
    }
}

#[test]
fn parse_index_refuses_a_path_twice() {
    let text = br#"[{"path":"a","size":1},{"path":"b","size":2},{"path":"a","size":3}]"#;
    assert_eq!(parse_index(text), Err(ReadError::MalformedIndex));
}

#[test]
fn find_member_finds_the_first_of_a_name() {
    let fields = vec![
        ("a".to_string(), b"1".to_vec()),
        ("b".to_string(), b"2".to_vec()),
        ("a".to_string(), b"3".to_vec()),
    ];
    assert_eq!(find_member(&fields, &"a".to_string()), Some(0));
    assert_eq!(find_member(&fields, &"b".to_string()), Some(1));
    assert_eq!(find_member(&fields, &"c".to_string()), None);
    assert_eq!(find_member(&Vec::new(), &"a".to_string()), None);
}

#[test]
fn find_entry_finds_by_exact_match() {
    let index = vec![entry("a.txt", 3), entry("dir/b", 0), entry("A.txt", 1)];
    assert_eq!(find_entry(&index, "a.txt"), Some(0));
    assert_eq!(find_entry(&index, "dir/b"), Some(1));
    assert_eq!(find_entry(&index, "A.txt"), Some(2));
    assert_eq!(find_entry(&index, "a.tx"), None);
    assert_eq!(find_entry(&index, "a.txt "), None);
    assert_eq!(find_entry(&index, ""), None);
    assert_eq!(find_entry(&Vec::new(), "a.txt"), None);
}

#[test]
fn find_entry_finds_the_first_of_equal_paths() {
    let index = vec![entry("x", 1), entry("y", 2), entry("y", 3)];
    assert_eq!(find_entry(&index, "y"), Some(1));
}

#[test]
fn paths_unique_tells_repeated_paths() {
    assert!(paths_unique(&Vec::new()));
    assert!(paths_unique(&vec![entry("a", 1)]));
    assert!(paths_unique(&vec![entry("a", 1), entry("b", 1), entry("c", 1)]));
    assert!(!paths_unique(&vec![entry("a", 1), entry("a", 2)]));
    assert!(!paths_unique(&vec![entry("a", 1), entry("b", 1), entry("c", 1), entry("b", 9)]));
}

#[test]
fn clone_index_and_same_index_agree() {
    let index = vec![entry("a", 1), entry("b", 2)];
    let copy = clone_index(&index);
    assert_eq!(copy, index);
    assert!(same_index(&copy, &index));
    assert!(!same_index(&index, &vec![entry("a", 1)]));
    assert!(!same_index(&index, &vec![entry("a", 1), entry("b", 3)]));
    assert!(!same_index(&index, &vec![entry("a", 1), entry("c", 2)]));
    assert!(!same_index(&index, &vec![entry("b", 2), entry("a", 1)]));
    assert!(same_index(&Vec::new(), &Vec::new()));
}

#[test]
fn byte_helpers() {
    assert!(has_byte(b"a\nb", b'\n'));
    assert!(!has_byte(b"ab", b'\n'));
    assert!(!has_byte(b"", 0));
    assert!(same_bytes(b"abc", b"abc"));
    assert!(same_bytes(b"", b""));
    assert!(!same_bytes(b"abc", b"abd"));
    assert!(!same_bytes(b"abc", b"ab"));
    assert_eq!(head(b"abcdef", 4), b"abcd".to_vec());
    assert_eq!(head(b"ab", 4), b"ab".to_vec());
    assert_eq!(head(b"ab", 0), Vec::<u8>::new());
}
