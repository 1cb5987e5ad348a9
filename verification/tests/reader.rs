use zstd_streaming_reader::reader::{find_newline, locate};
use zstd_streaming_reader::{FileEntry, ReadError, ReaderState, ZstdReader};

fn entry(path: &str, size: u64) -> FileEntry {
    FileEntry { path: path.to_string(), size }
}

fn reader_over(stream: &[u8]) -> ZstdReader {
    ZstdReader::from_stream(stream.to_vec())
}

fn compressed(stream: &[u8]) -> Vec<u8> {
    zstd::stream::encode_all(stream, 3).unwrap()
}

const TWO_FILES: &[u8] = b"[{\"path\":\"a.txt\",\"size\":3},{\"path\":\"b.bin\",\"size\":0}]\nabc";

#[test]
fn new_reads_a_compressed_stream() {
    let mut reader = ZstdReader::new(&compressed(TWO_FILES)).unwrap();
    assert_eq!(reader.state(), ReaderState::Created);
    assert_eq!(
        reader.get_file_list().unwrap(),
        vec![entry("a.txt", 3), entry("b.bin", 0)]
    );
    assert_eq!(reader.extract_file("a.txt").unwrap(), b"abc".to_vec());
    assert_eq!(reader.extract_file("b.bin").unwrap(), Vec::<u8>::new());
}

#[test]
fn new_refuses_what_is_no_zstd_stream() {
    assert_eq!(ZstdReader::new(b"definitely not zstd").err(), Some(ReadError::InvalidStream));
    assert_eq!(ZstdReader::new(TWO_FILES).err(), Some(ReadError::InvalidStream));
    assert_eq!(ZstdReader::new(b"").err(), Some(ReadError::InvalidStream));
}

#[test]
fn new_refuses_a_stream_that_is_cut_off() {
    let whole = compressed(TWO_FILES);
    let cut = &whole[..whole.len() - 3];
    assert_eq!(ZstdReader::new(cut).err(), Some(ReadError::InvalidStream));
}

#[test]
fn new_reads_frames_one_after_the_other() {
    let mut data = compressed(b"[{\"path\":\"a.txt\",\"size\":3}]\n");
    data.extend_from_slice(&compressed(b"abc"));
    let mut reader = ZstdReader::new(&data).unwrap();
    assert_eq!(reader.extract_file("a.txt").unwrap(), b"abc".to_vec());
}

#[test]
fn get_file_list_is_loaded_once() {
    let mut reader = reader_over(TWO_FILES);
    let first = reader.get_file_list().unwrap();
    assert_eq!(reader.state(), ReaderState::IndexLoaded);
    let second = reader.get_file_list().unwrap();
    assert_eq!(first, second);
    assert_eq!(reader.extract_file("a.txt").unwrap(), b"abc".to_vec());
    assert_eq!(reader.get_file_list().unwrap(), first);
    assert_eq!(reader.extract_file("b.bin").unwrap(), Vec::<u8>::new());
}

#[test]
fn extract_file_loads_the_index_itself() {
    let mut reader = reader_over(TWO_FILES);
    assert_eq!(reader.extract_file("a.txt").unwrap(), b"abc".to_vec());
}

#[test]
fn states_follow_the_cursor() {
    let mut reader = reader_over(b"[{\"path\":\"a\",\"size\":1},{\"path\":\"b\",\"size\":2}]\nxyz");
    assert_eq!(reader.state(), ReaderState::Created);
    reader.get_file_list().unwrap();
    assert_eq!(reader.state(), ReaderState::IndexLoaded);
    assert_eq!(reader.extract_file("a").unwrap(), b"x".to_vec());
    assert_eq!(reader.state(), ReaderState::Advancing);
    assert_eq!(reader.extract_file("b").unwrap(), b"yz".to_vec());
    assert_eq!(reader.state(), ReaderState::Exhausted);
}

#[test]
fn files_may_hold_newlines_and_any_byte() {
    let mut stream = b"[{\"path\":\"n\",\"size\":4},{\"path\":\"all\",\"size\":256}]\n\n\n\r\n".to_vec();
    let all: Vec<u8> = (0..=255u8).collect();
    stream.extend_from_slice(&all);
    let mut reader = reader_over(&stream);
    assert_eq!(reader.extract_file("n").unwrap(), b"\n\n\r\n".to_vec());
    assert_eq!(reader.extract_file("all").unwrap(), all);
    assert_eq!(reader.state(), ReaderState::Exhausted);
}

#[test]
fn a_path_that_is_not_there_is_not_found_and_harms_nothing() {
    let mut reader = reader_over(TWO_FILES);
    assert_eq!(reader.extract_file("c.txt"), Err(ReadError::NotFound));
    assert_eq!(reader.extract_file("A.TXT"), Err(ReadError::NotFound));
    assert_eq!(reader.extract_file(""), Err(ReadError::NotFound));
    assert_eq!(reader.state(), ReaderState::IndexLoaded);
    assert_eq!(reader.extract_file("a.txt").unwrap(), b"abc".to_vec());
}

#[test]
fn a_file_out_of_order_is_refused_and_harms_nothing() {
    let mut reader = reader_over(TWO_FILES);
    assert_eq!(reader.extract_file("b.bin"), Err(ReadError::OutOfOrderAccess));
    assert_eq!(reader.extract_file("b.bin"), Err(ReadError::OutOfOrderAccess));
    assert_eq!(reader.extract_file("a.txt").unwrap(), b"abc".to_vec());
    assert_eq!(reader.extract_file("a.txt"), Err(ReadError::OutOfOrderAccess));
    assert_eq!(reader.extract_file("b.bin").unwrap(), Vec::<u8>::new());
    assert_eq!(reader.extract_file("b.bin"), Err(ReadError::OutOfOrderAccess));
    assert_eq!(reader.extract_file("a.txt"), Err(ReadError::OutOfOrderAccess));
}

#[test]
fn out_of_order_never_hands_out_another_files_bytes() {
    let stream = b"[{\"path\":\"one\",\"size\":3},{\"path\":\"two\",\"size\":3},{\"path\":\"three\",\"size\":3}]\n111222333";
    for wanted in ["two", "three"] {
        let mut reader = reader_over(stream);
        let got = reader.extract_file(wanted);
        assert_eq!(got, Err(ReadError::OutOfOrderAccess));
        assert_eq!(reader.extract_file("one").unwrap(), b"111".to_vec());
    }
    let mut reader = reader_over(stream);
    reader.extract_file("one").unwrap();
    assert_eq!(reader.extract_file("three"), Err(ReadError::OutOfOrderAccess));
    assert_eq!(reader.extract_file("two").unwrap(), b"222".to_vec());
    assert_eq!(reader.extract_file("three").unwrap(), b"333".to_vec());
}

#[test]
fn a_stream_without_newline_has_a_truncated_header() {
    let mut reader = reader_over(b"[{\"path\":\"a.txt\",\"size\":3}]");
    assert_eq!(reader.get_file_list(), Err(ReadError::TruncatedHeader));
    assert_eq!(reader.state(), ReaderState::Faulted);
    assert_eq!(reader.get_file_list(), Err(ReadError::Faulted));
    assert_eq!(reader.extract_file("a.txt"), Err(ReadError::Faulted));
}

#[test]
fn an_empty_stream_has_a_truncated_header() {
    let mut reader = reader_over(b"");
    assert_eq!(reader.extract_file("a.txt"), Err(ReadError::TruncatedHeader));
    assert_eq!(reader.state(), ReaderState::Faulted);
    let mut packed = ZstdReader::new(&compressed(b"")).unwrap();
    assert_eq!(packed.get_file_list(), Err(ReadError::TruncatedHeader));
}

#[test]
fn a_line_that_is_no_index_is_malformed() {
    let mut reader = reader_over(b"hello\nabc");
    assert_eq!(reader.get_file_list(), Err(ReadError::MalformedIndex));
    assert_eq!(reader.state(), ReaderState::Faulted);
    assert_eq!(reader.get_file_list(), Err(ReadError::Faulted));
    assert_eq!(reader.extract_file("abc"), Err(ReadError::Faulted));
    let mut missing = reader_over(b"[{\"path\":\"a.txt\"}]\nabc");
    assert_eq!(missing.extract_file("a.txt"), Err(ReadError::MalformedIndex));
    let mut twice = reader_over(b"[{\"path\":\"a\",\"size\":1},{\"path\":\"a\",\"size\":1}]\nab");
    assert_eq!(twice.extract_file("a"), Err(ReadError::MalformedIndex));
}

#[test]
fn the_index_ends_at_the_first_newline() {
    let mut reader = reader_over(b"[]\n[{\"path\":\"a\",\"size\":1}]\nx");
    assert_eq!(reader.get_file_list().unwrap(), Vec::<FileEntry>::new());
    assert_eq!(reader.extract_file("a"), Err(ReadError::NotFound));
}

#[test]
fn a_payload_that_is_cut_off_is_truncated_at_the_first_file_that_is_not_whole() {
    let stream = b"[{\"path\":\"a\",\"size\":3},{\"path\":\"b\",\"size\":5},{\"path\":\"c\",\"size\":1}]\nabcde";
    let mut reader = reader_over(stream);
    assert_eq!(reader.get_file_list().unwrap().len(), 3);
    assert_eq!(reader.extract_file("a").unwrap(), b"abc".to_vec());
    assert_eq!(reader.extract_file("b"), Err(ReadError::TruncatedPayload));
    assert_eq!(reader.state(), ReaderState::Faulted);
    assert_eq!(reader.extract_file("b"), Err(ReadError::Faulted));
    assert_eq!(reader.extract_file("c"), Err(ReadError::Faulted));
    assert_eq!(reader.extract_file("nothing"), Err(ReadError::Faulted));
    assert_eq!(reader.get_file_list(), Err(ReadError::Faulted));
}

#[test]
fn a_payload_that_is_cut_off_by_one_byte_is_truncated() {
    let mut reader = ZstdReader::new(&compressed(b"[{\"path\":\"a\",\"size\":3}]\nab")).unwrap();
    assert_eq!(reader.extract_file("a"), Err(ReadError::TruncatedPayload));
    let mut whole = ZstdReader::new(&compressed(b"[{\"path\":\"a\",\"size\":3}]\nabc")).unwrap();
    assert_eq!(whole.extract_file("a").unwrap(), b"abc".to_vec());
}

#[test]
fn a_size_beyond_all_memory_is_truncated() {
    let mut reader = reader_over(b"[{\"path\":\"a\",\"size\":18446744073709551615}]\nabc");
    assert_eq!(reader.extract_file("a"), Err(ReadError::TruncatedPayload));
}

#[test]
fn an_archive_without_files_finds_nothing() {
    let mut reader = reader_over(b"[]\n");
    assert_eq!(reader.get_file_list().unwrap(), Vec::<FileEntry>::new());
    assert_eq!(reader.state(), ReaderState::Exhausted);
    assert_eq!(reader.extract_file("a.txt"), Err(ReadError::NotFound));
    assert_eq!(reader.extract_file(""), Err(ReadError::NotFound));
    assert_eq!(reader.extract_file("a.txt"), Err(ReadError::NotFound));
    assert_eq!(reader.get_file_list().unwrap(), Vec::<FileEntry>::new());
}

#[test]
fn bytes_behind_the_last_file_are_left_alone() {
    let mut reader = reader_over(b"[{\"path\":\"a\",\"size\":1}]\nxEXTRA");
    assert_eq!(reader.extract_file("a").unwrap(), b"x".to_vec());
    assert_eq!(reader.state(), ReaderState::Advancing);
    assert_eq!(reader.extract_file("a"), Err(ReadError::OutOfOrderAccess));
}

#[test]
fn locate_decides_each_case() {
    let index = vec![entry("a.txt", 3), entry("b.bin", 0)];
    assert_eq!(locate(&index, 0, 3, "a.txt"), Ok(3));
    assert_eq!(locate(&index, 0, 100, "a.txt"), Ok(3));
    assert_eq!(locate(&index, 0, 2, "a.txt"), Err(ReadError::TruncatedPayload));
    assert_eq!(locate(&index, 0, 3, "b.bin"), Err(ReadError::OutOfOrderAccess));
    assert_eq!(locate(&index, 1, 0, "b.bin"), Ok(0));
    assert_eq!(locate(&index, 1, 0, "a.txt"), Err(ReadError::OutOfOrderAccess));
    assert_eq!(locate(&index, 2, 9, "a.txt"), Err(ReadError::OutOfOrderAccess));
    assert_eq!(locate(&index, 7, 9, "b.bin"), Err(ReadError::OutOfOrderAccess));
    assert_eq!(locate(&index, 0, 9, "c"), Err(ReadError::NotFound));
    assert_eq!(locate(&Vec::new(), 0, 9, "a.txt"), Err(ReadError::NotFound));
}

#[test]
fn find_newline_finds_the_first() {
    assert_eq!(find_newline(&b"ab\ncd\n".to_vec()), Some(2));
    assert_eq!(find_newline(&b"\n".to_vec()), Some(0));
    assert_eq!(find_newline(&b"abc".to_vec()), None);
    assert_eq!(find_newline(&Vec::new()), None);
}
