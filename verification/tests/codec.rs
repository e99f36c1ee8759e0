use todo_cli::error::CliError;
use todo_cli::store::{delete_if_empty, encode_tasks, read_tasks, save_tasks, StoreUpdate};
use todo_cli::stream::{
    decode_i64, decode_str, decode_usize, read, read_i64, read_str, read_usize, ByteStream,
    ReadError,
};
use todo_cli::task::Task;

fn sample() -> Task {
    Task::with_details(7, 900, 1_893_499_200, 1800, "buy milk".to_string(), "2%".to_string())
}

#[test]
fn record_layout_is_big_endian_with_word_prefixes() {
    let bytes = sample().serialize();
    let mut expected: Vec<u8> = Vec::new();
    expected.extend_from_slice(&7i64.to_be_bytes());
    expected.extend_from_slice(&900i64.to_be_bytes());
    expected.extend_from_slice(&1_893_499_200i64.to_be_bytes());
    expected.extend_from_slice(&1800i64.to_be_bytes());
    expected.extend_from_slice(&8usize.to_be_bytes());
    expected.extend_from_slice(b"buy milk");
    expected.extend_from_slice(&2usize.to_be_bytes());
    expected.extend_from_slice(b"2%");
    assert_eq!(bytes, expected);
}

#[test]
fn record_round_trip() {
    let task = Task::with_details(-3, -1, i64::MIN, i64::MAX, "näme ✓".to_string(), String::new());
    let bytes = task.serialize();
    let mut stream = ByteStream::new(&bytes);
    let back = Task::from(&mut stream).unwrap();
    assert_eq!(back.id(), -3);
    assert_eq!(back.progress, -1);
    assert_eq!(back.deadline, i64::MIN);
    assert_eq!(back.estimated_time, i64::MAX);
    assert_eq!(back.name, "näme ✓");
    assert_eq!(back.description, "");
    assert!(stream.is_at_end());
    assert_eq!(back.serialize(), bytes);
}

#[test]
fn readers_take_what_they_read() {
    let mut bytes: Vec<u8> = Vec::new();
    bytes.extend_from_slice(&(-2i64).to_be_bytes());
    bytes.extend_from_slice(&3usize.to_be_bytes());
    bytes.extend_from_slice(b"abc");
    let mut stream = ByteStream::new(&bytes);
    assert_eq!(read_i64(&mut stream), Ok(-2));
    assert_eq!(stream.position(), 8);
    assert_eq!(read_usize(&mut stream), Ok(3));
    assert_eq!(read_str(&mut stream, 3), Ok("abc".to_string()));
    assert!(stream.is_at_end());
    assert_eq!(read_i64(&mut stream), Err(ReadError::UnexpectedEnd));
}

#[test]
fn list_round_trip_keeps_order() {
    let tasks = vec![sample(), Task::with_id(2), Task::with_id(1)];
    let bytes = encode_tasks(&tasks);
    let back = read_tasks(&bytes).unwrap();
    let ids: Vec<i64> = back.iter().map(|t| t.id()).collect();
    assert_eq!(ids, vec![7, 2, 1]);
    assert_eq!(encode_tasks(&back), bytes);
}

#[test]
fn truncated_store_is_rejected() {
    let tasks = vec![sample(), Task::with_id(2)];
    let mut bytes = encode_tasks(&tasks);
    bytes.pop();
    assert!(read_tasks(&bytes).is_err());
}

#[test]
fn text_must_be_utf8() {
    let bytes = [0xffu8, 0xfe];
    let mut stream = ByteStream::new(&bytes);
    assert_eq!(read_str(&mut stream, 2), Err(ReadError::InvalidUtf8));
    assert_eq!(stream.position(), 2);
    let bytes = "é".as_bytes();
    let mut stream = ByteStream::new(bytes);
    assert_eq!(read_str(&mut stream, 1), Err(ReadError::InvalidUtf8));
}

#[test]
fn store_with_a_broken_name_is_rejected() {
    let mut bytes = sample().serialize();
    let name_at = 32 + std::mem::size_of::<usize>();
    bytes[name_at] = 0xff;
    assert!(matches!(read_tasks(&bytes), Err(CliError::CorruptFile)));
    let mut stream = ByteStream::new(&bytes);
    assert_eq!(Task::from(&mut stream).err(), Some(ReadError::InvalidUtf8));
}

#[test]
fn conversions_want_the_right_number_of_bytes() {
    assert_eq!(decode_i64(&[0, 0, 0, 0, 0, 0, 1, 0]), Ok(256));
    assert_eq!(decode_i64(&[0xff; 8]), Ok(-1));
    assert_eq!(decode_i64(&[0x80, 0, 0, 0, 0, 0, 0, 0]), Ok(i64::MIN));
    assert_eq!(decode_i64(&[1, 2, 3]), Err(ReadError::Corrupt));
    assert_eq!(decode_usize(&usize::MAX.to_be_bytes()), Ok(usize::MAX));
    assert_eq!(decode_usize(&[1]), Err(ReadError::Corrupt));
    assert_eq!(decode_str(b"abc"), Ok("abc".to_string()));
}

#[test]
fn generic_read_hands_the_bytes_to_the_conversion() {
    let bytes = [1u8, 2, 3, 4, 5];
    let mut stream = ByteStream::new(&bytes);
    let sum = read(&mut stream, |b: &[u8]| Ok(b.iter().map(|x| *x as u32).sum::<u32>()), 3);
    assert_eq!(sum, Ok(6));
    assert_eq!(stream.remaining_len(), 2);
    let none: Result<u32, ReadError> = read(&mut stream, |_: &[u8]| Ok(0), 3);
    assert_eq!(none, Err(ReadError::UnexpectedEnd));
    assert_eq!(stream.position(), 3);
}

#[test]
fn a_short_record_is_an_unexpected_end() {
    let bytes = sample().serialize();
    for keep in [0usize, 7, 31, 32, 39, 41, bytes.len() - 1] {
        let mut stream = ByteStream::new(&bytes[..keep]);
        assert_eq!(Task::from(&mut stream).err(), Some(ReadError::UnexpectedEnd), "{}", keep);
    }
}

#[test]
fn updates_change_a_store_in_memory() {
    assert_eq!(StoreUpdate::Delete.apply(Some(vec![1])), None);
    assert_eq!(StoreUpdate::Overwrite(vec![2]).apply(Some(vec![1])), Some(vec![2]));
    assert_eq!(StoreUpdate::Overwrite(vec![2]).apply(None), Some(vec![2]));
    assert_eq!(StoreUpdate::Append(vec![2]).apply(Some(vec![1])), Some(vec![1, 2]));
    assert_eq!(StoreUpdate::Append(vec![2]).apply(None), Some(vec![2]));
}

#[test]
fn saving_appends_or_overwrites() {
    let tasks = vec![sample()];
    assert!(matches!(save_tasks(&tasks, true), StoreUpdate::Overwrite(b) if b == sample().serialize()));
    assert!(matches!(save_tasks(&tasks, false), StoreUpdate::Append(b) if b == sample().serialize()));
    assert!(matches!(delete_if_empty(&tasks), StoreUpdate::Overwrite(_)));
    assert!(matches!(delete_if_empty(&[]), StoreUpdate::Delete));
}

#[test]
fn empty_bytes_are_an_empty_store() {
    assert!(read_tasks(&[]).unwrap().is_empty());
    assert!(encode_tasks(&[]).is_empty());
}

#[test]
fn errors_tell_the_user() {
    assert_eq!(
        CliError::PathMissing("x".to_string()).message(),
        "I/O error: Task file x not found"
    );
    assert_eq!(CliError::CorruptFile.message(), "Invalid file format");
    assert_eq!(CliError::TaskNotFound(3).message(), "Task not found");
    assert_eq!(CliError::InvalidCommand.message(), "Invalid command");
    assert_eq!(CliError::InvalidArguments.message(), "Invalid arguments");
    assert_eq!(CliError::InvalidInput("a".to_string()).message(), "Invalid input: a");
    assert_eq!(CliError::Parse("b".to_string()).message(), "Parse error: b");
}
