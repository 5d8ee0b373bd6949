use gpu_commands::error::DecodeErrorKind;
use gpu_commands::header::{CommandHeader, GP0CommandType};
use gpu_commands::reader::CommandReader;

#[test]
fn words_come_out_first_in_first_out() {
    let words = [10u32, 20, 30];
    let mut reader = CommandReader::new(&words);
    assert_eq!(reader.remaining(), 3);
    assert_eq!(reader.word_index(), 0);
    assert_eq!(reader.pop_word(), Ok(10));
    assert_eq!(reader.pop_word(), Ok(20));
    assert_eq!(reader.remaining(), 1);
    assert_eq!(reader.word_index(), 2);
    assert_eq!(reader.pop_word(), Ok(30));
    assert_eq!(reader.remaining(), 0);
}

#[test]
fn pop_at_the_end_is_an_underrun() {
    let words = [7u32];
    let mut reader = CommandReader::new(&words);
    assert_eq!(reader.pop_word(), Ok(7));
    assert_eq!(reader.pop_word(), Err(DecodeErrorKind::BufferUnderrun));
    assert_eq!(reader.pop_word(), Err(DecodeErrorKind::BufferUnderrun));
    assert_eq!(reader.word_index(), 1);
    assert_eq!(reader.remaining(), 0);
}

#[test]
fn empty_reader_has_nothing() {
    let words: [u32; 0] = [];
    let mut reader = CommandReader::new(&words);
    assert_eq!(reader.remaining(), 0);
    assert_eq!(reader.peek_header(), None);
    assert_eq!(reader.pop_word(), Err(DecodeErrorKind::BufferUnderrun));
    assert_eq!(reader.take_params(0), Ok(&words[..]));
    assert_eq!(reader.take_params(1), Err(DecodeErrorKind::BufferUnderrun));
}

#[test]
fn peek_does_not_consume() {
    let words = [0xE300_0000u32, 0x0200_0000];
    let mut reader = CommandReader::new(&words);
    let expected =
        Some(CommandHeader { category: GP0CommandType::RenderingAttribute, subopcode: 0x03 });
    assert_eq!(reader.peek_header(), expected);
    assert_eq!(reader.peek_header(), expected);
    assert_eq!(reader.remaining(), 2);
    assert_eq!(reader.pop_word(), Ok(0xE300_0000));
    assert_eq!(
        reader.peek_header(),
        Some(CommandHeader { category: GP0CommandType::Transfer, subopcode: 0x02 })
    );
    assert_eq!(reader.pop_word(), Ok(0x0200_0000));
    assert_eq!(reader.peek_header(), None);
}

#[test]
fn take_params_hands_out_the_next_words() {
    let words = [1u32, 2, 3, 4, 5];
    let mut reader = CommandReader::new(&words);
    assert_eq!(reader.pop_word(), Ok(1));
    assert_eq!(reader.take_params(3), Ok(&words[1..4]));
    assert_eq!(reader.word_index(), 4);
    assert_eq!(reader.remaining(), 1);
    assert_eq!(reader.take_params(1), Ok(&words[4..5]));
    assert_eq!(reader.remaining(), 0);
}

#[test]
fn take_params_beyond_the_end_reads_nothing() {
    let words = [1u32, 2, 3];
    let mut reader = CommandReader::new(&words);
    assert_eq!(reader.pop_word(), Ok(1));
    assert_eq!(reader.take_params(3), Err(DecodeErrorKind::BufferUnderrun));
    assert_eq!(reader.word_index(), 1);
    assert_eq!(reader.remaining(), 2);
    assert_eq!(reader.take_params(2), Ok(&words[1..3]));
}
