use wc_rust::{count_bytes, count_chars, count_lines, count_word_runs, count_words, WcError};

#[test]
fn count_words_in_file() {
    let content: Vec<u8> = "Hello\t World \n \n Today!   All!".as_bytes().to_vec();
    let expected_words: usize = 4;

    assert_eq!(expected_words, count_words(&content).unwrap());
}

#[test]
fn count_chars_in_file() {
    let content = "Hello World".as_bytes().to_vec();
    let expected_chars: usize = 11;

    assert_eq!(expected_chars, count_chars(&content).unwrap())
}

#[test]
fn hello_world_has_no_line() {
    let content = "Hello World".as_bytes();
    assert_eq!(content.len(), 11);
    assert_eq!(count_chars(content), Ok(11));
    assert_eq!(count_lines(content), 0);
    assert_eq!(count_bytes(content), 11);
}

#[test]
fn three_line_feeds() {
    let content: [u8; 3] = [10, 10, 10];
    assert_eq!(count_lines(&content), 3);
    assert_eq!(count_words(&content), Ok(0));
    assert_eq!(count_bytes(&content), 3);
}

#[test]
fn empty_input_counts_nothing() {
    let content: [u8; 0] = [];
    assert_eq!(count_bytes(&content), 0);
    assert_eq!(count_lines(&content), 0);
    assert_eq!(count_words(&content), Ok(0));
    assert_eq!(count_chars(&content), Ok(0));
    assert_eq!(count_word_runs(&content), 0);
}

#[test]
fn invalid_utf8_is_an_encoding_error() {
    let content: [u8; 4] = [b'a', 0xff, b'b', b'\n'];
    assert_eq!(count_chars(&content), Err(WcError::Encoding));
    assert_eq!(count_words(&content), Err(WcError::Encoding));
}

#[test]
fn bytes_and_lines_do_not_ask_for_utf8() {
    let content: [u8; 5] = [0xff, 10, 0xc0, 10, 0x80];
    assert_eq!(count_bytes(&content), 5);
    assert_eq!(count_lines(&content), 2);
    assert_eq!(count_word_runs(&content), 3);
}

#[test]
fn an_unterminated_last_line_is_no_line() {
    assert_eq!(count_lines("one\ntwo".as_bytes()), 1);
    assert_eq!(count_lines("one\ntwo\n".as_bytes()), 2);
    assert_eq!(count_lines("\n".as_bytes()), 1);
    assert_eq!(count_lines("one\r\ntwo\r".as_bytes()), 1);
}

#[test]
fn every_whitespace_byte_separates_words() {
    assert_eq!(count_words("a b".as_bytes()), Ok(2));
    assert_eq!(count_words("a\tb".as_bytes()), Ok(2));
    assert_eq!(count_words("a\nb".as_bytes()), Ok(2));
    assert_eq!(count_words("a\rb".as_bytes()), Ok(2));
    assert_eq!(count_words("a\x0cb".as_bytes()), Ok(2));
    assert_eq!(count_words("a\x0bb".as_bytes()), Ok(2));
}

#[test]
fn other_control_bytes_separate_no_words() {
    assert_eq!(count_words("a\x08b".as_bytes()), Ok(1));
    assert_eq!(count_words("a\x0eb".as_bytes()), Ok(1));
    assert_eq!(count_words("a\x00b".as_bytes()), Ok(1));
    assert_eq!(count_words("a\x1fb".as_bytes()), Ok(1));
    assert_eq!(count_words("a\u{a0}b".as_bytes()), Ok(1));
    assert_eq!(count_words("a\u{2003}b".as_bytes()), Ok(1));
}

#[test]
fn words_at_the_edges() {
    assert_eq!(count_words("word".as_bytes()), Ok(1));
    assert_eq!(count_words(" word".as_bytes()), Ok(1));
    assert_eq!(count_words("word ".as_bytes()), Ok(1));
    assert_eq!(count_words("   ".as_bytes()), Ok(0));
    assert_eq!(count_words("a  b   c".as_bytes()), Ok(3));
    assert_eq!(count_words("a b\nc d\n".as_bytes()), Ok(4));
}

#[test]
fn words_agree_with_split_ascii_whitespace() {
    let samples: [&str; 6] = [
        "Hello\t World \n \n Today!   All!",
        "",
        " \t\r\n\x0c",
        "na\u{ef}ve caf\u{e9}\n\u{1f600} \u{4e2d}\u{6587}",
        "one",
        "tab\tseparated\tvalues\r\nwith a second line\r\n",
    ];
    for text in samples {
        assert_eq!(count_words(text.as_bytes()), Ok(text.split_ascii_whitespace().count()));
        assert_eq!(count_word_runs(text.as_bytes()), text.split_ascii_whitespace().count());
    }
}

#[test]
fn characters_are_scalar_values_not_bytes() {
    assert_eq!(count_chars("\u{e9}".as_bytes()), Ok(1));
    assert_eq!(count_bytes("\u{e9}".as_bytes()), 2);
    assert_eq!(count_chars("\u{20ac}".as_bytes()), Ok(1));
    assert_eq!(count_bytes("\u{20ac}".as_bytes()), 3);
    assert_eq!(count_chars("\u{1f600}".as_bytes()), Ok(1));
    assert_eq!(count_bytes("\u{1f600}".as_bytes()), 4);
    assert_eq!(count_chars("e\u{301}".as_bytes()), Ok(2));
    assert_eq!(count_chars("a\u{e9}\u{20ac}\u{1f600}\n".as_bytes()), Ok(5));
}

#[test]
fn the_first_and_last_scalar_of_each_width() {
    assert_eq!(count_chars(&[0x00]), Ok(1));
    assert_eq!(count_chars(&[0x7f]), Ok(1));
    assert_eq!(count_chars(&[0xc2, 0x80]), Ok(1));
    assert_eq!(count_chars(&[0xdf, 0xbf]), Ok(1));
    assert_eq!(count_chars(&[0xe0, 0xa0, 0x80]), Ok(1));
    assert_eq!(count_chars(&[0xed, 0x9f, 0xbf]), Ok(1));
    assert_eq!(count_chars(&[0xee, 0x80, 0x80]), Ok(1));
    assert_eq!(count_chars(&[0xef, 0xbf, 0xbf]), Ok(1));
    assert_eq!(count_chars(&[0xf0, 0x90, 0x80, 0x80]), Ok(1));
    assert_eq!(count_chars(&[0xf4, 0x8f, 0xbf, 0xbf]), Ok(1));
}

#[test]
fn overlong_encodings_are_refused() {
    assert_eq!(count_chars(&[0xc0, 0x80]), Err(WcError::Encoding));
    assert_eq!(count_chars(&[0xc1, 0xbf]), Err(WcError::Encoding));
    assert_eq!(count_chars(&[0xe0, 0x80, 0x80]), Err(WcError::Encoding));
    assert_eq!(count_chars(&[0xe0, 0x9f, 0xbf]), Err(WcError::Encoding));
    assert_eq!(count_chars(&[0xf0, 0x80, 0x80, 0x80]), Err(WcError::Encoding));
    assert_eq!(count_chars(&[0xf0, 0x8f, 0xbf, 0xbf]), Err(WcError::Encoding));
}

#[test]
fn surrogates_and_values_past_the_last_scalar_are_refused() {
    assert_eq!(count_chars(&[0xed, 0xa0, 0x80]), Err(WcError::Encoding));
    assert_eq!(count_chars(&[0xed, 0xbf, 0xbf]), Err(WcError::Encoding));
    assert_eq!(count_chars(&[0xf4, 0x90, 0x80, 0x80]), Err(WcError::Encoding));
    assert_eq!(count_chars(&[0xf5, 0x80, 0x80, 0x80]), Err(WcError::Encoding));
    assert_eq!(count_chars(&[0xf7, 0xbf, 0xbf, 0xbf]), Err(WcError::Encoding));
    assert_eq!(count_chars(&[0xf8, 0x88, 0x80, 0x80, 0x80]), Err(WcError::Encoding));
}

#[test]
fn cut_off_and_stray_bytes_are_refused() {
    assert_eq!(count_chars(&[0xc3]), Err(WcError::Encoding));
    assert_eq!(count_chars(&[0xe2, 0x82]), Err(WcError::Encoding));
    assert_eq!(count_chars(&[0xf0, 0x9f, 0x98]), Err(WcError::Encoding));
    assert_eq!(count_chars(&[0x80]), Err(WcError::Encoding));
    assert_eq!(count_chars(&[b'a', 0xbf]), Err(WcError::Encoding));
    assert_eq!(count_chars(&[0xc3, b'a']), Err(WcError::Encoding));
    assert_eq!(count_chars(&[0xe2, 0x82, b'a']), Err(WcError::Encoding));
    assert_eq!(count_chars(&[0xe2, b'\n', 0x82, 0xac]), Err(WcError::Encoding));
    assert_eq!(count_chars(&[0xff]), Err(WcError::Encoding));
    assert_eq!(count_chars(&[0xfe]), Err(WcError::Encoding));
}

fn chars_by_std(bytes: &[u8]) -> Result<usize, WcError> {
    match std::str::from_utf8(bytes) {
        Ok(text) => Ok(text.chars().count()),
        Err(_) => Err(WcError::Encoding),
    }
}

#[test]
fn characters_agree_with_std_on_every_pair_of_bytes() {
    for first in 0..=255u8 {
        assert_eq!(count_chars(&[first]), chars_by_std(&[first]));
        for second in 0..=255u8 {
            let pair: [u8; 2] = [first, second];
            assert_eq!(count_chars(&pair), chars_by_std(&pair));
        }
    }
}

#[test]
fn characters_agree_with_std_on_longer_sequences() {
    let firsts: [u8; 12] = [0x61, 0xc2, 0xdf, 0xe0, 0xe1, 0xec, 0xed, 0xee, 0xef, 0xf0, 0xf3, 0xf4];
    let nexts: [u8; 12] = [0x0a, 0x7f, 0x80, 0x8f, 0x90, 0x9f, 0xa0, 0xbf, 0xc0, 0xc2, 0xf4, 0xff];
    for first in firsts {
        for second in nexts {
            for third in nexts {
                let three: [u8; 3] = [first, second, third];
                assert_eq!(count_chars(&three), chars_by_std(&three));
                for fourth in nexts {
                    let four: [u8; 4] = [first, second, third, fourth];
                    assert_eq!(count_chars(&four), chars_by_std(&four));
                    let five: [u8; 5] = [first, second, third, fourth, 0x62];
                    assert_eq!(count_chars(&five), chars_by_std(&five));
                }
            }
        }
    }
}

#[test]
fn ascii_has_as_many_characters_as_bytes() {
    let mut content: Vec<u8> = Vec::new();
    for byte in 0..128u8 {
        content.push(byte);
        assert_eq!(count_chars(&content), Ok(count_bytes(&content)));
    }
    assert_eq!(count_bytes(&content), 128);
}
