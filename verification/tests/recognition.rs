use rust_paddle_ocr::decode::{chars_to_string, CtcDecoder};
use rust_paddle_ocr::error::OcrError;
use rust_paddle_ocr::keys::{build_charset, charset_from_bytes, is_punctuation};

fn decoder(keys: &[char], min: u32, punct: u32, relaxed: u32) -> CtcDecoder {
    CtcDecoder {
        keys: keys.to_vec(),
        min_score: min,
        punct_min_score: punct,
        punct_relaxed_score: relaxed,
    }
}

#[test]
fn charset_wraps_file_characters_in_blanks() {
    let keys = build_charset("ab\r\nc\n");
    assert_eq!(keys, vec![' ', 'a', 'b', 'c', ' ']);
}

#[test]
fn charset_of_empty_file_is_two_blanks() {
    assert_eq!(build_charset(""), vec![' ', ' ']);
}

#[test]
fn charset_keeps_multibyte_characters() {
    let keys = charset_from_bytes("中\n文".as_bytes()).ok().unwrap();
    assert_eq!(keys, vec![' ', '中', '文', ' ']);
}

#[test]
fn charset_from_invalid_utf8_is_io_error() {
    match charset_from_bytes(&[b'a', 0xff, b'b']) {
        Err(OcrError::IoError(msg)) => assert!(msg.contains("utf-8")),
        _ => panic!("expected an IoError"),
    }
}

#[test]
fn punctuation_set() {
    for c in [',', '.', '\\', '~', '，', '。', '、', '…', '·', '～', '—'] {
        assert!(is_punctuation(c), "{c:?}");
    }
    for c in ['a', '中', ' ', '0', '^', '<'] {
        assert!(!is_punctuation(c), "{c:?}");
    }
}

#[test]
fn repeats_are_merged_and_blank_separates() {
    let d = decoder(&[' ', 'a', 'b'], 10, 5, 4);
    // frames: a, a, blank, a, b, b
    let scores = [0, 20, 0, 0, 25, 0, 30, 1, 0, 0, 20, 0, 0, 0, 40, 0, 3, 41];
    let out = d.decode(&scores, 6, 3);
    assert_eq!(out, vec![('a', 20), ('a', 20), ('b', 40)]);
}

#[test]
fn punctuation_is_never_merged() {
    let d = decoder(&[' ', ','], 10, 5, 4);
    let scores = [0, 6, 0, 7, 0, 6];
    assert_eq!(d.decode(&scores, 3, 2), vec![(',', 6), (',', 7), (',', 6)]);
}

#[test]
fn relaxed_punctuation_kept_without_breaking_a_run() {
    let d = decoder(&[' ', 'a', ','], 10, 5, 4);
    // a (confident), ',' (between relaxed and punct thresholds), a again
    let scores = [0, 20, 0, 0, 0, 5, 0, 20, 0];
    assert_eq!(d.decode(&scores, 3, 3), vec![('a', 20), (',', 5)]);
}

#[test]
fn low_scores_break_a_run() {
    let d = decoder(&[' ', 'a'], 10, 5, 4);
    // a, a (low), a
    let scores = [0, 20, 0, 9, 0, 20];
    assert_eq!(d.decode(&scores, 3, 2), vec![('a', 20), ('a', 20)]);
}

#[test]
fn weak_punctuation_is_dropped() {
    let d = decoder(&[' ', ','], 10, 5, 4);
    let scores = [0, 4, 0, 3];
    assert_eq!(d.decode(&scores, 2, 2), vec![]);
}

#[test]
fn unknown_classes_and_missing_scores_emit_nothing() {
    let d = decoder(&[' ', 'a'], 10, 5, 4);
    // vocabulary wider than the key table: class 2 has no key
    let scores = [0, 0, 50, 0, 20];
    // the second frame is cut short: only its first two scores exist
    assert_eq!(d.decode(&scores, 2, 3), vec![('a', 20)]);
}

#[test]
fn first_of_equal_scores_wins() {
    let d = decoder(&[' ', 'a', 'b'], 10, 5, 4);
    assert_eq!(d.decode(&[0, 20, 20], 1, 3), vec![('a', 20)]);
}

#[test]
fn zero_frames_or_empty_vocabulary() {
    let d = decoder(&[' ', 'a'], 10, 5, 4);
    assert_eq!(d.decode(&[1, 2, 3], 0, 3), vec![]);
    assert_eq!(d.decode(&[], 4, 0), vec![]);
}

#[test]
fn decoded_characters_form_the_text() {
    let chars = vec![('h', 9), ('é', 8), ('，', 7)];
    assert_eq!(chars_to_string(&chars), "hé，");
    assert_eq!(chars_to_string(&vec![]), "");
}

#[test]
fn decoding_with_a_charset_file_reads_file_characters() {
    let keys = build_charset("x\ny\n");
    assert_eq!(keys, vec![' ', 'x', 'y', ' ']);
    let d = CtcDecoder { keys, min_score: 10, punct_min_score: 5, punct_relaxed_score: 4 };
    // frames: y, blank, trailing space class, x
    let scores = [0, 0, 50, 0, 60, 0, 0, 0, 0, 0, 0, 70, 0, 80, 0, 0];
    assert_eq!(d.decode(&scores, 4, 4), vec![('y', 50), (' ', 70), ('x', 80)]);
}

#[test]
fn decoding_more_frames_extends_the_reading() {
    let d = decoder(&[' ', 'a', 'b'], 10, 5, 4);
    let scores = [0, 20, 0, 0, 0, 30, 0, 0, 40, 0, 20, 0];
    let two = d.decode(&scores, 2, 3);
    let four = d.decode(&scores, 4, 3);
    assert_eq!(two, vec![('a', 20), ('b', 30)]);
    assert_eq!(four, vec![('a', 20), ('b', 30), ('a', 20)]);
    assert_eq!(&four[..two.len()], &two[..]);
}
