use vstd::prelude::*;

use crate::error::{OcrError, OcrResult};
use vstd::utf8::{decode_utf8, encode_utf8_decode_utf8, valid_utf8};
use vstd::string::StringSliceAdditionalSpecFns;

verus! {

broadcast use vstd::seq_lib::group_seq_properties;

#[verifier::external_type_specification]
#[verifier::external_body]
pub struct ExUtf8Error(core::str::Utf8Error);

/// `core::str::from_utf8`: succeeds exactly when the bytes are valid UTF-8,
/// and the text it returns is the one those bytes encode. Nothing is claimed
/// of the error value.
#[verifier::external_body]
fn str_from_utf8(bytes: &[u8]) -> (r: Result<&str, core::str::Utf8Error>)
    ensures
        r is Ok <==> valid_utf8(bytes@),
        r matches Ok(s) ==> s.spec_bytes() == bytes@,
{
    core::str::from_utf8(bytes)
}

/// True for the characters that the recognizer treats as punctuation: they get
/// their own confidence threshold and are never merged with a repeat.
pub open spec fn is_punct_char(c: char) -> bool {
    ||| c == ',' ||| c == '.' ||| c == '!' ||| c == '?' ||| c == ';' ||| c == ':'
    ||| c == '"' ||| c == '\'' ||| c == '(' ||| c == ')' ||| c == '[' ||| c == ']'
    ||| c == '{' ||| c == '}' ||| c == '-' ||| c == '_' ||| c == '/' ||| c == '\\'
    ||| c == '|' ||| c == '@' ||| c == '#' ||| c == '$' ||| c == '%' ||| c == '&'
    ||| c == '*' ||| c == '+' ||| c == '=' ||| c == '~'
    // full-width comma, ideographic full stop, full-width ! ? ; :
    ||| c == '\u{ff0c}' ||| c == '\u{3002}' ||| c == '\u{ff01}' ||| c == '\u{ff1f}'
    ||| c == '\u{ff1b}' ||| c == '\u{ff1a}'
    // ideographic comma, corner brackets, white corner brackets
    ||| c == '\u{3001}' ||| c == '\u{300c}' ||| c == '\u{300d}' ||| c == '\u{300e}'
    ||| c == '\u{300f}'
    // full-width parentheses, black lenticular brackets, double angle brackets
    ||| c == '\u{ff08}' ||| c == '\u{ff09}' ||| c == '\u{3010}' ||| c == '\u{3011}'
    ||| c == '\u{300a}' ||| c == '\u{300b}'
    // em dash, ellipsis, middle dot, full-width tilde
    ||| c == '\u{2014}' ||| c == '\u{2026}' ||| c == '\u{b7}' ||| c == '\u{ff5e}'
}

/// Whether `ch` is one of the punctuation characters of the recognizer.
pub fn is_punctuation(ch: char) -> (r: bool)
    ensures
        r == is_punct_char(ch),
        r == punctuation_list().contains(ch),
{
    proof {
        lemma_punctuation_is_the_list();
        if punctuation_list().contains(ch) {
            let i = choose|i: int| 0 <= i < punctuation_list().len() && punctuation_list()[i] == ch;
            assert(is_punct_char(punctuation_list()[i]));
        }
    }
    match ch {
        ',' | '.' | '!' | '?' | ';' | ':' | '"' | '\'' | '(' | ')' | '[' | ']' | '{' | '}'
        | '-' | '_' | '/' | '\\' | '|' | '@' | '#' | '$' | '%' | '&' | '*' | '+' | '='
        | '~' => true,
        '\u{ff0c}' | '\u{3002}' | '\u{ff01}' | '\u{ff1f}' | '\u{ff1b}' | '\u{ff1a}'
        | '\u{3001}' | '\u{300c}' | '\u{300d}' | '\u{300e}' | '\u{300f}' | '\u{ff08}'
        | '\u{ff09}' | '\u{3010}' | '\u{3011}' | '\u{300a}' | '\u{300b}' | '\u{2014}'
        | '\u{2026}' | '\u{b7}' | '\u{ff5e}' => true,
        _ => false,
    }
}

/// The recognizer's punctuation, in the order it is listed: ASCII marks, then
/// full-width and CJK marks (full-width comma, ideographic full stop,
/// full-width ! ? ; :, ideographic comma, corner brackets, full-width
/// parentheses, lenticular and double angle brackets, em dash, ellipsis,
/// middle dot, full-width tilde).
pub open spec fn punctuation_list() -> Seq<char> {
    seq![
        ',', '.', '!', '?', ';', ':', '"', '\'',
        '(', ')', '[', ']', '{', '}', '-', '_',
        '/', '\\', '|', '@', '#', '$', '%', '&',
        '*', '+', '=', '~', '\u{ff0c}', '\u{3002}', '\u{ff01}', '\u{ff1f}',
        '\u{ff1b}', '\u{ff1a}', '\u{3001}', '\u{300c}', '\u{300d}', '\u{300e}', '\u{300f}', '\u{ff08}',
        '\u{ff09}', '\u{3010}', '\u{3011}', '\u{300a}', '\u{300b}', '\u{2014}', '\u{2026}', '\u{b7}',
        '\u{ff5e}',
    ]
}

/// The punctuation predicate holds exactly for the 49 characters of the
/// recognizer's punctuation list.
pub proof fn lemma_punctuation_is_the_list()
    ensures
        punctuation_list().len() == 49,
        forall|i: int| 0 <= i < 49 ==> is_punct_char(#[trigger] punctuation_list()[i]),
        forall|c: char| is_punct_char(c) ==> punctuation_list().contains(c),
{
    let list = punctuation_list();
    assert forall|c: char| is_punct_char(c) implies list.contains(c) by {
        if c == ',' {
            assert(list[0] == c);
        }
        if c == '.' {
            assert(list[1] == c);
        }
        if c == '!' {
            assert(list[2] == c);
        }
        if c == '?' {
            assert(list[3] == c);
        }
        if c == ';' {
            assert(list[4] == c);
        }
        if c == ':' {
            assert(list[5] == c);
        }
        if c == '"' {
            assert(list[6] == c);
        }
        if c == '\'' {
            assert(list[7] == c);
        }
        if c == '(' {
            assert(list[8] == c);
        }
        if c == ')' {
            assert(list[9] == c);
        }
        if c == '[' {
            assert(list[10] == c);
        }
        if c == ']' {
            assert(list[11] == c);
        }
        if c == '{' {
            assert(list[12] == c);
        }
        if c == '}' {
            assert(list[13] == c);
        }
        if c == '-' {
            assert(list[14] == c);
        }
        if c == '_' {
            assert(list[15] == c);
        }
        if c == '/' {
            assert(list[16] == c);
        }
        if c == '\\' {
            assert(list[17] == c);
        }
        if c == '|' {
            assert(list[18] == c);
        }
        if c == '@' {
            assert(list[19] == c);
        }
        if c == '#' {
            assert(list[20] == c);
        }
        if c == '$' {
            assert(list[21] == c);
        }
        if c == '%' {
            assert(list[22] == c);
        }
        if c == '&' {
            assert(list[23] == c);
        }
        if c == '*' {
            assert(list[24] == c);
        }
        if c == '+' {
            assert(list[25] == c);
        }
        if c == '=' {
            assert(list[26] == c);
        }
        if c == '~' {
            assert(list[27] == c);
        }
        if c == '\u{ff0c}' {
            assert(list[28] == c);
        }
        if c == '\u{3002}' {
            assert(list[29] == c);
        }
        if c == '\u{ff01}' {
            assert(list[30] == c);
        }
        if c == '\u{ff1f}' {
            assert(list[31] == c);
        }
        if c == '\u{ff1b}' {
            assert(list[32] == c);
        }
        if c == '\u{ff1a}' {
            assert(list[33] == c);
        }
        if c == '\u{3001}' {
            assert(list[34] == c);
        }
        if c == '\u{300c}' {
            assert(list[35] == c);
        }
        if c == '\u{300d}' {
            assert(list[36] == c);
        }
        if c == '\u{300e}' {
            assert(list[37] == c);
        }
        if c == '\u{300f}' {
            assert(list[38] == c);
        }
        if c == '\u{ff08}' {
            assert(list[39] == c);
        }
        if c == '\u{ff09}' {
            assert(list[40] == c);
        }
        if c == '\u{3010}' {
            assert(list[41] == c);
        }
        if c == '\u{3011}' {
            assert(list[42] == c);
        }
        if c == '\u{300a}' {
            assert(list[43] == c);
        }
        if c == '\u{300b}' {
            assert(list[44] == c);
        }
        if c == '\u{2014}' {
            assert(list[45] == c);
        }
        if c == '\u{2026}' {
            assert(list[46] == c);
        }
        if c == '\u{b7}' {
            assert(list[47] == c);
        }
        if c == '\u{ff5e}' {
            assert(list[48] == c);
        }
    }
}

/// Line breaks separate the entries of a character-set file and are not keys.
pub open spec fn is_line_break(c: char) -> bool {
    c == '\n' || c == '\r'
}

/// The characters of a character-set file that become keys, in file order.
pub open spec fn charset_entries(content: Seq<char>) -> Seq<char> {
    content.filter(|c: char| !is_line_break(c))
}

/// The recognizer's key table: a blank at index 0 (the class the model emits
/// for "no character"), the file's characters, and a trailing space.
pub open spec fn charset_of(content: Seq<char>) -> Seq<char> {
    seq![' '] + charset_entries(content) + seq![' ']
}

/// The number of line breaks ('\n' or '\r') in `s`.
pub open spec fn line_breaks_in(s: Seq<char>) -> nat {
    s.filter(|c: char| c == '\n' || c == '\r').len()
}

proof fn lemma_entry_positions(s: Seq<char>)
    ensures
        charset_entries(s).len() + line_breaks_in(s) == s.len(),
        forall|j: int|
            #![trigger s[j]]
            0 <= j < s.len() && s[j] != '\n' && s[j] != '\r' ==> {
                &&& line_breaks_in(s.take(j)) <= j
                &&& 0 <= j - line_breaks_in(s.take(j)) < charset_entries(s).len()
                &&& charset_entries(s)[j - line_breaks_in(s.take(j))] == s[j]
            },
    decreases s.len(),
{
    let lb = |c: char| c == '\n' || c == '\r';
    let keep = |c: char| !is_line_break(c);
    reveal_with_fuel(Seq::filter, 1);
    if s.len() == 0 {
        assert(s.filter(lb) =~= Seq::<char>::empty());
        assert(s.filter(keep) =~= Seq::<char>::empty());
    } else {
        let t = s.drop_last();
        lemma_entry_positions(t);
        let x = s.last();
        assert(s.filter(lb) == (if lb(x) { t.filter(lb).push(x) } else { t.filter(lb) }));
        assert(s.filter(keep) == (if keep(x) { t.filter(keep).push(x) } else { t.filter(keep) }));
        assert(s.take(t.len() as int) =~= t);
        assert forall|j: int|
            #![trigger s[j]]
            0 <= j < s.len() && s[j] != '\n' && s[j] != '\r' implies {
                &&& line_breaks_in(s.take(j)) <= j
                &&& 0 <= j - line_breaks_in(s.take(j)) < charset_entries(s).len()
                &&& charset_entries(s)[j - line_breaks_in(s.take(j))] == s[j]
            } by {
            if j < t.len() {
                assert(s.take(j) =~= t.take(j));
                assert(s[j] == t[j]);
            } else {
                assert(j == t.len());
                assert(keep(x));
            }
        }
    }
}

/// The key table keeps every character of the file except '\n' and '\r', in
/// file order, between a leading blank and a trailing space: it has two more
/// entries than the file has characters other than line breaks, and the
/// character at file position `j` (not a line break) is the key at index
/// 1 + `j` minus the number of line breaks before it.
pub proof fn lemma_charset_keeps_every_character(content: Seq<char>)
    ensures
        charset_of(content).len() == content.len() - line_breaks_in(content) + 2,
        charset_of(content)[0] == ' ',
        charset_of(content)[charset_of(content).len() - 1] == ' ',
        forall|j: int|
            #![trigger content[j]]
            0 <= j < content.len() && content[j] != '\n' && content[j] != '\r' ==> charset_of(
                content,
            )[1 + j - line_breaks_in(content.take(j))] == content[j],
{
    lemma_entry_positions(content);
    assert forall|j: int|
        #![trigger content[j]]
        0 <= j < content.len() && content[j] != '\n' && content[j] != '\r' implies charset_of(
            content,
        )[1 + j - line_breaks_in(content.take(j))] == content[j] by {
        let k = j - line_breaks_in(content.take(j));
        assert(charset_of(content)[1 + k] == charset_entries(content)[k]);
    }
}

/// Builds the key table from the text of a character-set file.
pub fn build_charset(content: &str) -> (keys: Vec<char>)
    ensures
        keys@ == charset_of(content@),
        keys@.len() == content@.len() - line_breaks_in(content@) + 2,
        keys@[0] == ' ',
        keys@[keys@.len() - 1] == ' ',
        forall|j: int|
            #![trigger content@[j]]
            0 <= j < content@.len() && content@[j] != '\n' && content@[j] != '\r' ==> keys@[1 + j
                - line_breaks_in(content@.take(j))] == content@[j],
{
    let mut keys: Vec<char> = Vec::new();
    keys.push(' ');
    for c in it: content.chars()
        invariant
            keys@ == seq![' '] + charset_entries(it.seq().take(it.index() as int)),
    {
        proof {
            let prefix = it.seq().take(it.index() as int);
            let next = it.seq().take(it.index() + 1);
            assert(next.drop_last() =~= prefix);
            reveal_with_fuel(Seq::filter, 2);
        }
        if c != '\n' && c != '\r' {
            keys.push(c);
        }
    }
    keys.push(' ');
    proof {
        assert(keys@ == charset_of(content@));
        lemma_charset_keeps_every_character(content@);
        assert forall|j: int|
            #![trigger content@[j]]
            0 <= j < content@.len() && content@[j] != '\n' && content@[j] != '\r' implies keys@[1 + j
                - line_breaks_in(content@.take(j))] == content@[j] by {
            assert(charset_of(content@)[1 + j - line_breaks_in(content@.take(j))] == content@[j]);
        }
    }
    keys
}

/// The key table starts with the blank, ends with a space, holds every other
/// character of the file in order, and holds no line break.
pub proof fn lemma_charset_shape(content: Seq<char>)
    ensures
        charset_of(content)[0] == ' ',
        charset_of(content).last() == ' ',
        charset_of(content).len() == charset_entries(content).len() + 2,
        forall|i: int| 0 <= i < charset_of(content).len() ==> !is_line_break(#[trigger] charset_of(content)[i]),
{
    let keep = |c: char| !is_line_break(c);
    assert forall|i: int| 0 <= i < charset_of(content).len() implies !is_line_break(
        #[trigger] charset_of(content)[i],
    ) by {
        if 0 < i < charset_of(content).len() - 1 {
            assert(charset_of(content)[i] == charset_entries(content)[i - 1]);
            content.lemma_filter_pred(keep, i - 1);
        }
    }
}

/// Builds the key table from the raw bytes of a character-set file. The bytes
/// must be UTF-8; otherwise the result is an `IoError`.
pub fn charset_from_bytes(bytes: &[u8]) -> (r: OcrResult<Vec<char>>)
    ensures
        r is Ok <==> valid_utf8(bytes@),
        r matches Ok(keys) ==> keys@ == charset_of(decode_utf8(bytes@)),
        r matches Err(e) ==> e is IoError,
{
    match str_from_utf8(bytes) {
        Ok(content) => {
            proof {
                encode_utf8_decode_utf8(content@);
            }
            Ok(build_charset(content))
        },
        Err(e) => Err(OcrError::IoError(e.to_string())),
    }
}

} // verus!
