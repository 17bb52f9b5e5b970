//! Text as NVMe and sysfs hand it over: padded, and not always UTF-8.

use vstd::prelude::*;
use vstd::string::StringExecFns;
use vstd::utf8::*;

verus! {

/// What `String::from_utf8_lossy` makes of bytes that are not valid UTF-8:
/// the text with every malformed sequence replaced by U+FFFD.
pub uninterp spec fn utf8_lossy_repair(bytes: Seq<u8>) -> Seq<char>;

/// Whether a character has the Unicode property `White_Space`, which is what
/// `str::trim` removes.
pub uninterp spec fn white_space(c: char) -> bool;

/// The text that a lossy decoder reads from `bytes`: the decoded text where
/// the bytes are valid UTF-8, the repaired text otherwise.
pub open spec fn lossy_text(bytes: Seq<u8>) -> Seq<char> {
    if valid_utf8(bytes) {
        decode_utf8(bytes)
    } else {
        utf8_lossy_repair(bytes)
    }
}

/// `text` without the NUL characters at its end.
pub open spec fn strip_nuls(text: Seq<char>) -> Seq<char>
    decreases text.len(),
{
    if text.len() > 0 && text.last() == '\0' {
        strip_nuls(text.drop_last())
    } else {
        text
    }
}

/// `text` without the whitespace at its start.
pub open spec fn trim_start(text: Seq<char>) -> Seq<char>
    decreases text.len(),
{
    if text.len() > 0 && white_space(text[0]) {
        trim_start(text.skip(1))
    } else {
        text
    }
}

/// `text` without the whitespace at its end.
pub open spec fn trim_end(text: Seq<char>) -> Seq<char>
    decreases text.len(),
{
    if text.len() > 0 && white_space(text.last()) {
        trim_end(text.drop_last())
    } else {
        text
    }
}

/// `text` without the whitespace on either side.
pub open spec fn trimmed(text: Seq<char>) -> Seq<char> {
    trim_end(trim_start(text))
}

/// The text of a fixed-width ASCII field: decoded leniently, then without
/// trailing NULs, then without whitespace on either side.
pub open spec fn ascii_field(bytes: Seq<u8>) -> Seq<char> {
    trimmed(strip_nuls(lossy_text(bytes)))
}

/// The texts of a list of strings.
pub open spec fn texts(strings: Seq<String>) -> Seq<Seq<char>> {
    strings.map_values(|string: String| string@)
}

/// The text of a string that may be missing.
pub open spec fn optional_text(string: Option<String>) -> Option<Seq<char>> {
    match string {
        Some(string) => Some(string@),
        None => None,
    }
}

/// Whether `text` ends in a NUL character.
pub open spec fn ends_in_nul(text: Seq<char>) -> bool {
    text.len() > 0 && text.last() == '\0'
}

/// `String::from_utf8_lossy`, with the result owned. Valid UTF-8 decodes to
/// its text; for anything else the result is the repaired text, of which
/// only the name is known.
#[verifier::external_body]
fn decode_lossy(bytes: &[u8]) -> (text: String)
    ensures
        text@ == lossy_text(bytes@),
        !valid_utf8(bytes@) ==> text@ == utf8_lossy_repair(bytes@),
{
    String::from_utf8_lossy(bytes).into_owned()
}

/// `str::ends_with` for a single character: whether the last character of
/// `text` is `c`.
#[verifier::external_body]
fn ends_with_char(text: &str, c: char) -> (found: bool)
    ensures
        found == (text@.len() > 0 && text@.last() == c),
{
    text.ends_with(c)
}

/// `String::pop` removes the last character and returns it, or returns
/// `None` and leaves an empty string as it is.
pub assume_specification[ String::pop ](text: &mut String) -> (last: Option<char>)
    ensures
        old(text)@.len() == 0 ==> last.is_none() && final(text)@ == old(text)@,
        old(text)@.len() > 0 ==> last == Some(old(text)@.last()) && final(text)@ == old(
            text,
        )@.drop_last(),
;

/// `str::trim` returns the part of the text between its leading and trailing
/// whitespace, where whitespace is the Unicode property `White_Space`: what
/// is left neither starts nor ends with such a character.
pub assume_specification[ str::trim ](text: &str) -> (inner: &str)
    ensures
        inner@ == trimmed(text@),
        inner@.len() > 0 ==> !white_space(inner@[0]) && !white_space(inner@.last()),
;

/// Decodes a space- and NUL-padded ASCII field.
pub fn trim_nvme_ascii(bytes: &[u8]) -> (text: String)
    ensures
        text@ == ascii_field(bytes@),
{
    let mut value = decode_lossy(bytes);
    while ends_with_char(value.as_str(), '\0')
        invariant
            strip_nuls(value@) == strip_nuls(lossy_text(bytes@)),
        decreases value@.len(),
    {
        let _ = value.pop();
    }
    value.as_str().trim().to_owned()
}

/// The characters of `text`, one by one.
pub fn chars_of(text: &str) -> (chars: Vec<char>)
    ensures
        chars@ == text@,
{
    let mut chars: Vec<char> = Vec::new();
    for c in it: text.chars()
        invariant
            chars@ == it.seq().take(it.index() as int),
            it.seq() == text@,
    {
        chars.push(c);
    }
    chars
}

/// The character of a decimal digit.
pub open spec fn digit_char(digit: nat) -> char {
    if digit == 0 {
        '0'
    } else if digit == 1 {
        '1'
    } else if digit == 2 {
        '2'
    } else if digit == 3 {
        '3'
    } else if digit == 4 {
        '4'
    } else if digit == 5 {
        '5'
    } else if digit == 6 {
        '6'
    } else if digit == 7 {
        '7'
    } else if digit == 8 {
        '8'
    } else {
        '9'
    }
}

/// A number written in base ten, without leading zeros.
pub open spec fn decimal_text(number: nat) -> Seq<char>
    decreases number,
{
    if number < 10 {
        seq![digit_char(number)]
    } else {
        decimal_text(number / 10).push(digit_char(number % 10))
    }
}

/// The text of a decimal digit.
fn digit_text(digit: usize) -> (text: &'static str)
    requires
        digit < 10,
    ensures
        text@ == seq![digit_char(digit as nat)],
{
    proof {
        reveal_strlit("0");
        reveal_strlit("1");
        reveal_strlit("2");
        reveal_strlit("3");
        reveal_strlit("4");
        reveal_strlit("5");
        reveal_strlit("6");
        reveal_strlit("7");
        reveal_strlit("8");
        reveal_strlit("9");
    }
    let text: &'static str = if digit == 0 {
        "0"
    } else if digit == 1 {
        "1"
    } else if digit == 2 {
        "2"
    } else if digit == 3 {
        "3"
    } else if digit == 4 {
        "4"
    } else if digit == 5 {
        "5"
    } else if digit == 6 {
        "6"
    } else if digit == 7 {
        "7"
    } else if digit == 8 {
        "8"
    } else {
        "9"
    };
    assert(text@ =~= seq![digit_char(digit as nat)]);
    text
}

/// Appends `number`, written in base ten, to `text`.
pub fn append_decimal(text: &mut String, number: usize)
    ensures
        final(text)@ == old(text)@ + decimal_text(number as nat),
    decreases number,
{
    if number >= 10 {
        append_decimal(text, number / 10);
    }
    let ghost before = text@;
    text.append(digit_text(number % 10));
    proof {
        if number >= 10 {
            assert(before + seq![digit_char((number % 10) as nat)] =~= old(text)@ + decimal_text(
                (number / 10) as nat,
            ).push(digit_char((number % 10) as nat)));
        }
    }
}

/// What `trim_end` returns is a prefix of its argument that does not end in
/// whitespace.
pub proof fn lemma_trim_end_shape(text: Seq<char>)
    ensures
        trim_end(text).len() <= text.len(),
        trim_end(text) == text.take(trim_end(text).len() as int),
        trim_end(text).len() > 0 ==> !white_space(trim_end(text).last()),
    decreases text.len(),
{
    if text.len() > 0 && white_space(text.last()) {
        lemma_trim_end_shape(text.drop_last());
        let inner = trim_end(text.drop_last());
        assert(text.drop_last().take(inner.len() as int) =~= text.take(inner.len() as int));
    } else {
        assert(text.take(text.len() as int) =~= text);
    }
}

/// What `trim_start` returns does not start with whitespace.
pub proof fn lemma_trim_start_shape(text: Seq<char>)
    ensures
        trim_start(text).len() <= text.len(),
        trim_start(text).len() > 0 ==> !white_space(trim_start(text)[0]),
    decreases text.len(),
{
    if text.len() > 0 && white_space(text[0]) {
        lemma_trim_start_shape(text.skip(1));
    }
}

/// Trimmed text has no whitespace at either end, so that trimming it again
/// changes nothing.
pub proof fn lemma_trimmed_is_fixed(text: Seq<char>)
    ensures
        trimmed(text).len() > 0 ==> !white_space(trimmed(text)[0]) && !white_space(
            trimmed(text).last(),
        ),
        trimmed(trimmed(text)) == trimmed(text),
{
    let start = trim_start(text);
    lemma_trim_start_shape(text);
    lemma_trim_end_shape(start);
}

/// `strip_nuls` never lengthens a text, and shortens one that ends in NUL.
pub proof fn lemma_strip_nuls_length(text: Seq<char>)
    ensures
        strip_nuls(text).len() <= text.len(),
        ends_in_nul(text) ==> strip_nuls(text).len() < text.len(),
        !ends_in_nul(strip_nuls(text)),
    decreases text.len(),
{
    if ends_in_nul(text) {
        lemma_strip_nuls_length(text.drop_last());
    }
}

/// Decoding a field, writing the result out as UTF-8 and decoding that again
/// gives the same text exactly when the first result does not end in NUL:
/// whitespace in front of a NUL shields the NUL in the first pass and is gone
/// in the second.
pub proof fn lemma_ascii_field_idempotent(bytes: Seq<u8>)
    ensures
        ascii_field(encode_utf8(ascii_field(bytes))) == ascii_field(bytes) <==> !ends_in_nul(
            ascii_field(bytes),
        ),
{
    let first = ascii_field(bytes);
    encode_utf8_valid_utf8(first);
    encode_utf8_decode_utf8(first);
    assert(lossy_text(encode_utf8(first)) == first);
    lemma_trimmed_is_fixed(strip_nuls(lossy_text(bytes)));
    lemma_strip_nuls_length(first);
    if ends_in_nul(first) {
        let stripped = strip_nuls(first);
        lemma_trim_start_shape(stripped);
        lemma_trim_end_shape(trim_start(stripped));
        assert(trimmed(stripped).len() < first.len());
    } else {
        assert(strip_nuls(first) == first);
    }
}

} // verus!
