//! Percent-encoding of query strings, done by the `urlencoding` crate.

use vstd::prelude::*;

verus! {

/// A byte that percent-encoding keeps as it is: an ASCII letter or digit, or one of `-` `.` `_` `~`.
pub open spec fn is_unreserved(b: u8) -> bool {
    ||| (48 <= b && b <= 57)
    ||| (65 <= b && b <= 90)
    ||| (97 <= b && b <= 122)
    ||| b == 45
    ||| b == 46
    ||| b == 95
    ||| b == 126
}

/// The upper-case hexadecimal digit for `d` (below 16).
pub open spec fn hex_upper(d: int) -> char {
    seq!['0', '1', '2', '3', '4', '5', '6', '7', '8', '9', 'A', 'B', 'C', 'D', 'E', 'F'][d]
}

/// How one byte is written: itself when unreserved, else `%` and two upper-case hex digits.
pub open spec fn percent_encode_byte(b: u8) -> Seq<char> {
    if is_unreserved(b) {
        seq![b as char]
    } else {
        seq!['%', hex_upper(b as int / 16), hex_upper(b as int % 16)]
    }
}

/// The percent-encoding of `bytes`, byte by byte.
pub open spec fn percent_encode(bytes: Seq<u8>) -> Seq<char>
    decreases bytes.len(),
{
    if bytes.len() == 0 {
        Seq::empty()
    } else {
        percent_encode(bytes.drop_last()) + percent_encode_byte(bytes.last())
    }
}

/// A character that may stand in a form field's value without ending it: not
/// `&`, `=`, `+`, `#` or a space.
pub open spec fn is_field_safe(c: char) -> bool {
    c != '&' && c != '=' && c != '+' && c != '#' && c != ' '
}

/// The hexadecimal digits are safe in a form field.
proof fn lemma_hex_safe(d: int)
    requires
        0 <= d < 16,
    ensures
        is_field_safe(hex_upper(d)),
{
    let h = seq!['0', '1', '2', '3', '4', '5', '6', '7', '8', '9', 'A', 'B', 'C', 'D', 'E', 'F'];
    assert(h.len() == 16);
    assert(forall|k: int| 0 <= k < 16 ==> is_field_safe(#[trigger] h[k])) by {
        assert(h[0] == '0' && h[1] == '1' && h[2] == '2' && h[3] == '3');
        assert(h[4] == '4' && h[5] == '5' && h[6] == '6' && h[7] == '7');
        assert(h[8] == '8' && h[9] == '9' && h[10] == 'A' && h[11] == 'B');
        assert(h[12] == 'C' && h[13] == 'D' && h[14] == 'E' && h[15] == 'F');
    }
}

/// Percent-encoded text cannot end or split a form field: it holds no `&`, `=`,
/// `+`, `#` or space, whatever the bytes were.
pub proof fn law_percent_encoding_is_field_safe(bytes: Seq<u8>)
    ensures
        forall|i: int| 0 <= i < percent_encode(bytes).len() ==> is_field_safe(
            #[trigger] percent_encode(bytes)[i],
        ),
    decreases bytes.len(),
{
    if bytes.len() > 0 {
        law_percent_encoding_is_field_safe(bytes.drop_last());
        let b = bytes.last();
        let tail = percent_encode_byte(b);
        if is_unreserved(b) {
            assert(is_field_safe(b as char));
        } else {
            lemma_hex_safe(b as int / 16);
            lemma_hex_safe(b as int % 16);
        }
        assert(forall|k: int| 0 <= k < tail.len() ==> is_field_safe(#[trigger] tail[k]));
        let head = percent_encode(bytes.drop_last());
        assert forall|i: int| 0 <= i < percent_encode(bytes).len() implies is_field_safe(
            #[trigger] percent_encode(bytes)[i],
        ) by {
            if i < head.len() {
                assert(percent_encode(bytes)[i] == head[i]);
            } else {
                assert(percent_encode(bytes)[i] == tail[i - head.len()]);
            }
        }
    }
}

/// Calls `urlencoding::encode`, which percent-encodes every byte of the UTF-8 form of
/// `data` except ASCII letters, digits and `-` `.` `_` `~`, writing `%` and two
/// upper-case hexadecimal digits for each other byte.
#[verifier::external_body]
pub(crate) fn url_encode(data: &str) -> (encoded: String)
    ensures
        encoded@ == percent_encode(vstd::utf8::encode_utf8(data@)),
{
    urlencoding::encode(data).into_owned()
}

} // verus!
