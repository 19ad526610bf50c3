use vstd::prelude::*;
use vstd::string::*;

verus! {

/// The bytes that stay as they are in a percent-encoded text: the ASCII
/// letters and digits, and `-`, `.`, `_`, `~`.
pub open spec fn is_unreserved(b: u8) -> bool {
    ||| 48 <= b <= 57
    ||| 65 <= b <= 90
    ||| 97 <= b <= 122
    ||| b == 45
    ||| b == 46
    ||| b == 95
    ||| b == 126
}

/// The upper-case hexadecimal digit for `d`, for `d` below sixteen.
pub open spec fn hex_digit(d: u8) -> char {
    if d < 10 {
        (48 + d) as u8 as char
    } else {
        (55 + d) as u8 as char
    }
}

/// What one byte becomes: itself where it is unreserved, else `%` and its
/// two hexadecimal digits.
pub open spec fn percent_encoded_byte(b: u8) -> Seq<char> {
    if is_unreserved(b) {
        seq![b as char]
    } else {
        seq!['%', hex_digit(b / 16), hex_digit(b % 16)]
    }
}

/// The percent-encoding of a byte sequence.
pub open spec fn percent_encoded(bytes: Seq<u8>) -> Seq<char>
    decreases bytes.len(),
{
    if bytes.len() == 0 {
        Seq::<char>::empty()
    } else {
        percent_encoded(bytes.drop_last()) + percent_encoded_byte(bytes.last())
    }
}

/// Calls `urlencoding::encode`, which percent-encodes every byte of the
/// text's UTF-8 form except the ASCII letters and digits and `-`, `_`, `.`,
/// `~`, and writes the hexadecimal digits in upper case.
#[verifier::external_body]
pub(crate) fn percent_encode(text: &str) -> (encoded: String)
    ensures
        encoded@ == percent_encoded(text.spec_bytes()),
{
    urlencoding::encode(text).into_owned()
}

/// The characters that a percent-encoded text is made of: `%`, and the
/// unreserved ones.
pub open spec fn is_encoded_char(c: char) -> bool {
    c == '%' || (c as u32 <= 127 && is_unreserved(c as u8))
}

/// A percent-encoded text holds `%` and unreserved characters only. So it
/// holds none of the characters that part a web address: no `&`, `=`, `?`,
/// `#`, `/`, `+` and no blank. Whatever the text was, its encoding stays
/// inside the one parameter that it is written into.
pub proof fn lemma_percent_encoded_stays_in_its_parameter(bytes: Seq<u8>)
    ensures
        forall|i: int|
            0 <= i < percent_encoded(bytes).len() ==> is_encoded_char(
                #[trigger] percent_encoded(bytes)[i],
            ),
        forall|i: int|
            0 <= i < percent_encoded(bytes).len() ==> {
                let c = #[trigger] percent_encoded(bytes)[i];
                c != '&' && c != '=' && c != '?' && c != '#' && c != '/' && c != '+' && c != ' '
            },
    decreases bytes.len(),
{
    if bytes.len() > 0 {
        let front = percent_encoded(bytes.drop_last());
        let b = bytes.last();
        let tail = percent_encoded_byte(b);
        lemma_percent_encoded_stays_in_its_parameter(bytes.drop_last());
        assert forall|k: int| 0 <= k < tail.len() implies is_encoded_char(#[trigger] tail[k]) by {
            if !is_unreserved(b) {
                let high = b / 16;
                let low = b % 16;
                assert(is_encoded_char(hex_digit(high)));
                assert(is_encoded_char(hex_digit(low)));
            }
        }
        let all = percent_encoded(bytes);
        assert forall|i: int| 0 <= i < all.len() implies is_encoded_char(#[trigger] all[i]) by {
            if i < front.len() {
                assert(all[i] == front[i]);
            } else {
                assert(all[i] == tail[i - front.len()]);
            }
        }
        assert forall|i: int| 0 <= i < all.len() implies {
            let c = #[trigger] all[i];
            c != '&' && c != '=' && c != '?' && c != '#' && c != '/' && c != '+' && c != ' '
        } by {
            assert(is_encoded_char(all[i]));
        }
    }
}

} // verus!
