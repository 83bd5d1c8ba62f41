use vstd::prelude::*;
use vstd::string::StringSliceAdditionalSpecFns;
use vstd::utf8::*;

verus! {

/// The value of an ASCII hexadecimal digit (`0-9`, `a-f`, `A-F`), if `b` is one.
pub open spec fn hex_value(b: u8) -> Option<u8> {
    if 48 <= b <= 57 {
        Some((b - 48) as u8)
    } else if 97 <= b <= 102 {
        Some((b - 87) as u8)
    } else if 65 <= b <= 70 {
        Some((b - 55) as u8)
    } else {
        None
    }
}

/// Percent-decoding of a byte string: every `%` followed by two hexadecimal
/// digits becomes the byte those digits denote; every other byte, a `%`
/// without two hexadecimal digits after it included, is kept.
pub open spec fn percent_decoded(s: Seq<u8>) -> Seq<u8>
    decreases s.len(),
{
    if s.len() == 0 {
        Seq::empty()
    } else if s[0] == 37u8 && s.len() >= 3 && hex_value(s[1]) is Some && hex_value(s[2]) is Some {
        seq![(hex_value(s[1])->0 * 16 + hex_value(s[2])->0) as u8] + percent_decoded(s.skip(3))
    } else {
        seq![s[0]] + percent_decoded(s.drop_first())
    }
}

/// The text that `String::from_utf8_lossy` makes of a byte string: the
/// UTF-8 decoding where the bytes are well formed, with U+FFFD in place of
/// each ill-formed sequence.
pub uninterp spec fn lossy_utf8(bytes: Seq<u8>) -> Seq<char>;

/// The text of one percent-encoded component: its bytes percent-decoded,
/// then read as UTF-8 lossily.
pub open spec fn decode_component(bytes: Seq<u8>) -> Seq<char> {
    lossy_utf8(percent_decoded(bytes))
}

/// The decoded text of a percent-encoded string.
pub open spec fn decode_text(s: Seq<char>) -> Seq<char> {
    decode_component(encode_utf8(s))
}

/// Calls `percent_encoding::percent_decode` and collects the decoded bytes.
/// Claimed: the bytes are those of `percent_decoded`, which restates the
/// iterator's `next` and `after_percent_sign` in that crate.
#[verifier::external_body]
fn percent_decode_bytes(input: &[u8]) -> (res: Vec<u8>)
    ensures
        res@ == percent_decoded(input@),
{
    percent_encoding::percent_decode(input).collect()
}

/// Calls `String::from_utf8_lossy`. Claimed: the result is the named lossy
/// reading of the bytes, and for well-formed UTF-8 it is exactly its decoding
/// (std documents that only invalid sequences are replaced). What the
/// replacement produces for ill-formed input is left to the name.
#[verifier::external_body]
fn utf8_lossy(bytes: &[u8]) -> (res: String)
    ensures
        res@ == lossy_utf8(bytes@),
        valid_utf8(bytes@) ==> res@ == decode_utf8(bytes@),
{
    String::from_utf8_lossy(bytes).into_owned()
}

/// Decodes a percent-encoded byte string into text.
pub fn percent_decode_slice(input: &[u8]) -> (res: String)
    ensures
        res@ == decode_component(input@),
        valid_utf8(percent_decoded(input@)) ==> res@ == decode_utf8(percent_decoded(input@)),
{
    let bytes = percent_decode_bytes(input);
    utf8_lossy(bytes.as_slice())
}

proof fn lemma_encode_scalar_no_percent(v: u32)
    requires
        is_scalar(v),
        v != 37,
    ensures
        forall|i: int| 0 <= i < encode_scalar(v).len() ==> encode_scalar(v)[i] != 37u8,
{
    assert(v <= 0x7F && v != 37 ==> (v & 0x7F) as u8 != 37u8) by (bit_vector);
    assert(forall|x: u8| #[trigger] (0xC0u8 | x) != 37u8) by (bit_vector);
    assert(forall|x: u8| #[trigger] (0xE0u8 | x) != 37u8) by (bit_vector);
    assert(forall|x: u8| #[trigger] (0xF0u8 | x) != 37u8) by (bit_vector);
    assert(forall|x: u8| #[trigger] (0x80u8 | x) != 37u8) by (bit_vector);
}

proof fn lemma_char_not_percent(c: char)
    requires
        c != '%',
    ensures
        c as u32 != 37,
        is_scalar(c as u32),
{
    assert('%' as u32 == 37);
    assert((c as u32) <= 0x10FFFF);
    char_is_scalar(c);
}

proof fn lemma_encode_utf8_no_percent(s: Seq<char>)
    requires
        !s.contains('%'),
    ensures
        forall|i: int| 0 <= i < encode_utf8(s).len() ==> encode_utf8(s)[i] != 37u8,
    decreases s.len(),
{
    if s.len() > 0 {
        let c = s[0];
        assert(c != '%');
        lemma_char_not_percent(c);
        lemma_encode_scalar_no_percent(c as u32);
        assert(!s.drop_first().contains('%')) by {
            if s.drop_first().contains('%') {
                let j = choose|j: int| 0 <= j < s.drop_first().len() && s.drop_first()[j] == '%';
                assert(s[j + 1] == '%');
            }
        }
        lemma_encode_utf8_no_percent(s.drop_first());
        let head = encode_scalar(c as u32);
        let tail = encode_utf8(s.drop_first());
        assert(encode_utf8(s) == head + tail);
        assert forall|i: int| 0 <= i < encode_utf8(s).len() implies encode_utf8(s)[i] != 37u8 by {
            if i < head.len() {
                assert(encode_utf8(s)[i] == head[i]);
            } else {
                assert(encode_utf8(s)[i] == tail[i - head.len()]);
            }
        }
    }
}

proof fn lemma_percent_decoded_plain(b: Seq<u8>)
    requires
        forall|i: int| 0 <= i < b.len() ==> b[i] != 37u8,
    ensures
        percent_decoded(b) == b,
    decreases b.len(),
{
    if b.len() > 0 {
        lemma_percent_decoded_plain(b.drop_first());
        assert(seq![b[0]] + b.drop_first() =~= b);
    }
}

/// Decodes a percent-encoded string: percent-decodes its UTF-8 bytes and
/// reads the result as UTF-8, replacing ill-formed sequences.
pub fn percent_decode(s: &str) -> (res: String)
    ensures
        res@ == decode_text(s@),
        valid_utf8(percent_decoded(s.spec_bytes())) ==> res@ == decode_utf8(
            percent_decoded(s.spec_bytes()),
        ),
        !s@.contains('%') ==> res@ == s@,
{
    proof {
        if !s@.contains('%') {
            lemma_encode_utf8_no_percent(s@);
            lemma_percent_decoded_plain(encode_utf8(s@));
            encode_utf8_valid_utf8(s@);
            encode_utf8_decode_utf8(s@);
        }
    }
    percent_decode_slice(s.as_bytes())
}

} // verus!
