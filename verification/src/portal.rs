//! Turning the location of a captured image into a file path.

use vstd::prelude::*;
use vstd::string::*;
use crate::hex::{digit_value, hex_digit};

verus! {

/// The byte `%`.
pub const PERCENT: u8 = 0x25;

/// What the escape that starts with the `%` at `from` stands for.
pub open spec fn escaped(bytes: Seq<u8>, from: int) -> Seq<char> {
    if from + 2 < bytes.len() {
        match (hex_digit(bytes[from + 1]), hex_digit(bytes[from + 2])) {
            (Some(h), Some(l)) => seq![((h * 16 + l) as u8) as char],
            _ => Seq::empty(),
        }
    } else {
        Seq::empty()
    }
}

/// The text that the bytes from `from` on decode to. A `%` takes the two
/// bytes after it with it: where both are hexadecimal digits the three
/// stand for the character with that code, otherwise for nothing. Any
/// other byte stands for the character with its own code.
pub open spec fn decoded(bytes: Seq<u8>, from: int) -> Seq<char>
    decreases
            if from < bytes.len() {
                bytes.len() - from
            } else {
                0
            },
{
    if from < 0 || from >= bytes.len() {
        Seq::empty()
    } else if bytes[from] == PERCENT {
        escaped(bytes, from) + decoded(bytes, from + 3)
    } else {
        seq![bytes[from] as char] + decoded(bytes, from + 1)
    }
}

/// Appends `c` to `text`.
///
/// Stands for `String::push` of the standard library, which adds the one
/// character at the end and leaves the rest of the string as it was.
#[verifier::external_body]
fn push_char(text: &mut String, c: char)
    ensures
        final(text)@ == old(text)@.push(c),
{
    text.push(c)
}

/// Decodes the percent escapes of the bytes from `from` on.
fn decode_from(bytes: &[u8], from: usize) -> (result: String)
    requires
        from <= bytes@.len(),
    ensures
        result@ == decoded(bytes@, from as int),
{
    let len: usize = bytes.len();
    let mut result = String::new();
    let mut i: usize = from;
    assert(Seq::<char>::empty() + decoded(bytes@, from as int) =~= decoded(bytes@, from as int));
    while i < len
        invariant
            len == bytes@.len(),
            from <= i <= len,
            decoded(bytes@, from as int) == result@ + decoded(bytes@, i as int),
        decreases len - i,
    {
        let b: u8 = bytes[i];
        if b == PERCENT {
            if len - i > 2 {
                let hi = digit_value(bytes[i + 1]);
                let lo = digit_value(bytes[i + 2]);
                match (hi, lo) {
                    (Some(h), Some(l)) => {
                        let ghost before = result@;
                        push_char(&mut result, (h * 16 + l) as char);
                        assert(before.push(((h * 16 + l) as u8) as char) + decoded(
                            bytes@,
                            i as int + 3,
                        ) =~= before + (seq![((h * 16 + l) as u8) as char] + decoded(
                            bytes@,
                            i as int + 3,
                        )));
                    },
                    _ => {
                        assert(Seq::<char>::empty() + decoded(bytes@, i as int + 3) =~= decoded(
                            bytes@,
                            i as int + 3,
                        ));
                    },
                }
                i = i + 3;
            } else {
                assert(escaped(bytes@, i as int) + decoded(bytes@, i as int + 3)
                    =~= Seq::<char>::empty());
                assert(decoded(bytes@, len as int) =~= Seq::<char>::empty());
                i = len;
            }
        } else {
            let ghost before = result@;
            push_char(&mut result, b as char);
            assert(before.push(b as char) + decoded(bytes@, i as int + 1) =~= before + (seq![
                b as char,
            ] + decoded(bytes@, i as int + 1)));
            i = i + 1;
        }
    }
    assert(result@ + Seq::<char>::empty() =~= result@);
    result
}

/// Decodes the percent escapes of `s`, byte by byte; see [`decoded`].
pub fn percent_decode(s: &str) -> (result: String)
    ensures
        result@ == decoded(s.spec_bytes(), 0),
{
    decode_from(s.as_bytes(), 0)
}

/// Whether the bytes start with `file://`.
pub open spec fn has_file_scheme(bytes: Seq<u8>) -> bool {
    &&& bytes.len() >= 7
    &&& bytes[0] == 0x66
    &&& bytes[1] == 0x69
    &&& bytes[2] == 0x6c
    &&& bytes[3] == 0x65
    &&& bytes[4] == 0x3a
    &&& bytes[5] == 0x2f
    &&& bytes[6] == 0x2f
}

/// The file path that a location stands for: what follows `file://`, or
/// the whole location where it does not start so, with the percent
/// escapes decoded.
pub fn path_of_uri(uri: &str) -> (path: String)
    ensures
        path@ == decoded(
            uri.spec_bytes(),
            if has_file_scheme(uri.spec_bytes()) {
                7
            } else {
                0
            },
        ),
{
    let bytes = uri.as_bytes();
    if bytes.len() >= 7 && bytes[0] == 0x66 && bytes[1] == 0x69 && bytes[2] == 0x6c && bytes[3]
        == 0x65 && bytes[4] == 0x3a && bytes[5] == 0x2f && bytes[6] == 0x2f {
        decode_from(bytes, 7)
    } else {
        decode_from(bytes, 0)
    }
}

} // verus!
