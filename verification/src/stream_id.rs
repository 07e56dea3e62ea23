//! Stream identifiers: 16 opaque bytes, presented over JSON surfaces as
//! lowercase hex with dashes stripped. Parsing accepts either case and
//! requires exactly 32 hex digits once dashes are removed.

use crate::text::{trim_back, trim_front, trim_spec, trim_str};
use vstd::prelude::*;
use vstd::string::*;

verus! {

/// Remove every dash.
pub open spec fn strip_dashes(s: Seq<char>) -> Seq<char>
    decreases s.len(),
{
    if s.len() == 0 {
        Seq::empty()
    } else if s.last() == '-' {
        strip_dashes(s.drop_last())
    } else {
        strip_dashes(s.drop_last()).push(s.last())
    }
}

/// The digits a stream-id string is parsed from: trimmed, dashes stripped.
pub open spec fn normalize_stream_id(s: Seq<char>) -> Seq<char> {
    strip_dashes(trim_spec(s))
}

/// Value of one hex digit, either case accepted.
pub open spec fn hex_val(c: char) -> Option<u8> {
    let u = c as u32;
    if 48 <= u && u <= 57 {
        Some((u - 48) as u8)
    } else if 97 <= u && u <= 102 {
        Some((u - 87) as u8)
    } else if 65 <= u && u <= 70 {
        Some((u - 55) as u8)
    } else {
        None
    }
}

/// Every character is a hex digit.
pub open spec fn all_hex(s: Seq<char>) -> bool {
    forall|i: int| 0 <= i < s.len() ==> (#[trigger] hex_val(s[i])) is Some
}

/// The byte written as the hex pair `(c1, c2)`.
pub open spec fn hex_pair_val(c1: char, c2: char) -> u8 {
    (hex_val(c1).unwrap() * 16 + hex_val(c2).unwrap()) as u8
}

/// The bytes written by an even-length string of hex pairs.
pub open spec fn bytes_of_hex(s: Seq<char>) -> Seq<u8> {
    Seq::new((s.len() / 2) as nat, |i: int| hex_pair_val(s[2 * i], s[2 * i + 1]))
}

/// What `parse_stream_id_hex` returns: the 16 bytes exactly when the
/// normalized input is 32 hex digits.
pub open spec fn spec_parse_stream_id(s: Seq<char>) -> Option<Seq<u8>> {
    let n = normalize_stream_id(s);
    if n.len() == 32 && all_hex(n) {
        Some(bytes_of_hex(n))
    } else {
        None
    }
}

/// Lowercase hex digit for a value below 16.
pub open spec fn hex_char(v: u8) -> char {
    if v == 0 {
        '0'
    } else if v == 1 {
        '1'
    } else if v == 2 {
        '2'
    } else if v == 3 {
        '3'
    } else if v == 4 {
        '4'
    } else if v == 5 {
        '5'
    } else if v == 6 {
        '6'
    } else if v == 7 {
        '7'
    } else if v == 8 {
        '8'
    } else if v == 9 {
        '9'
    } else if v == 10 {
        'a'
    } else if v == 11 {
        'b'
    } else if v == 12 {
        'c'
    } else if v == 13 {
        'd'
    } else if v == 14 {
        'e'
    } else {
        'f'
    }
}

/// Lowercase hex rendering of a byte string: two digits per byte.
pub open spec fn spec_stream_id_hex(b: Seq<u8>) -> Seq<char> {
    Seq::new((b.len() * 2) as nat, |i: int| if i % 2 == 0 {
        hex_char(b[i / 2] / 16)
    } else {
        hex_char(b[i / 2] % 16)
    })
}

fn hex_digit_value(c: char) -> (r: Option<u8>)
    ensures
        r == hex_val(c),
{
    let u = c as u32;
    if 48 <= u && u <= 57 {
        Some((u - 48) as u8)
    } else if 97 <= u && u <= 102 {
        Some((u - 87) as u8)
    } else if 65 <= u && u <= 70 {
        Some((u - 55) as u8)
    } else {
        None
    }
}

fn hex_digit_str(v: u8) -> (r: &'static str)
    requires
        v < 16,
    ensures
        r@.len() == 1,
        r@[0] == hex_char(v),
{
    proof {
        reveal_strlit("0");
        reveal_strlit("1");
        reveal_strlit("2");
        reveal_strlit("3");
        reveal_strlit("4");
        reveal_strlit("5");
        reveal_strlit("6");
        reveal_strlit("7");
        reveal_strlit("8");
        reveal_strlit("9");
        reveal_strlit("a");
        reveal_strlit("b");
        reveal_strlit("c");
        reveal_strlit("d");
        reveal_strlit("e");
        reveal_strlit("f");
    }
    if v == 0 {
        "0"
    } else if v == 1 {
        "1"
    } else if v == 2 {
        "2"
    } else if v == 3 {
        "3"
    } else if v == 4 {
        "4"
    } else if v == 5 {
        "5"
    } else if v == 6 {
        "6"
    } else if v == 7 {
        "7"
    } else if v == 8 {
        "8"
    } else if v == 9 {
        "9"
    } else if v == 10 {
        "a"
    } else if v == 11 {
        "b"
    } else if v == 12 {
        "c"
    } else if v == 13 {
        "d"
    } else if v == 14 {
        "e"
    } else {
        "f"
    }
}

/// Parse a stream id from hex text: whitespace is trimmed, dashes are
/// stripped, both cases are accepted, and exactly 32 digits must remain.
pub fn parse_stream_id_hex(input: &str) -> (r: Result<Vec<u8>, String>)
    ensures
        r is Ok <==> spec_parse_stream_id(input@) is Some,
        r matches Ok(v) ==> Some(v@) == spec_parse_stream_id(input@) && v@.len() == 16,
{
    let trimmed = trim_str(input);
    let ghost tr = trimmed@;
    let tn: usize = trimmed.as_str().unicode_len();

    let mut digits: Vec<char> = Vec::new();
    let mut i: usize = 0;
    while i < tn
        invariant
            i <= tn,
            tn == tr.len(),
            tr == trimmed@,
            digits@ == strip_dashes(tr.subrange(0, i as int)),
        decreases tn - i,
    {
        let c = trimmed.as_str().get_char(i);
        proof {
            assert(tr.subrange(0, i + 1).drop_last() =~= tr.subrange(0, i as int));
            assert(tr.subrange(0, i + 1).last() == tr[i as int]);
        }
        if c != '-' {
            digits.push(c);
        }
        i += 1;
    }
    proof {
        assert(tr.subrange(0, tn as int) =~= tr);
        assert(digits@ == normalize_stream_id(input@));
    }

    if digits.len() != 32 {
        return Err(String::from_str("streamId invalido: esperado UUID com 16 bytes."));
    }

    let mut out: Vec<u8> = Vec::new();
    let mut k: usize = 0;
    while k < 16
        invariant
            k <= 16,
            digits@.len() == 32,
            digits@ == normalize_stream_id(input@),
            out@ =~= bytes_of_hex(digits@).subrange(0, k as int),
            forall|j: int| 0 <= j < 2 * k ==> (#[trigger] hex_val(digits@[j])) is Some,
        decreases 16 - k,
    {
        let h1 = hex_digit_value(digits[2 * k]);
        let h2 = hex_digit_value(digits[2 * k + 1]);
        match (h1, h2) {
            (Some(v1), Some(v2)) => {
                assert(v1 < 16 && v2 < 16);
                out.push(v1 * 16 + v2);
                proof {
                    assert(out@ =~= bytes_of_hex(digits@).subrange(0, k + 1));
                }
            },
            _ => {
                return Err(String::from_str("streamId invalido."));
            },
        }
        k += 1;
    }
    proof {
        assert(all_hex(digits@));
        assert(out@ =~= bytes_of_hex(digits@));
    }
    Ok(out)
}

/// Render a stream id as lowercase hex, two digits per byte.
pub fn stream_id_to_hex(stream_id: &Vec<u8>) -> (r: String)
    ensures
        r@ == spec_stream_id_hex(stream_id@),
{
    let mut out = String::new();
    let mut i: usize = 0;
    while i < stream_id.len()
        invariant
            i <= stream_id@.len(),
            out@ =~= spec_stream_id_hex(stream_id@).subrange(0, 2 * i),
        decreases stream_id@.len() - i,
    {
        let b = stream_id[i];
        out.append(hex_digit_str(b / 16));
        out.append(hex_digit_str(b % 16));
        proof {
            assert(out@ =~= spec_stream_id_hex(stream_id@).subrange(0, 2 * (i + 1)));
        }
        i += 1;
    }
    proof {
        assert(out@ =~= spec_stream_id_hex(stream_id@));
    }
    out
}

proof fn lemma_strip_dashes_no_dash(s: Seq<char>)
    requires
        forall|i: int| 0 <= i < s.len() ==> s[i] != '-',
    ensures
        strip_dashes(s) == s,
    decreases s.len(),
{
    if s.len() > 0 {
        lemma_strip_dashes_no_dash(s.drop_last());
        assert(s.drop_last().push(s.last()) =~= s);
    }
}

/// Round trip: the hex rendering of any 16-byte stream id parses back to the
/// same bytes; a rendering has neither dashes nor uppercase, so stripping and
/// case folding leave it unchanged.
pub proof fn lemma_stream_id_hex_roundtrip(id: Seq<u8>)
    requires
        id.len() == 16,
    ensures
        spec_parse_stream_id(spec_stream_id_hex(id)) == Some(id),
{
    let h = spec_stream_id_hex(id);
    assert(h.len() == 32);
    assert forall|i: int| 0 <= i < h.len() implies !crate::text::is_space(#[trigger] h[i]) && h[i]
        != '-' && hex_val(h[i]) is Some by {
        let v = if i % 2 == 0 {
            id[i / 2] / 16
        } else {
            id[i / 2] % 16
        };
        assert(v < 16);
        assert(h[i] == hex_char(v));
    }
    assert(trim_front(h) == h);
    assert(trim_back(h) == h);
    lemma_strip_dashes_no_dash(h);
    assert(normalize_stream_id(h) == h);
    assert(all_hex(h));
    let b = bytes_of_hex(h);
    assert forall|i: int| 0 <= i < 16 implies b[i] == id[i] by {
        let v = id[i];
        assert(h[2 * i] == hex_char(v / 16));
        assert(h[2 * i + 1] == hex_char(v % 16));
        assert(hex_val(hex_char(v / 16)) == Some((v / 16) as u8));
        assert(hex_val(hex_char(v % 16)) == Some((v % 16) as u8));
        assert((v / 16) * 16 + (v % 16) == v);
    }
    assert(b =~= id);
}

} // verus!
