//! The high-score record codec.  The persisted record is four bytes: two
//! values, each split into a high and a low byte in base 255 (`high =
//! value / 255`, `low = value % 255`).  The split by 255 rather than 256 is
//! kept for compatibility with the on-disk format.  A record of the wrong
//! length decodes to `(0, 0)`; reading and writing the file itself is the
//! caller's business.
//!
//! An older text format, two decimal lines, is also decoded here.

use vstd::prelude::*;
use vstd::string::StrSliceExecFns;
use vstd::string::StringExecFns;

verus! {

/// The high byte of one encoded value.
pub open spec fn spec_hi_byte(v: u32) -> u8 {
    (((v as int) / 255) % 256) as u8
}

/// The low byte of one encoded value.
pub open spec fn spec_lo_byte(v: u32) -> u8 {
    ((v as int) % 255) as u8
}

/// The four-byte record for a `(best typed_chars, best cpm)` pair.
pub open spec fn spec_encode_record(typed: u32, cpm: u32) -> Seq<u8> {
    seq![spec_hi_byte(typed), spec_lo_byte(typed), spec_hi_byte(cpm), spec_lo_byte(cpm)]
}

/// The pair a byte string decodes to: `(0, 0)` unless it is exactly four
/// bytes long.
pub open spec fn spec_decode_record(b: Seq<u8>) -> (u32, u32) {
    if b.len() == 4 {
        ((b[0] * 255 + b[1]) as u32, (b[2] * 255 + b[3]) as u32)
    } else {
        (0u32, 0u32)
    }
}

/// Encodes a high-score pair as its four-byte record.
pub fn encode_highscore(typed: u32, cpm: u32) -> (r: Vec<u8>)
    ensures
        r@ == spec_encode_record(typed, cpm),
{
    let mut v: Vec<u8> = Vec::new();
    v.push(((typed / 255) % 256) as u8);
    v.push((typed % 255) as u8);
    v.push(((cpm / 255) % 256) as u8);
    v.push((cpm % 255) as u8);
    proof {
        assert(v@ =~= spec_encode_record(typed, cpm));
    }
    v
}

/// Decodes a stored record; anything but a four-byte record yields the
/// fresh score `(0, 0)`.
pub fn decode_highscore(bytes: &Vec<u8>) -> (r: (u32, u32))
    ensures
        r == spec_decode_record(bytes@),
{
    if bytes.len() == 4 {
        let a = bytes[0] as u32 * 255 + bytes[1] as u32;
        let b = bytes[2] as u32 * 255 + bytes[3] as u32;
        (a, b)
    } else {
        (0, 0)
    }
}

/// Writing back a well-formed record reproduces it byte for byte: decoding
/// and re-encoding a four-byte record whose low bytes are in range is the
/// identity, so saving what was loaded is a no-op.
pub proof fn lemma_record_round_trip(b: Seq<u8>)
    requires
        b.len() == 4,
        b[1] < 255,
        b[3] < 255,
    ensures
        spec_encode_record(spec_decode_record(b).0, spec_decode_record(b).1) == b,
{
    let t = spec_decode_record(b).0;
    let c = spec_decode_record(b).1;
    assert(t == b[0] * 255 + b[1]);
    assert(c == b[2] * 255 + b[3]);
    assert((t as int) / 255 == b[0]) by (nonlinear_arith)
        requires
            t == b[0] * 255 + b[1],
            0 <= b[0] < 256,
            0 <= b[1] < 255,
    ;
    assert((t as int) % 255 == b[1]) by (nonlinear_arith)
        requires
            t == b[0] * 255 + b[1],
            0 <= b[0] < 256,
            0 <= b[1] < 255,
    ;
    assert((c as int) / 255 == b[2]) by (nonlinear_arith)
        requires
            c == b[2] * 255 + b[3],
            0 <= b[2] < 256,
            0 <= b[3] < 255,
    ;
    assert((c as int) % 255 == b[3]) by (nonlinear_arith)
        requires
            c == b[2] * 255 + b[3],
            0 <= b[2] < 256,
            0 <= b[3] < 255,
    ;
    assert(spec_encode_record(t, c) =~= b);
}

/// Encoding then decoding is the identity on values small enough for their
/// high byte to fit, which covers every value the split can faithfully
/// store.
pub proof fn lemma_value_round_trip(typed: u32, cpm: u32)
    requires
        typed < 65280,
        cpm < 65280,
    ensures
        spec_decode_record(spec_encode_record(typed, cpm)) == (typed, cpm),
{
    assert(spec_encode_record(typed, cpm).len() == 4);
}

/// A decimal digit.
pub open spec fn spec_is_digit(c: char) -> bool {
    '0' <= c && c <= '9'
}

/// The numeric value of one digit character.
pub open spec fn spec_digit(c: char) -> int {
    (c as int) - ('0' as int)
}

/// Every character of the string is a decimal digit.
pub open spec fn spec_all_digits(s: Seq<char>) -> bool {
    forall|i: int| 0 <= i < s.len() ==> spec_is_digit(#[trigger] s[i])
}

/// The value of a digit string read in base ten.
pub open spec fn spec_dec_value(s: Seq<char>) -> int
    decreases s.len(),
{
    if s.len() == 0 {
        0
    } else {
        spec_dec_value(s.drop_last()) * 10 + spec_digit(s.last())
    }
}

/// A digit string's value is never negative.
proof fn lemma_dec_value_nonneg(s: Seq<char>)
    requires
        spec_all_digits(s),
    ensures
        spec_dec_value(s) >= 0,
    decreases s.len(),
{
    if s.len() > 0 {
        assert(spec_all_digits(s.drop_last()));
        lemma_dec_value_nonneg(s.drop_last());
    }
}

/// Extending a digit string never shrinks its value: the value of any
/// prefix bounds the value of the whole string from below.
proof fn lemma_dec_value_prefix(s: Seq<char>, k: int)
    requires
        0 <= k <= s.len(),
        spec_all_digits(s),
    ensures
        spec_dec_value(s.subrange(0, k)) <= spec_dec_value(s),
    decreases s.len() - k,
{
    if k == s.len() {
        assert(s.subrange(0, k) =~= s);
    } else {
        assert(s.subrange(0, k + 1).drop_last() =~= s.subrange(0, k));
        assert(s.subrange(0, k + 1).last() == s[k]);
        assert(spec_all_digits(s.subrange(0, k)));
        lemma_dec_value_nonneg(s.subrange(0, k));
        assert(spec_dec_value(s.subrange(0, k + 1)) >= spec_dec_value(s.subrange(0, k)));
        lemma_dec_value_prefix(s, k + 1);
    }
}

/// What a decimal string parses to: its value when it is non-empty, all
/// digits, and in range for `u32`; nothing otherwise.
pub open spec fn spec_parse_u32(s: Seq<char>) -> Option<u32> {
    if s.len() >= 1 && spec_all_digits(s) && spec_dec_value(s) <= u32::MAX {
        Some(spec_dec_value(s) as u32)
    } else {
        None
    }
}

/// Parses a decimal string, rejecting empty input, any non-digit, and any
/// value too large for `u32`.
pub fn parse_u32(s: &str) -> (r: Option<u32>)
    ensures
        r == spec_parse_u32(s@),
{
    let n = s.unicode_len();
    if n == 0 {
        return None;
    }
    let mut acc: u32 = 0;
    let mut i: usize = 0;
    while i < n
        invariant
            n == s@.len(),
            0 <= i <= n,
            spec_all_digits(s@.subrange(0, i as int)),
            acc == spec_dec_value(s@.subrange(0, i as int)),
        decreases n - i,
    {
        let c = s.get_char(i);
        if c < '0' || c > '9' {
            proof {
                assert(!spec_is_digit(s@[i as int]));
                assert(!spec_all_digits(s@));
            }
            return None;
        }
        let d = (c as u32) - ('0' as u32);
        let limit = (u32::MAX - d) / 10;
        if acc > limit {
            proof {
                assert(10 * ((u32::MAX - d) / 10) + (u32::MAX - d) % 10 == u32::MAX - d);
                assert(10 * acc + d > u32::MAX);
                assert(s@.subrange(0, i + 1).drop_last() =~= s@.subrange(0, i as int));
                assert(s@.subrange(0, i + 1).last() == s@[i as int]);
                assert(spec_dec_value(s@.subrange(0, i + 1)) > u32::MAX);
                if spec_all_digits(s@) {
                    lemma_dec_value_prefix(s@, i + 1);
                    assert(spec_dec_value(s@) > u32::MAX);
                }
            }
            return None;
        }
        proof {
            assert(s@.subrange(0, i + 1).drop_last() =~= s@.subrange(0, i as int));
            assert(s@.subrange(0, i + 1).last() == s@[i as int]);
            assert(spec_all_digits(s@.subrange(0, i + 1)));
        }
        acc = acc * 10 + d;
        i = i + 1;
    }
    proof {
        assert(s@.subrange(0, n as int) =~= s@);
    }
    Some(acc)
}

/// The digit character of one decimal digit value.
pub open spec fn spec_digit_char(d: int) -> char
    recommends
        0 <= d <= 9,
{
    if d == 0 {
        '0'
    } else if d == 1 {
        '1'
    } else if d == 2 {
        '2'
    } else if d == 3 {
        '3'
    } else if d == 4 {
        '4'
    } else if d == 5 {
        '5'
    } else if d == 6 {
        '6'
    } else if d == 7 {
        '7'
    } else if d == 8 {
        '8'
    } else {
        '9'
    }
}

/// The decimal digit string of a value, most significant digit first,
/// without leading zeroes (a single `'0'` for zero).
pub open spec fn spec_u32_digits(v: int) -> Seq<char>
    recommends
        v >= 0,
    decreases v,
{
    if v < 10 {
        seq![spec_digit_char(v)]
    } else {
        spec_u32_digits(v / 10).push(spec_digit_char(v % 10))
    }
}

/// The decimal digit string of a value reads back as that value: it is
/// non-empty, all digits, and its base-ten value is the value itself.
pub proof fn lemma_u32_digits_value(v: int)
    requires
        0 <= v,
    ensures
        spec_u32_digits(v).len() >= 1,
        spec_all_digits(spec_u32_digits(v)),
        spec_dec_value(spec_u32_digits(v)) == v,
    decreases v,
{
    if v < 10 {
        let s = spec_u32_digits(v);
        assert(s.drop_last() =~= Seq::<char>::empty());
        assert(spec_digit(spec_digit_char(v)) == v);
        assert(spec_dec_value(s) == spec_dec_value(s.drop_last()) * 10 + spec_digit(s.last()));
    } else {
        lemma_u32_digits_value(v / 10);
        let s = spec_u32_digits(v);
        assert(s.drop_last() =~= spec_u32_digits(v / 10));
        assert(spec_digit(spec_digit_char(v % 10)) == v % 10);
        assert(spec_digit(s.last()) == v % 10);
        assert forall|i: int| 0 <= i < s.len() implies spec_is_digit(#[trigger] s[i]) by {
            if i < s.len() - 1 {
                assert(s[i] == spec_u32_digits(v / 10)[i]);
            }
        }
    }
}

/// Writes a value as its decimal digit string; parsing the result gives
/// the value back.
pub fn u32_to_decimal(v: u32) -> (r: String)
    ensures
        r@ == spec_u32_digits(v as int),
        spec_parse_u32(r@) == Some(v),
    decreases v,
{
    proof {
        lemma_u32_digits_value(v as int);
    }
    if v < 10 {
        let digit: &str = match v {
            0u32 => "0",
            1u32 => "1",
            2u32 => "2",
            3u32 => "3",
            4u32 => "4",
            5u32 => "5",
            6u32 => "6",
            7u32 => "7",
            8u32 => "8",
            _ => "9",
        };
        proof {
            reveal_strlit("0");
            reveal_strlit("1");
            reveal_strlit("2");
            reveal_strlit("3");
            reveal_strlit("4");
            reveal_strlit("5");
            reveal_strlit("6");
            reveal_strlit("7");
            reveal_strlit("8");
            reveal_strlit("9");
            assert(digit@ =~= spec_u32_digits(v as int));
        }
        digit.to_owned()
    } else {
        let head = u32_to_decimal(v / 10);
        let tail: &str = match v % 10 {
            0u32 => "0",
            1u32 => "1",
            2u32 => "2",
            3u32 => "3",
            4u32 => "4",
            5u32 => "5",
            6u32 => "6",
            7u32 => "7",
            8u32 => "8",
            _ => "9",
        };
        proof {
            reveal_strlit("0");
            reveal_strlit("1");
            reveal_strlit("2");
            reveal_strlit("3");
            reveal_strlit("4");
            reveal_strlit("5");
            reveal_strlit("6");
            reveal_strlit("7");
            reveal_strlit("8");
            reveal_strlit("9");
        }
        let r = head.concat(tail);
        proof {
            assert(r@ =~= spec_u32_digits(v as int));
        }
        r
    }
}

/// What the two-line text format decodes to: the two parsed values when
/// there are exactly two lines and both parse, the fresh score `(0, 0)`
/// otherwise.
pub open spec fn spec_read_highscore(lines: Seq<Seq<char>>) -> (u32, u32) {
    if lines.len() == 2 && spec_parse_u32(lines[0]) is Some && spec_parse_u32(lines[1]) is Some {
        (spec_parse_u32(lines[0])->0, spec_parse_u32(lines[1])->0)
    } else {
        (0u32, 0u32)
    }
}

/// Renders a high-score pair in the two-line text format: each value as
/// its decimal digits, separated by one newline.
pub fn format_highscore_file(h: (u32, u32)) -> (r: String)
    ensures
        r@ == spec_u32_digits(h.0 as int) + "\n"@ + spec_u32_digits(h.1 as int),
{
    let first = u32_to_decimal(h.0);
    let second = u32_to_decimal(h.1);
    let r = first.concat("\n").concat(second.as_str());
    proof {
        assert(r@ =~= spec_u32_digits(h.0 as int) + "\n"@ + spec_u32_digits(h.1 as int));
    }
    r
}

/// Writing a high-score pair in the text format and reading the two lines
/// back yields the pair unchanged.
pub proof fn lemma_text_record_round_trip(a: u32, b: u32)
    ensures
        spec_read_highscore(seq![spec_u32_digits(a as int), spec_u32_digits(b as int)]) == (a, b),
{
    lemma_u32_digits_value(a as int);
    lemma_u32_digits_value(b as int);
}

/// Decodes the older two-line text record: two decimal lines give the two
/// stored values; a missing or malformed record gives `(0, 0)`.
pub fn read_highscore_file(lines: &Vec<String>) -> (r: (u32, u32))
    ensures
        r == spec_read_highscore(lines.deep_view()),
{
    if lines.len() == 2 {
        let a = parse_u32(lines[0].as_str());
        let b = parse_u32(lines[1].as_str());
        match (a, b) {
            (Some(x), Some(y)) => (x, y),
            _ => (0, 0),
        }
    } else {
        (0, 0)
    }
}

} // verus!
