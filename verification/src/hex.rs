//! Decoding of the hex-encoded redirect address that the login page hands back.
//!
//! The text is read two bytes at a time; each pair is parsed as a base-16 `u8`
//! and the resulting bytes are read as UTF-8.
use vstd::prelude::*;
use vstd::utf8::*;
use vstd::string::{to_string_from_display_ensures, StringSliceAdditionalSpecFns};
use std::num::{IntErrorKind, ParseIntError};

verus! {

broadcast use vstd::utf8::group_utf8_lib;

#[verifier::external_type_specification]
#[verifier::external_body]
pub struct ExParseIntError(ParseIntError);

/// The value of one base-16 digit byte (`0-9`, `a-f`, `A-F`).
pub open spec fn hex_digit_value(b: u8) -> Option<nat> {
    if 48 <= b <= 57 {
        Some((b - 48) as nat)
    } else if 97 <= b <= 102 {
        Some((b - 87) as nat)
    } else if 65 <= b <= 70 {
        Some((b - 55) as nat)
    } else {
        None
    }
}

/// The value of a run of base-16 digits, most significant first.
pub open spec fn hex_digits_value(digits: Seq<u8>) -> Option<nat>
    decreases digits.len(),
{
    if digits.len() == 0 {
        Some(0)
    } else {
        match (hex_digits_value(digits.drop_last()), hex_digit_value(digits.last())) {
            (Some(high), Some(low)) => Some(high * 16 + low),
            _ => None,
        }
    }
}

/// What `u8::from_str_radix(text, 16)` accepts, as its documentation puts it: an
/// optional `+` followed by one or more base-16 digits whose value fits in a `u8`.
pub open spec fn parse_hex_u8(text: Seq<u8>) -> Option<u8> {
    // 43 is the byte of `+`.
    let digits = if text.len() > 0 && text[0] == 43u8 {
        text.drop_first()
    } else {
        text
    };
    if digits.len() == 0 {
        None
    } else {
        match hex_digits_value(digits) {
            Some(v) => if v < 256 {
                Some(v as u8)
            } else {
                None
            },
            None => None,
        }
    }
}

/// How reading a text two bytes at a time ends.
pub enum HexScan {
    /// Every pair was a base-16 byte; these are the bytes, in order.
    Decoded(Seq<u8>),
    /// This pair, which is not a base-16 byte, was met before anything went wrong.
    BadPair(Seq<u8>),
    /// The text cannot be cut into whole pairs at the point reached: an odd
    /// byte is left over, or a pair would end inside a character.
    Unsliceable,
}

/// Puts `prefix` in front of the bytes of a scan that succeeded.
pub open spec fn scan_after(prefix: Seq<u8>, scan: HexScan) -> HexScan {
    match scan {
        HexScan::Decoded(rest) => HexScan::Decoded(prefix + rest),
        other => other,
    }
}

/// Reads the UTF-8 bytes of a text as pairs, front to back, stopping at the first
/// pair that fails.
pub open spec fn hex_scan(bytes: Seq<u8>) -> HexScan
    decreases bytes.len(),
{
    if bytes.len() == 0 {
        HexScan::Decoded(Seq::empty())
    } else if bytes.len() < 2 || !is_char_boundary(bytes, 2) {
        HexScan::Unsliceable
    } else {
        match parse_hex_u8(bytes.subrange(0, 2)) {
            None => HexScan::BadPair(bytes.subrange(0, 2)),
            Some(v) => scan_after(seq![v], hex_scan(bytes.subrange(2, bytes.len() as int))),
        }
    }
}

/// The inputs on which decoding ends without a panic: every pair is read, or a bad
/// pair is met first, and the decoded bytes are valid UTF-8.
pub open spec fn hex_decoding_defined(bytes: Seq<u8>) -> bool {
    match hex_scan(bytes) {
        HexScan::Decoded(decoded) => valid_utf8(decoded),
        HexScan::BadPair(_) => true,
        HexScan::Unsliceable => false,
    }
}

/// What `decode_hex` gives back on an input where it is defined: the text spelled
/// by the decoded bytes, or an error when a pair is not a base-16 byte.
pub open spec fn decode_hex_ok(bytes: Seq<u8>) -> Option<Seq<char>> {
    match hex_scan(bytes) {
        HexScan::Decoded(decoded) => Some(decode_utf8(decoded)),
        _ => None,
    }
}

/// Why an integer parse failed: one variant for each kind that
/// `std::num::IntErrorKind` documents, and `Other` for a kind std may add later.
#[derive(Clone, Copy, PartialEq, Eq, Debug)]
pub enum IntErrorCause {
    Empty,
    InvalidDigit,
    PosOverflow,
    NegOverflow,
    Zero,
    Other,
}

/// A pair of the hex text that is not a base-16 byte: std's parse error, its kind,
/// and the text it displays.
#[derive(Debug)]
pub struct HexError {
    pub cause: IntErrorCause,
    pub error: ParseIntError,
    pub message: String,
}

/// The text that the `ParseIntError` of a failed `u8::from_str_radix(text, 16)`
/// displays.
pub uninterp spec fn int_parse_error_text(text: Seq<u8>) -> Seq<char>;

/// What a `HexError` holds for the pair `pair`: the error that parsing the pair
/// gave, and the text that error displays.
pub open spec fn is_pair_error(e: HexError, pair: Seq<u8>) -> bool {
    &&& e.cause == IntErrorCause::InvalidDigit
    &&& e.message@ == int_parse_error_text(pair)
    &&& to_string_from_display_ensures::<ParseIntError>(&e.error, e.message)
}

/// What the decoding of `bytes` fails with: the error of its first bad pair.
pub open spec fn is_decoding_error(bytes: Seq<u8>, e: HexError) -> bool {
    hex_scan(bytes) matches HexScan::BadPair(pair) && is_pair_error(e, pair)
}

/// Calls `u8::from_str_radix(text, 16)` and, when it fails, reads the error's kind
/// and the text it displays. As its documentation states, it succeeds exactly on an
/// optional `+` followed by base-16 digits whose value fits in a `u8`, and then gives
/// that value. An empty text fails with kind `Empty`; a character that is no digit in
/// its place (a non-digit, a lone `+`) fails with `InvalidDigit`; a value too big
/// fails with `PosOverflow`. The kind is stated only for the empty text and for texts
/// of one or two bytes, which cannot hold a value too big; which of two faults is
/// reported first in a longer text is not documented and is left unsaid. The
/// displayed text is that of the returned error (the `to_string` of vstd), and depends
/// on the parsed text alone; its characters are not documented and are named only.
#[verifier::external_body]
fn u8_from_hex_str(text: &str) -> (r: Result<u8, (ParseIntError, IntErrorCause, String)>)
    ensures
        r is Ok <==> parse_hex_u8(text.spec_bytes()) is Some,
        r matches Ok(v) ==> parse_hex_u8(text.spec_bytes()) == Some(v),
        r matches Err(e) ==> (text.spec_bytes().len() == 0 ==> e.1 == IntErrorCause::Empty),
        r matches Err(e) ==> (1 <= text.spec_bytes().len() <= 2 ==> e.1
            == IntErrorCause::InvalidDigit),
        r matches Err(e) ==> e.2@ == int_parse_error_text(text.spec_bytes()),
        r matches Err(e) ==> to_string_from_display_ensures::<ParseIntError>(&e.0, e.2),
{
    u8::from_str_radix(text, 16).map_err(|e| {
        let cause = match e.kind() {
            IntErrorKind::Empty => IntErrorCause::Empty,
            IntErrorKind::InvalidDigit => IntErrorCause::InvalidDigit,
            IntErrorKind::PosOverflow => IntErrorCause::PosOverflow,
            IntErrorKind::NegOverflow => IntErrorCause::NegOverflow,
            IntErrorKind::Zero => IntErrorCause::Zero,
            _ => IntErrorCause::Other,
        };
        let message = e.to_string();
        (e, cause, message)
    })
}

/// Calls `String::from_utf8(bytes)`: it succeeds exactly when the bytes are valid
/// UTF-8, and the string then holds those very bytes.
#[verifier::external_body]
fn string_from_utf8(bytes: Vec<u8>) -> (r: Option<String>)
    ensures
        r is Some <==> valid_utf8(bytes@),
        r matches Some(s) ==> encode_utf8(s@) == bytes@,
{
    String::from_utf8(bytes).ok()
}

/// How cutting a text into pairs ended, as the program sees it.
enum PairScan {
    Bytes(Vec<u8>),
    Bad(HexError),
    Unsliceable,
}

/// Reads `s` two bytes at a time, front to back, and stops at the first pair that
/// cannot be cut out or is not a base-16 byte.
fn scan_pairs(s: &str) -> (r: PairScan)
    ensures
        r matches PairScan::Bytes(b) ==> hex_scan(s.spec_bytes()) == HexScan::Decoded(b@),
        r matches PairScan::Bad(e) ==> is_decoding_error(s.spec_bytes(), e),
        r is Unsliceable ==> hex_scan(s.spec_bytes()) == HexScan::Unsliceable,
{
    let ghost bytes = s.spec_bytes();
    let mut rest: &str = s;
    let mut out: Vec<u8> = Vec::new();
    proof {
        lemma_scan_after_empty(hex_scan(bytes));
    }
    while !rest.is_empty()
        invariant
            bytes == s.spec_bytes(),
            hex_scan(bytes) == scan_after(out@, hex_scan(rest.spec_bytes())),
        decreases rest.spec_bytes().len(),
    {
        let ghost rb = rest.spec_bytes();
        if !rest.is_char_boundary(2) {
            proof {
                assert(hex_scan(rb) == HexScan::Unsliceable);
            }
            return PairScan::Unsliceable;
        }
        let (pair, tail) = rest.split_at(2);
        proof {
            assert(pair.spec_bytes() =~= rb.subrange(0, 2));
            assert(tail.spec_bytes() =~= rb.subrange(2, rb.len() as int));
        }
        match u8_from_hex_str(pair) {
            Ok(v) => {
                proof {
                    assert(hex_scan(rb) == scan_after(seq![v], hex_scan(tail.spec_bytes())));
                    lemma_scan_after_assoc(out@, seq![v], hex_scan(tail.spec_bytes()));
                }
                let ghost before = out@;
                out.push(v);
                proof {
                    assert(out@ =~= before + seq![v]);
                }
                rest = tail;
            },
            Err((error, cause, message)) => {
                proof {
                    assert(hex_scan(rb) == HexScan::BadPair(pair.spec_bytes()));
                }
                return PairScan::Bad(HexError { cause, error, message });
            },
        }
    }
    proof {
        assert(hex_scan(rest.spec_bytes()) == HexScan::Decoded(Seq::empty()));
        assert(out@ + Seq::<u8>::empty() =~= out@);
    }
    PairScan::Bytes(out)
}

/// Decodes a hex string (two digits per byte) into the UTF-8 text it spells, or
/// answers `None` on the inputs where the decoding is not defined: the pairs cannot
/// be cut out before a bad one is met, or the decoded bytes are not UTF-8.
///
/// The first pair that is not a base-16 byte gives its parse error, whose kind is
/// then always an invalid digit, with the text it displays.
pub fn decode_hex_checked(s: &str) -> (r: Option<Result<String, HexError>>)
    ensures
        r is None <==> !hex_decoding_defined(s.spec_bytes()),
        r matches Some(res) ==> (res is Ok <==> decode_hex_ok(s.spec_bytes()) is Some),
        r matches Some(res) ==> (res matches Ok(text) ==> decode_hex_ok(s.spec_bytes()) == Some(
            text@,
        )),
        r matches Some(res) ==> (res matches Err(e) ==> is_decoding_error(s.spec_bytes(), e)),
{
    match scan_pairs(s) {
        PairScan::Bytes(decoded) => {
            match string_from_utf8(decoded) {
                Some(text) => {
                    proof {
                        assert(text@ == decode_utf8(encode_utf8(text@)));
                    }
                    Some(Ok(text))
                },
                None => None,
            }
        },
        PairScan::Bad(e) => Some(Err(e)),
        PairScan::Unsliceable => None,
    }
}

/// Decodes a hex string (two digits per byte) into the UTF-8 text it spells.
///
/// The first pair that is not a base-16 byte gives its parse error, whose kind is
/// then always an invalid digit, with the text it displays. The caller must not hand in a text on which the
/// pairs cannot be cut out, or whose decoded bytes are not UTF-8;
/// `decode_hex_checked` answers `None` there instead.
pub fn decode_hex(s: &str) -> (r: Result<String, HexError>)
    requires
        hex_decoding_defined(s.spec_bytes()),
    ensures
        r is Ok <==> decode_hex_ok(s.spec_bytes()) is Some,
        r matches Ok(text) ==> decode_hex_ok(s.spec_bytes()) == Some(text@),
        r matches Err(e) ==> is_decoding_error(s.spec_bytes(), e),
{
    decode_hex_checked(s).unwrap()
}

/// The base-16 digit character for `n` (below 16), in lower or upper case.
pub open spec fn hex_digit_char(n: nat, upper: bool) -> char {
    if n < 10 {
        (48 + n) as char
    } else if upper {
        (55 + n) as char
    } else {
        (87 + n) as char
    }
}

/// The hex spelling of a byte sequence: two digits per byte, high digit first.
pub open spec fn hex_encode(bytes: Seq<u8>, upper: bool) -> Seq<char>
    decreases bytes.len(),
{
    if bytes.len() == 0 {
        Seq::empty()
    } else {
        seq![hex_digit_char((bytes[0] / 16) as nat, upper), hex_digit_char((bytes[0] % 16) as nat, upper)]
            + hex_encode(bytes.drop_first(), upper)
    }
}

proof fn lemma_hex_encode_ascii(bytes: Seq<u8>, upper: bool)
    ensures
        is_ascii_chars(hex_encode(bytes, upper)),
        hex_encode(bytes, upper).len() == 2 * bytes.len(),
    decreases bytes.len(),
{
    if bytes.len() > 0 {
        lemma_hex_encode_ascii(bytes.drop_first(), upper);
        let h = hex_encode(bytes, upper);
        let tail = hex_encode(bytes.drop_first(), upper);
        assert forall|i| 0 <= i < h.len() implies '\0' <= #[trigger] h[i] <= '\u{7f}' by {
            if i >= 2 {
                assert(h[i] == tail[i - 2]);
            }
        }
    }
}

proof fn lemma_scan_of_hex_encoding(bytes: Seq<u8>, upper: bool)
    ensures
        hex_scan(encode_utf8(hex_encode(bytes, upper))) == HexScan::Decoded(bytes),
    decreases bytes.len(),
{
    let h = hex_encode(bytes, upper);
    let e = encode_utf8(h);
    if bytes.len() == 0 {
        assert(e =~= Seq::<u8>::empty());
        assert(bytes =~= Seq::<u8>::empty());
    } else {
        let tail = hex_encode(bytes.drop_first(), upper);
        lemma_hex_encode_ascii(bytes, upper);
        lemma_hex_encode_ascii(bytes.drop_first(), upper);
        is_ascii_chars_encode_utf8(h);
        is_ascii_chars_encode_utf8(tail);
        lemma_scan_of_hex_encoding(bytes.drop_first(), upper);
        let b0 = bytes[0];
        let hi = (b0 / 16) as nat;
        let lo = (b0 % 16) as nat;
        assert(h[0] == hex_digit_char(hi, upper));
        assert(h[1] == hex_digit_char(lo, upper));
        assert(e.subrange(2, e.len() as int) =~= encode_utf8(tail)) by {
            assert forall|i| 0 <= i < tail.len() implies #[trigger] e.subrange(
                2,
                e.len() as int,
            )[i] == encode_utf8(tail)[i] by {
                assert(h[i + 2] == tail[i]);
            }
        }
        let pair = e.subrange(0, 2);
        assert(pair[0] == h[0] as u8);
        assert(pair[1] == h[1] as u8);
        assert(hex_digit_value(pair[0]) == Some(hi));
        assert(hex_digit_value(pair[1]) == Some(lo));
        assert(pair.drop_last() =~= seq![pair[0]]);
        assert(seq![pair[0]].drop_last() =~= Seq::<u8>::empty());
        assert(hex_digits_value(Seq::<u8>::empty()) == Some(0nat));
        assert(seq![pair[0]].last() == pair[0]);
        assert(hex_digits_value(seq![pair[0]]) == Some(hi));
        assert(pair.last() == pair[1]);
        assert(hex_digits_value(pair) == Some(hi * 16 + lo));
        assert(parse_hex_u8(pair) == Some(b0));
        assert(is_char_boundary(e, 2)) by {
            encode_utf8_valid_utf8(h);
            if e.len() == 2 {
                is_char_boundary_start_end_of_seq(e);
            } else {
                assert(e[2] == h[2] as u8);
                is_char_boundary_iff_not_is_continuation_byte(e, 2);
            }
        }
        assert(e.len() == 2 * bytes.len());
        assert(hex_scan(e) == scan_after(seq![b0], hex_scan(e.subrange(2, e.len() as int))));
        assert(hex_scan(e) == scan_after(seq![b0], HexScan::Decoded(bytes.drop_first())));
        assert(seq![b0] + bytes.drop_first() =~= bytes);
        assert(scan_after(seq![b0], HexScan::Decoded(bytes.drop_first())) == HexScan::Decoded(
            bytes,
        ));
    }
}

/// Law: decoding the hex spelling (in either case) of any text's UTF-8 bytes is
/// defined and gives the text back.
pub proof fn lemma_decode_hex_inverts_encoding(text: Seq<char>, upper: bool)
    ensures
        hex_decoding_defined(encode_utf8(hex_encode(encode_utf8(text), upper))),
        decode_hex_ok(encode_utf8(hex_encode(encode_utf8(text), upper))) == Some(text),
{
    lemma_scan_of_hex_encoding(encode_utf8(text), upper);
    encode_utf8_valid_utf8(text);
    encode_utf8_decode_utf8(text);
}

proof fn lemma_encode_utf8_concat(x: Seq<char>, y: Seq<char>)
    ensures
        encode_utf8(x + y) == encode_utf8(x) + encode_utf8(y),
    decreases x.len(),
{
    if x.len() == 0 {
        assert(x + y =~= y);
        assert(encode_utf8(x) =~= Seq::<u8>::empty());
        assert(Seq::<u8>::empty() + encode_utf8(y) =~= encode_utf8(y));
    } else {
        lemma_encode_utf8_concat(x.drop_first(), y);
        assert((x + y)[0] == x[0]);
        assert((x + y).drop_first() =~= x.drop_first() + y);
        let head = encode_scalar(x[0] as u32);
        assert(head + (encode_utf8(x.drop_first()) + encode_utf8(y)) =~= (head + encode_utf8(
            x.drop_first(),
        )) + encode_utf8(y));
    }
}

/// Scanning `first` and then `second` goes as scanning `first` and going on into
/// `second`, when the scan of `first` succeeds.
proof fn lemma_scan_concat(first: Seq<u8>, second: Seq<u8>, decoded: Seq<u8>)
    requires
        valid_utf8(first),
        valid_utf8(second),
        hex_scan(first) == HexScan::Decoded(decoded),
    ensures
        hex_scan(first + second) == scan_after(decoded, hex_scan(second)),
    decreases first.len(),
{
    let whole = first + second;
    if first.len() == 0 {
        assert(whole =~= second);
        assert(decoded =~= Seq::<u8>::empty());
        lemma_scan_after_empty(hex_scan(second));
    } else {
        let v = parse_hex_u8(first.subrange(0, 2)).unwrap();
        let rest = first.subrange(2, first.len() as int);
        let rest_decoded = hex_scan(rest)->Decoded_0;
        assert(hex_scan(rest) == HexScan::Decoded(rest_decoded));
        assert(decoded == seq![v] + rest_decoded);
        valid_utf8_split(first, 2);
        lemma_scan_concat(rest, second, rest_decoded);
        valid_utf8_concat(first, second);
        assert(whole.subrange(0, 2) =~= first.subrange(0, 2));
        assert(whole.subrange(2, whole.len() as int) =~= rest + second);
        assert(is_char_boundary(whole, 2)) by {
            if first.len() == 2 {
                if second.len() == 0 {
                    assert(whole =~= first);
                } else {
                    is_char_boundary_start_end_of_seq(second);
                    is_char_boundary_iff_not_is_continuation_byte(second, 0);
                    assert(whole[2] == second[0]);
                    is_char_boundary_iff_not_is_continuation_byte(whole, 2);
                }
            } else {
                is_char_boundary_iff_not_is_continuation_byte(first, 2);
                assert(whole[2] == first[2]);
                is_char_boundary_iff_not_is_continuation_byte(whole, 2);
            }
        }
        assert(hex_scan(whole) == scan_after(seq![v], hex_scan(rest + second)));
        lemma_scan_after_assoc(seq![v], rest_decoded, hex_scan(second));
    }
}

/// Law: when two texts both decode, their concatenation decodes, to the
/// concatenation of what they decode to.
pub proof fn lemma_decode_hex_concat(a: Seq<char>, b: Seq<char>)
    requires
        hex_decoding_defined(encode_utf8(a)),
        decode_hex_ok(encode_utf8(a)) is Some,
        hex_decoding_defined(encode_utf8(b)),
        decode_hex_ok(encode_utf8(b)) is Some,
    ensures
        hex_decoding_defined(encode_utf8(a + b)),
        decode_hex_ok(encode_utf8(a + b)) == Some(
            decode_hex_ok(encode_utf8(a)).unwrap() + decode_hex_ok(encode_utf8(b)).unwrap(),
        ),
{
    let ea = encode_utf8(a);
    let eb = encode_utf8(b);
    let da = hex_scan(ea)->Decoded_0;
    let db = hex_scan(eb)->Decoded_0;
    lemma_encode_utf8_concat(a, b);
    lemma_scan_concat(ea, eb, da);
    assert(hex_scan(encode_utf8(a + b)) == HexScan::Decoded(da + db));
    valid_utf8_concat(da, db);
    let x = decode_utf8(da);
    let y = decode_utf8(db);
    decode_utf8_encode_utf8(da);
    decode_utf8_encode_utf8(db);
    lemma_encode_utf8_concat(x, y);
    assert(encode_utf8(x + y) == da + db);
    encode_utf8_decode_utf8(x + y);
}

proof fn lemma_scan_after_empty(scan: HexScan)
    ensures
        scan_after(Seq::empty(), scan) == scan,
{
    match scan {
        HexScan::Decoded(rest) => {
            assert(Seq::<u8>::empty() + rest =~= rest);
        },
        _ => {},
    }
}

proof fn lemma_scan_after_assoc(a: Seq<u8>, b: Seq<u8>, scan: HexScan)
    ensures
        scan_after(a, scan_after(b, scan)) == scan_after(a + b, scan),
{
    match scan {
        HexScan::Decoded(rest) => {
            assert(a + (b + rest) =~= (a + b) + rest);
        },
        _ => {},
    }
}

} // verus!
