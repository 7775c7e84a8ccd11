//! Text helpers: comparing strings, decimal numbers, IPv4 addresses and
//! the text form of device ids.
use vstd::prelude::*;
use vstd::string::StringSliceAdditionalSpecFns;
use vstd::utf8::{decode_utf8, encode_utf8};

verus! {

/// Whether two strings are equal.
pub fn str_eq(a: &str, b: &str) -> (res: bool)
    ensures
        res == (a@ == b@),
{
    let x = a.as_bytes();
    let y = b.as_bytes();
    proof {
        vstd::utf8::encode_utf8_decode_utf8(a@);
        vstd::utf8::encode_utf8_decode_utf8(b@);
    }
    if x.len() != y.len() {
        return false;
    }
    let mut i: usize = 0;
    while i < x.len()
        invariant
            0 <= i <= x@.len(),
            x@.len() == y@.len(),
            x@ == a.spec_bytes(),
            y@ == b.spec_bytes(),
            forall|j: int| 0 <= j < i ==> x@[j] == y@[j],
        decreases x@.len() - i,
    {
        if x[i] != y[i] {
            proof {
                if a@ == b@ {
                    assert(x@ == a.spec_bytes());
                    assert(y@ == b.spec_bytes());
                    assert(x@ == y@);
                }
            }
            return false;
        }
        i = i + 1;
    }
    proof {
        assert(x@ =~= y@);
    }
    true
}

/// The lowercase hexadecimal digit of a value below 16.
pub open spec fn hex_digit(v: int) -> char {
    if v < 10 {
        (v + 48) as char
    } else {
        (v + 87) as char
    }
}

/// The lowercase hexadecimal digits of some bytes, two per byte, high first.
pub open spec fn hex_of(b: Seq<u8>) -> Seq<char> {
    Seq::new(
        2 * b.len(),
        |k: int|
            if k % 2 == 0 {
                hex_digit((b[k / 2] / 16) as int)
            } else {
                hex_digit((b[k / 2] % 16) as int)
            },
    )
}

/// The hyphenated lowercase text of a 16-byte id:
/// `xxxxxxxx-xxxx-xxxx-xxxx-xxxxxxxxxxxx`.
pub open spec fn spec_uuid_text(b: Seq<u8>) -> Seq<char> {
    hex_of(b.subrange(0, 4)) + seq!['-'] + hex_of(b.subrange(4, 6)) + seq!['-'] + hex_of(
        b.subrange(6, 8),
    ) + seq!['-'] + hex_of(b.subrange(8, 10)) + seq!['-'] + hex_of(b.subrange(10, 16))
}

/// `uuid::Uuid::from_bytes(bytes).to_string()`: the hyphenated lowercase
/// hexadecimal text of the 16 bytes, in order (the crate's `Display` writes
/// `LowerHex`, which is the hyphenated form).
#[verifier::external_body]
pub fn uuid_from_bytes(bytes: &[u8; 16]) -> (res: String)
    ensures
        res@ == spec_uuid_text(bytes@),
{
    uuid::Uuid::from_bytes(*bytes).to_string()
}

/// The decimal digit of a value below 10.
pub open spec fn digit_char(d: nat) -> char {
    (d + 48) as char
}

/// The decimal text of a number, without leading zeros.
pub open spec fn spec_decimal(n: nat) -> Seq<char>
    decreases n,
{
    if n < 10 {
        seq![digit_char(n)]
    } else {
        spec_decimal(n / 10) + seq![digit_char(n % 10)]
    }
}

/// The one-character text of a decimal digit.
fn digit_str(d: u32) -> (res: &'static str)
    requires
        d < 10,
    ensures
        res@ == seq![digit_char(d as nat)],
{
    proof {
        reveal_strlit("0");
        reveal_strlit("1");
        reveal_strlit("2");
        reveal_strlit("3");
        reveal_strlit("4");
        reveal_strlit("5");
        reveal_strlit("6");
        reveal_strlit("7");
        reveal_strlit("8");
        reveal_strlit("9");
    }
    let res = match d {
        0 => "0",
        1 => "1",
        2 => "2",
        3 => "3",
        4 => "4",
        5 => "5",
        6 => "6",
        7 => "7",
        8 => "8",
        _ => "9",
    };
    proof {
        assert(res@ =~= seq![digit_char(d as nat)]);
    }
    res
}

/// The decimal text of a number.
pub fn decimal(n: u32) -> (res: String)
    ensures
        res@ == spec_decimal(n as nat),
    decreases n,
{
    if n < 10 {
        String::from_str(digit_str(n))
    } else {
        let mut s = decimal(n / 10);
        s.append(digit_str(n % 10));
        s
    }
}

/// The dotted decimal text of an IPv4 address, as `Ipv4Addr` displays it.
pub open spec fn spec_ipv4_text(o: Seq<u8>) -> Seq<char> {
    spec_decimal(o[0] as nat) + seq!['.'] + spec_decimal(o[1] as nat) + seq!['.'] + spec_decimal(
        o[2] as nat,
    ) + seq!['.'] + spec_decimal(o[3] as nat)
}

/// The dotted decimal text of an IPv4 address: `192.168.1.20`.
pub fn ipv4_text(o: [u8; 4]) -> (res: String)
    ensures
        res@ == spec_ipv4_text(o@),
{
    let mut res = decimal(o[0] as u32);
    proof {
        reveal_strlit(".");
    }
    res.append(".");
    let b = decimal(o[1] as u32);
    res.append(b.as_str());
    res.append(".");
    let c = decimal(o[2] as u32);
    res.append(c.as_str());
    res.append(".");
    let d = decimal(o[3] as u32);
    res.append(d.as_str());
    res
}

/// A character with the Unicode `White_Space` property, which is what
/// `char::is_whitespace` and `str::trim` go by.
pub open spec fn is_white_space(c: char) -> bool {
    ||| '\u{0009}' <= c <= '\u{000D}'
    ||| c == ' '
    ||| c == '\u{0085}'
    ||| c == '\u{00A0}'
    ||| c == '\u{1680}'
    ||| '\u{2000}' <= c <= '\u{200A}'
    ||| c == '\u{2028}'
    ||| c == '\u{2029}'
    ||| c == '\u{202F}'
    ||| c == '\u{205F}'
    ||| c == '\u{3000}'
}

/// A text without its leading white space.
pub open spec fn spec_trim_start(s: Seq<char>) -> Seq<char>
    decreases s.len(),
{
    if s.len() > 0 && is_white_space(s[0]) {
        spec_trim_start(s.skip(1))
    } else {
        s
    }
}

/// A text without its trailing white space.
pub open spec fn spec_trim_end(s: Seq<char>) -> Seq<char>
    decreases s.len(),
{
    if s.len() > 0 && is_white_space(s.last()) {
        spec_trim_end(s.drop_last())
    } else {
        s
    }
}

/// A text without its leading and trailing white space.
pub open spec fn spec_trim(s: Seq<char>) -> Seq<char> {
    spec_trim_end(spec_trim_start(s))
}

/// `str::trim`, as an owned string: the text without its leading and
/// trailing characters of the Unicode `White_Space` property (std documents
/// `trim` by that property).
#[verifier::external_body]
pub fn trim_text(s: &str) -> (res: String)
    ensures
        res@ == spec_trim(s@),
{
    s.trim().to_string()
}

/// What `uuid::Uuid::parse_str` makes of a text: the 16 bytes of the id it
/// spells, or `None` when it spells none.
pub uninterp spec fn uuid_parsed(text: Seq<char>) -> Option<Seq<u8>>;

/// `uuid::Uuid::parse_str(text)`, as bytes. The crate accepts several
/// spellings (simple, hyphenated, braced, URN, either case); which texts
/// beyond the hyphenated form it reads, and how, is left to `uuid_parsed`.
/// Claimed: the result is `uuid_parsed` of the text, and a text in the
/// hyphenated lowercase form of some bytes parses to those bytes.
#[verifier::external_body]
pub fn parse_uuid(text: &str) -> (res: Option<[u8; 16]>)
    ensures
        res is Some <==> uuid_parsed(text@) is Some,
        res matches Some(b) ==> uuid_parsed(text@) == Some(b@),
        res is None ==> forall|b: Seq<u8>| b.len() == 16 ==> #[trigger] spec_uuid_text(b) != text@,
        res matches Some(r) ==> forall|b: Seq<u8>|
            b.len() == 16 && #[trigger] spec_uuid_text(b) == text@ ==> r@ == b,
{
    match uuid::Uuid::parse_str(text) {
        Ok(u) => Some(u.into_bytes()),
        Err(_) => None,
    }
}

/// `uuid::Uuid::new_v4().into_bytes()`: random bytes with the version nibble
/// (high half of byte 6) set to 4 and the two top bits of byte 8 set to `10`.
/// Nothing else is claimed of them.
#[verifier::external_body]
fn random_uuid_bytes() -> (res: [u8; 16])
    ensures
        res@[6] / 16 == 4,
        res@[8] / 64 == 2,
{
    uuid::Uuid::new_v4().into_bytes()
}

/// A fresh random (version 4) id, in its hyphenated lowercase text.
pub fn new_uuid_text() -> (res: String)
    ensures
        exists|b: Seq<u8>| b.len() == 16 && b[6] / 16 == 4 && b[8] / 64 == 2 && res@ == spec_uuid_text(b),
{
    let b = random_uuid_bytes();
    uuid_from_bytes(&b)
}

} // verus!
