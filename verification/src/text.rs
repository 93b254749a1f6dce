//! The text of a JSON string: escapes resolved, then read as UTF-8.

use crate::error::{malformed, result_view, Error, ErrorView};
use vstd::prelude::*;
use vstd::utf8::{decode_utf8, valid_utf8};

verus! {

/// The value of a hexadecimal digit.
pub open spec fn hex_value(b: u8) -> Option<nat> {
    if 48 <= b <= 57 {
        Some((b - 48) as nat)
    } else if 97 <= b <= 102 {
        Some((b - 87) as nat)
    } else if 65 <= b <= 70 {
        Some((b - 55) as nat)
    } else {
        None
    }
}

/// The number that the four hexadecimal digits of `s` at `at` spell.
pub open spec fn hex4(s: Seq<u8>, at: int) -> Option<nat> {
    if 0 <= at && at + 4 <= s.len() && hex_value(s[at]) is Some && hex_value(s[at + 1]) is Some
        && hex_value(s[at + 2]) is Some && hex_value(s[at + 3]) is Some {
        Some(
            hex_value(s[at])->0 * 4096 + hex_value(s[at + 1])->0 * 256 + hex_value(s[at + 2])->0
                * 16 + hex_value(s[at + 3])->0,
        )
    } else {
        None
    }
}

/// The UTF-8 bytes of the code point `cp`.
pub open spec fn scalar_bytes(cp: nat) -> Seq<u8> {
    if cp < 0x80 {
        seq![cp as u8]
    } else if cp < 0x800 {
        seq![(0xC0 + cp / 64) as u8, (0x80 + cp % 64) as u8]
    } else if cp < 0x10000 {
        seq![(0xE0 + cp / 4096) as u8, (0x80 + (cp / 64) % 64) as u8, (0x80 + cp % 64) as u8]
    } else {
        seq![
            (0xF0 + cp / 262144) as u8,
            (0x80 + (cp / 4096) % 64) as u8,
            (0x80 + (cp / 64) % 64) as u8,
            (0x80 + cp % 64) as u8,
        ]
    }
}

/// The byte that a one-letter escape stands for.
pub open spec fn simple_escape(b: u8) -> Option<u8> {
    if b == 34 || b == 92 || b == 47 {
        Some(b)
    } else if b == 98 {
        Some(8u8)
    } else if b == 102 {
        Some(12u8)
    } else if b == 110 {
        Some(10u8)
    } else if b == 114 {
        Some(13u8)
    } else if b == 116 {
        Some(9u8)
    } else {
        None
    }
}

/// What the escape that starts with the backslash at `i` stands for, and
/// how many bytes it takes. `\u` and four digits name a code point; a high
/// surrogate needs a second `\u` with the low surrogate behind it, and the
/// two name one code point.
pub open spec fn escape_at(s: Seq<u8>, i: int) -> Option<(Seq<u8>, int)> {
    if i < 0 || i + 1 >= s.len() {
        None
    } else if simple_escape(s[i + 1]) is Some {
        Some((seq![simple_escape(s[i + 1])->0], 2))
    } else if s[i + 1] == 117 && hex4(s, i + 2) is Some {
        let hi = hex4(s, i + 2)->0;
        if hi < 0xD800 || hi >= 0xE000 {
            Some((scalar_bytes(hi), 6))
        } else if hi < 0xDC00 && i + 12 <= s.len() && s[i + 6] == 92 && s[i + 7] == 117 && hex4(
            s,
            i + 8,
        ) is Some && 0xDC00 <= hex4(s, i + 8)->0 < 0xE000 {
            let lo = hex4(s, i + 8)->0;
            Some((scalar_bytes((0x10000 + (hi - 0xD800) * 1024 + (lo - 0xDC00)) as nat), 12))
        } else {
            None
        }
    } else {
        None
    }
}

/// The bytes that the escape at `i` stands for.
pub open spec fn escape_bytes(s: Seq<u8>, i: int) -> Seq<u8> {
    match escape_at(s, i) {
        Some((bytes, _)) => bytes,
        None => Seq::empty(),
    }
}

/// The number of bytes that the escape at `i` takes.
pub open spec fn escape_len(s: Seq<u8>, i: int) -> int {
    match escape_at(s, i) {
        Some((_, n)) => n,
        None => 0,
    }
}

/// `head` before what `tail` holds, if it holds anything.
pub open spec fn prepend(head: Seq<u8>, tail: Option<Seq<u8>>) -> Option<Seq<u8>> {
    match tail {
        Some(t) => Some(head + t),
        None => None,
    }
}

/// The bytes that `s` from `i` on stands for, with every escape replaced by
/// what it stands for; nothing if an escape is not one of JSON's.
pub open spec fn unescape_from(s: Seq<u8>, i: int) -> Option<Seq<u8>>
    decreases s.len() - i,
{
    if i < 0 || i >= s.len() {
        Some(Seq::empty())
    } else if s[i] != 92 {
        prepend(seq![s[i]], unescape_from(s, i + 1))
    } else {
        match escape_at(s, i) {
            Some((bytes, n)) => if n > 0 {
                prepend(bytes, unescape_from(s, i + n))
            } else {
                None
            },
            None => None,
        }
    }
}

/// The text of the JSON string whose content is `content`: its escapes
/// resolved and the bytes read as UTF-8. A bad escape or bytes that are not
/// UTF-8 make the request `Malformed`.
pub open spec fn text_of(content: Seq<u8>) -> Result<Seq<char>, ErrorView> {
    match unescape_from(content, 0) {
        Some(bytes) => if valid_utf8(bytes) {
            Ok(decode_utf8(bytes))
        } else {
            Err(malformed())
        },
        None => Err(malformed()),
    }
}

/// `String::from_utf8` of std: the string whose UTF-8 encoding `bytes` is,
/// or, where `bytes` is not UTF-8, the bytes handed back.
#[verifier::external_body]
pub(crate) fn string_from_utf8(bytes: Vec<u8>) -> (text: Result<String, Vec<u8>>)
    ensures
        valid_utf8(bytes@) ==> text is Ok && text->Ok_0@ == decode_utf8(bytes@),
        !valid_utf8(bytes@) ==> text is Err && text->Err_0@ == bytes@,
{
    match String::from_utf8(bytes) {
        Ok(text) => Ok(text),
        Err(err) => Err(err.into_bytes()),
    }
}

/// The value of a hexadecimal digit.
pub fn hex_digit(b: u8) -> (v: Option<u32>)
    ensures
        match v {
            Some(v) => hex_value(b) == Some(v as nat) && v < 16,
            None => hex_value(b) is None,
        },
{
    if 48 <= b && b <= 57 {
        Some((b - 48) as u32)
    } else if 97 <= b && b <= 102 {
        Some((b - 87) as u32)
    } else if 65 <= b && b <= 70 {
        Some((b - 55) as u32)
    } else {
        None
    }
}

/// The number that the four hexadecimal digits at `at` spell.
pub fn read_hex4(content: &[u8], at: usize) -> (v: Option<u32>)
    ensures
        match v {
            Some(v) => hex4(content@, at as int) == Some(v as nat) && v < 0x10000,
            None => hex4(content@, at as int) is None,
        },
{
    if content.len() < 4 || at > content.len() - 4 {
        return None;
    }
    match (
        hex_digit(content[at]),
        hex_digit(content[at + 1]),
        hex_digit(content[at + 2]),
        hex_digit(content[at + 3]),
    ) {
        (Some(a), Some(b), Some(c), Some(d)) => Some(a * 4096 + b * 256 + c * 16 + d),
        _ => None,
    }
}

/// Appends the UTF-8 bytes of the code point `cp`.
pub fn push_scalar(buf: &mut Vec<u8>, cp: u32)
    requires
        cp < 0x110000,
    ensures
        final(buf)@ == old(buf)@ + scalar_bytes(cp as nat),
{
    if cp < 0x80 {
        buf.push(cp as u8);
    } else if cp < 0x800 {
        buf.push((0xC0 + cp / 64) as u8);
        buf.push((0x80 + cp % 64) as u8);
    } else if cp < 0x10000 {
        buf.push((0xE0 + cp / 4096) as u8);
        buf.push((0x80 + (cp / 64) % 64) as u8);
        buf.push((0x80 + cp % 64) as u8);
    } else {
        buf.push((0xF0 + cp / 262144) as u8);
        buf.push((0x80 + (cp / 4096) % 64) as u8);
        buf.push((0x80 + (cp / 64) % 64) as u8);
        buf.push((0x80 + cp % 64) as u8);
    }
    proof {
        assert(buf@ =~= old(buf)@ + scalar_bytes(cp as nat));
    }
}

/// Appends what the escape at `i` stands for and returns how many bytes the
/// escape takes, or nothing if it is not one of JSON's.
pub fn push_escape(buf: &mut Vec<u8>, content: &[u8], i: usize) -> (taken: Option<usize>)
    requires
        i < content.len(),
    ensures
        match taken {
            Some(n) => escape_at(content@, i as int) is Some && n == escape_len(
                content@,
                i as int,
            ) && final(buf)@ == old(buf)@ + escape_bytes(content@, i as int) && 2 <= n && i + n
                <= content.len(),
            None => escape_at(content@, i as int) is None,
        },
{
    let len = content.len();
    if len - i < 2 {
        return None;
    }
    let b = content[i + 1];
    if b == 34 || b == 92 || b == 47 || b == 98 || b == 102 || b == 110 || b == 114 || b == 116 {
        let byte: u8 = if b == 98 {
            8
        } else if b == 102 {
            12
        } else if b == 110 {
            10
        } else if b == 114 {
            13
        } else if b == 116 {
            9
        } else {
            b
        };
        buf.push(byte);
        proof {
            assert(buf@ =~= old(buf)@ + seq![byte]);
        }
        return Some(2);
    }
    if b != 117 {
        return None;
    }
    let hi = match read_hex4(content, i + 2) {
        Some(hi) => hi,
        None => {
            return None;
        },
    };
    if hi < 0xD800 || hi >= 0xE000 {
        push_scalar(buf, hi);
        return Some(6);
    }
    if hi >= 0xDC00 || len - i < 12 || content[i + 6] != 92 || content[i + 7] != 117 {
        return None;
    }
    match read_hex4(content, i + 8) {
        Some(lo) => {
            if 0xDC00 <= lo && lo < 0xE000 {
                push_scalar(buf, 0x10000 + (hi - 0xD800) * 1024 + (lo - 0xDC00));
                Some(12)
            } else {
                None
            }
        },
        None => None,
    }
}

/// Putting `a` before what has `b` before it puts `a` and then `b` before
/// it.
proof fn lemma_prepend_assoc(a: Seq<u8>, b: Seq<u8>, tail: Option<Seq<u8>>)
    ensures
        prepend(a, prepend(b, tail)) == prepend(a + b, tail),
{
    if tail is Some {
        assert(a + (b + tail->0) =~= (a + b) + tail->0);
    }
}

/// The bytes that `content` stands for, with its escapes resolved.
pub fn unescape(content: &[u8]) -> (bytes: Option<Vec<u8>>)
    ensures
        match bytes {
            Some(b) => unescape_from(content@, 0) == Some(b@),
            None => unescape_from(content@, 0) is None,
        },
{
    let len = content.len();
    let mut buf: Vec<u8> = Vec::new();
    let mut i: usize = 0;
    proof {
        let whole = unescape_from(content@, 0);
        if whole is Some {
            assert(Seq::<u8>::empty() + whole->0 =~= whole->0);
        }
    }
    while i < len
        invariant
            i <= len,
            len == content.len(),
            unescape_from(content@, 0) == prepend(buf@, unescape_from(content@, i as int)),
        decreases len - i,
    {
        let b = content[i];
        let ghost before = buf@;
        if b != 92 {
            buf.push(b);
            proof {
                lemma_prepend_assoc(before, seq![b], unescape_from(content@, i + 1));
                assert(buf@ =~= before + seq![b]);
            }
            i = i + 1;
        } else {
            match push_escape(&mut buf, content, i) {
                Some(n) => {
                    proof {
                        lemma_prepend_assoc(
                            before,
                            escape_bytes(content@, i as int),
                            unescape_from(content@, i + n),
                        );
                    }
                    i = i + n;
                },
                None => {
                    return None;
                },
            }
        }
    }
    proof {
        assert(buf@ + Seq::<u8>::empty() =~= buf@);
    }
    Some(buf)
}

/// The text of the JSON string whose content is `content`.
pub fn decode_text(content: &[u8]) -> (text: Result<String, Error>)
    ensures
        result_view(text) == text_of(content@),
{
    match unescape(content) {
        Some(bytes) => match string_from_utf8(bytes) {
            Ok(text) => Ok(text),
            Err(_) => Err(Error::malformed()),
        },
        None => Err(Error::malformed()),
    }
}

} // verus!
