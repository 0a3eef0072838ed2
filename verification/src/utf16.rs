//! UTF-16 as a relation between text and code units.

use vstd::prelude::*;

verus! {

/// The one or two UTF-16 code units of a character.
pub open spec fn utf16_char(c: char) -> Seq<u16> {
    let n = c as u32;
    if n < 0x10000 {
        seq![n as u16]
    } else {
        seq![(0xD800 + (n - 0x10000) / 0x400) as u16, (0xDC00 + (n - 0x10000) % 0x400) as u16]
    }
}

/// The UTF-16 code units of a text.
pub open spec fn utf16_encode(s: Seq<char>) -> Seq<u16>
    decreases s.len(),
{
    if s.len() == 0 {
        Seq::empty()
    } else {
        utf16_char(s[0]) + utf16_encode(s.drop_first())
    }
}

/// The text that a sequence of code units stands for, if it is well-formed
/// UTF-16: every surrogate is half of a pair, high half first.
pub open spec fn utf16_decode(u: Seq<u16>) -> Option<Seq<char>>
    decreases u.len(),
{
    if u.len() == 0 {
        Some(Seq::empty())
    } else if u[0] < 0xD800 || 0xE000 <= u[0] {
        match utf16_decode(u.drop_first()) {
            Some(t) => Some(seq![u[0] as char] + t),
            None => None,
        }
    } else if u[0] < 0xDC00 && u.len() >= 2 && 0xDC00 <= u[1] < 0xE000 {
        match utf16_decode(u.subrange(2, u.len() as int)) {
            Some(t) => Some(
                seq![(0x10000 + (u[0] - 0xD800) * 0x400 + (u[1] - 0xDC00)) as char] + t,
            ),
            None => None,
        }
    } else {
        None
    }
}

/// Decoding the code units of a text gives the text back.
pub proof fn lemma_utf16_roundtrip(s: Seq<char>)
    ensures
        utf16_decode(utf16_encode(s)) == Some(s),
    decreases s.len(),
{
    if s.len() == 0 {
    } else {
        let c = s[0];
        let n = c as u32;
        let rest = s.drop_first();
        let e = utf16_encode(rest);
        let u = utf16_encode(s);
        lemma_utf16_roundtrip(rest);
        assert(u == utf16_char(c) + e);
        vstd::utf8::char_is_scalar(c);
        vstd::utf8::char_u32_cast(c, n);
        if n < 0x10000 {
            assert(u.drop_first() =~= e);
            assert(u[0] == n);
            assert(u[0] as u32 == n);
            assert(u[0] as char == n as char);
            assert(seq![c] + rest =~= s);
        } else {
            let hi = (n - 0x10000) / 0x400;
            let lo = (n - 0x10000) % 0x400;
            assert(u[0] == 0xD800 + hi);
            assert(u[1] == 0xDC00 + lo);
            assert(u.subrange(2, u.len() as int) =~= e);
            assert(0x10000 + (u[0] - 0xD800) * 0x400 + (u[1] - 0xDC00) == n);
            assert((0x10000 + (u[0] - 0xD800) * 0x400 + (u[1] - 0xDC00)) as char == n as char);
            assert(seq![c] + rest =~= s);
        }
    }
}

/// The code units of a text hold a zero only where the text holds the
/// character zero.
pub proof fn lemma_utf16_nul_free(s: Seq<char>)
    requires
        forall|i: int| 0 <= i < s.len() ==> s[i] as u32 != 0,
    ensures
        forall|j: int| 0 <= j < utf16_encode(s).len() ==> utf16_encode(s)[j] != 0,
    decreases s.len(),
{
    if s.len() > 0 {
        let rest = s.drop_first();
        assert forall|i: int| 0 <= i < rest.len() implies rest[i] as u32 != 0 by {
            assert(rest[i] == s[i + 1]);
        }
        lemma_utf16_nul_free(rest);
        let n = s[0] as u32;
        let head = utf16_char(s[0]);
        let tail = utf16_encode(rest);
        assert(n != 0);
        vstd::utf8::char_is_scalar(s[0]);
        assert(utf16_encode(s) == head + tail);
        assert forall|j: int| 0 <= j < head.len() implies head[j] != 0 by {}
        assert forall|j: int| 0 <= j < utf16_encode(s).len() implies utf16_encode(s)[j] != 0 by {
            if j >= head.len() {
                assert(utf16_encode(s)[j] == tail[j - head.len()]);
            }
        }
    }
}

/// Calls `str::encode_utf16` and collects the code units that it yields: the
/// text in UTF-16.
#[verifier::external_body]
pub(crate) fn encode_utf16(s: &str) -> (u: Vec<u16>)
    ensures
        u@ == utf16_encode(s@),
{
    s.encode_utf16().collect()
}

/// Calls `String::from_utf16`, which decodes well-formed UTF-16 and fails on
/// anything else.
#[verifier::external_body]
pub(crate) fn decode_utf16(u: &[u16]) -> (r: Option<String>)
    ensures
        match r {
            Some(s) => utf16_decode(u@) == Some(s@),
            None => utf16_decode(u@) is None,
        },
{
    String::from_utf16(u).ok()
}

} // verus!
