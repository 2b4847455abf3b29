use vstd::prelude::*;
use vstd::slice::slice_subrange;
use vstd::utf8::valid_utf8;
use vstd::utf8::valid_first_scalar;
use vstd::utf8::length_of_first_scalar;
use vstd::utf8::pop_first_scalar;
use vstd::utf8::take_first_scalar;
use crate::util::append_bytes;
use crate::util::copy_bytes;

verus! {

/// How the connection cycle treats bytes that are not well-formed
/// UTF-8, and requests that do not parse: strictly (drop the
/// connection without a response) or leniently (patch up and answer
/// best-effort).
#[derive(Debug, Clone, Copy, PartialEq, Eq, Structural)]
pub enum Leniency {
    Strict,
    Lenient,
}

/// Why strict decoding failed.
#[derive(Debug, Clone, Copy, PartialEq, Eq, Structural)]
pub enum DecodeError {
    /// The wire bytes are not well-formed UTF-8.
    InvalidUtf8,
}

/// Lenient replacement: a well-formed scalar encoding is copied
/// through unchanged; at any other position one question mark stands
/// in for one skipped byte.
pub open spec fn lossy_of(s: Seq<u8>) -> Seq<u8>
    decreases s.len(),
{
    if s.len() == 0 {
        Seq::empty()
    } else if valid_first_scalar(s) && 1 <= length_of_first_scalar(s) <= s.len() {
        take_first_scalar(s) + lossy_of(pop_first_scalar(s))
    } else {
        seq![63u8] + lossy_of(s.drop_first())
    }
}

/// Lenient replacement is the identity on well-formed UTF-8: the two
/// decoding behaviors differ only on ill-formed wire bytes.
pub proof fn lemma_lossy_keeps_valid_utf8(s: Seq<u8>)
    requires
        valid_utf8(s),
    ensures
        lossy_of(s) == s,
    decreases s.len(),
{
    if s.len() > 0 {
        lemma_lossy_keeps_valid_utf8(pop_first_scalar(s));
        assert(take_first_scalar(s) + pop_first_scalar(s) =~= s);
    }
}

/// Width of the well-formed scalar encoding starting at `from`, or
/// zero when there is none there.
fn first_scalar_len(s: &[u8], from: usize) -> (r: usize)
    requires
        from < s.len(),
    ensures
        ({
            let t = s@.skip(from as int);
            &&& (r == 0 ==> !valid_first_scalar(t))
            &&& (r != 0 ==> valid_first_scalar(t) && r == length_of_first_scalar(t) && from + r
                <= s.len())
        }),
{
    let b0 = s[from];
    let avail = s.len() - from;
    if b0 <= 0x7f {
        let cp: u32 = (b0 & 0x7f) as u32;
        if 0xd800 <= cp && cp <= 0xdfff {
            return 0;
        }
        return 1;
    }
    if 0xc0 <= b0 && b0 <= 0xdf {
        if avail < 2 || !(0x80 <= s[from + 1] && s[from + 1] <= 0xbf) {
            return 0;
        }
        let cp: u32 = (((b0 & 0x1f) as u32) << 6) | ((s[from + 1] & 0x3f) as u32);
        if cp < 0x80 || (0xd800 <= cp && cp <= 0xdfff) {
            return 0;
        }
        return 2;
    }
    if 0xe0 <= b0 && b0 <= 0xef {
        if avail < 3 || !(0x80 <= s[from + 1] && s[from + 1] <= 0xbf) || !(0x80 <= s[from + 2]
            && s[from + 2] <= 0xbf) {
            return 0;
        }
        let cp: u32 = (((b0 & 0x0f) as u32) << 12) | (((s[from + 1] & 0x3f) as u32) << 6) | ((s[from
            + 2] & 0x3f) as u32);
        if cp < 0x800 || (0xd800 <= cp && cp <= 0xdfff) {
            return 0;
        }
        return 3;
    }
    if 0xf0 <= b0 && b0 <= 0xf7 {
        if avail < 4 || !(0x80 <= s[from + 1] && s[from + 1] <= 0xbf) || !(0x80 <= s[from + 2]
            && s[from + 2] <= 0xbf) || !(0x80 <= s[from + 3] && s[from + 3] <= 0xbf) {
            return 0;
        }
        let cp: u32 = (((b0 & 0x07) as u32) << 18) | (((s[from + 1] & 0x3f) as u32) << 12) | (((s[
            from + 2] & 0x3f) as u32) << 6) | ((s[from + 3] & 0x3f) as u32);
        if !(0x10000 <= cp && cp <= 0x10ffff) {
            return 0;
        }
        return 4;
    }
    0
}

/// Whether the whole slice is well-formed UTF-8.
pub fn check_utf8(s: &[u8]) -> (r: bool)
    ensures
        r == valid_utf8(s@),
{
    let mut i: usize = 0;
    proof {
        assert(s@.skip(0) =~= s@);
    }
    while i < s.len()
        invariant
            i <= s.len(),
            valid_utf8(s@) == valid_utf8(s@.skip(i as int)),
        decreases s.len() - i,
    {
        let l = first_scalar_len(s, i);
        if l == 0 {
            return false;
        }
        proof {
            assert(pop_first_scalar(s@.skip(i as int)) =~= s@.skip(i + l));
        }
        i += l;
    }
    true
}

/// Applies the lenient replacement to the whole slice.
pub fn lossy_decode(s: &[u8]) -> (r: Vec<u8>)
    ensures
        r@ == lossy_of(s@),
{
    let mut out: Vec<u8> = Vec::new();
    let mut i: usize = 0;
    proof {
        assert(s@.skip(0) =~= s@);
        assert(out@ + lossy_of(s@) =~= lossy_of(s@));
    }
    while i < s.len()
        invariant
            i <= s.len(),
            lossy_of(s@) == out@ + lossy_of(s@.skip(i as int)),
        decreases s.len() - i,
    {
        let ghost prev = out@;
        let l = first_scalar_len(s, i);
        if l == 0 {
            out.push(63);
            proof {
                assert(s@.skip(i as int).drop_first() =~= s@.skip(i + 1));
                assert(prev + (seq![63u8] + lossy_of(s@.skip(i + 1))) =~= out@ + lossy_of(
                    s@.skip(i + 1),
                ));
            }
            i += 1;
        } else {
            append_bytes(&mut out, slice_subrange(s, i, i + l));
            proof {
                assert(take_first_scalar(s@.skip(i as int)) =~= s@.subrange(i as int, i + l));
                assert(pop_first_scalar(s@.skip(i as int)) =~= s@.skip(i + l));
                assert(prev + (take_first_scalar(s@.skip(i as int)) + lossy_of(s@.skip(i + l)))
                    =~= out@ + lossy_of(s@.skip(i + l)));
            }
            i += l;
        }
    }
    proof {
        assert(lossy_of(s@.skip(s@.len() as int)) =~= Seq::<u8>::empty());
        assert(out@ + Seq::<u8>::empty() =~= out@);
    }
    out
}

/// What decoding yields: under strict decoding, the bytes themselves
/// if they are well-formed UTF-8 and nothing otherwise; under lenient
/// decoding, always the lenient replacement.
pub open spec fn decoded(mode: Leniency, s: Seq<u8>) -> Option<Seq<u8>> {
    match mode {
        Leniency::Strict => if valid_utf8(s) {
            Some(s)
        } else {
            None
        },
        Leniency::Lenient => Some(lossy_of(s)),
    }
}

/// Decodes the wire bytes per the configured behavior.
pub fn decode(mode: Leniency, buf: &[u8]) -> (r: Result<Vec<u8>, DecodeError>)
    ensures
        match r {
            Ok(v) => decoded(mode, buf@) == Some(v@),
            Err(e) => decoded(mode, buf@) is None && e == DecodeError::InvalidUtf8,
        },
{
    match mode {
        Leniency::Strict => {
            if check_utf8(buf) {
                Ok(copy_bytes(buf))
            } else {
                Err(DecodeError::InvalidUtf8)
            }
        },
        Leniency::Lenient => Ok(lossy_decode(buf)),
    }
}

} // verus!
