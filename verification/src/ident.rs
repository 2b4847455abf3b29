use vstd::prelude::*;

verus! {

/// Offset basis of the 64-bit FNV-1a hash.
pub const FNV_OFFSET: u64 = 0xcbf29ce484222325;

/// Prime of the 64-bit FNV-1a hash.
pub const FNV_PRIME: u64 = 0x100000001b3;

/// One FNV-1a round: fold a byte in, multiply modulo two to the 64.
pub open spec fn fnv_step(h: u64, b: u8) -> u64 {
    ((((h ^ (b as u64)) as u128) * (FNV_PRIME as u128)) % 0x10000000000000000) as u64
}

/// 64-bit FNV-1a over a byte sequence. Deliberately not
/// collision-resistant: distinct content may share a hash.
pub open spec fn fnv64_of(s: Seq<u8>) -> u64
    decreases s.len(),
{
    if s.len() == 0 {
        FNV_OFFSET
    } else {
        fnv_step(fnv64_of(s.drop_last()), s.last())
    }
}

/// Runtime FNV-1a of a byte slice.
pub fn fnv64(data: &[u8]) -> (h: u64)
    ensures
        h == fnv64_of(data@),
{
    let mut h: u64 = FNV_OFFSET;
    let mut i: usize = 0;
    proof {
        assert(data@.take(0) =~= Seq::<u8>::empty());
    }
    while i < data.len()
        invariant
            i <= data.len(),
            h == fnv64_of(data@.take(i as int)),
        decreases data.len() - i,
    {
        let b = data[i];
        h = ((((h ^ (b as u64)) as u128) * (FNV_PRIME as u128)) % 0x10000000000000000) as u64;
        i += 1;
        proof {
            assert(data@.take(i as int).drop_last() =~= data@.take(i - 1));
            assert(data@.take(i as int).last() == data@[i - 1]);
        }
    }
    proof {
        assert(data@.take(data@.len() as int) =~= data@);
    }
    h
}

/// The lowercase hexadecimal digit for a value below sixteen.
pub open spec fn hex_digit(n: int) -> u8
    recommends
        0 <= n < 16,
{
    if n < 10 {
        (48 + n) as u8
    } else {
        (87 + n) as u8
    }
}

/// Fixed-width lowercase hexadecimal, most significant digit first.
pub open spec fn hex_rep(n: int, width: nat) -> Seq<u8>
    decreases width,
{
    if width == 0 {
        Seq::empty()
    } else {
        hex_rep(n / 16, (width - 1) as nat) + seq![hex_digit(n % 16)]
    }
}

/// A lowercase hexadecimal digit byte.
pub open spec fn is_hex_lower(b: u8) -> bool {
    (48 <= b <= 57) || (97 <= b <= 102)
}

/// Every byte of a fixed-width hexadecimal rendering is a lowercase
/// digit, and the rendering has exactly the asked-for width.
pub proof fn lemma_hex_rep_shape(n: int, width: nat)
    requires
        n >= 0,
    ensures
        hex_rep(n, width).len() == width,
        forall|i: int| 0 <= i < width ==> is_hex_lower(#[trigger] hex_rep(n, width)[i]),
    decreases width,
{
    if width > 0 {
        lemma_hex_rep_shape(n / 16, (width - 1) as nat);
        assert(0 <= n % 16 < 16);
    }
}

/// Appends the fixed-width hexadecimal rendering of `n` to `out`.
pub fn push_hex(out: &mut Vec<u8>, n: u128, width: usize)
    ensures
        final(out)@ == old(out)@ + hex_rep(n as int, width as nat),
    decreases width,
{
    if width == 0 {
        proof {
            assert(out@ =~= old(out)@ + hex_rep(n as int, 0));
        }
        return ;
    }
    push_hex(out, n / 16, width - 1);
    let d: u8 = (n % 16) as u8;
    if d < 10 {
        out.push(48 + d);
    } else {
        out.push(87 + d);
    }
    proof {
        assert(out@ =~= old(out)@ + hex_rep(n as int, width as nat));
    }
}

/// The content-derived identifier of a byte sequence: the sixteen
/// hexadecimal digits of its 64-bit FNV-1a hash.
pub open spec fn content_token(s: Seq<u8>) -> Seq<u8> {
    hex_rep(fnv64_of(s) as int, 16)
}

/// Renders the content-derived identifier of `data`.
pub fn format_content_token(data: &[u8]) -> (r: Vec<u8>)
    ensures
        r@ == content_token(data@),
{
    let h = fnv64(data);
    let mut out: Vec<u8> = Vec::new();
    push_hex(&mut out, h as u128, 16);
    proof {
        assert(Seq::<u8>::empty() + hex_rep(h as int, 16) =~= hex_rep(h as int, 16));
    }
    out
}

/// The hyphenated rendering of a 128-bit token: five groups of
/// lowercase hexadecimal digits of widths eight, four, four, four and
/// twelve, most significant first.
pub open spec fn token_of(n: u128) -> Seq<u8> {
    hex_rep((n >> 96) as int, 8) + seq![45u8] + hex_rep(((n >> 80) & 0xffff) as int, 4)
        + seq![45u8] + hex_rep(((n >> 64) & 0xffff) as int, 4) + seq![45u8] + hex_rep(
        ((n >> 48) & 0xffff) as int,
        4,
    ) + seq![45u8] + hex_rep((n & 0xffffffffffff) as int, 12)
}

/// Renders a 128-bit token in its hyphenated form.
pub fn format_token(n: u128) -> (r: Vec<u8>)
    ensures
        r@ == token_of(n),
{
    let mut out: Vec<u8> = Vec::new();
    push_hex(&mut out, n >> 96, 8);
    out.push(45);
    push_hex(&mut out, (n >> 80) & 0xffff, 4);
    out.push(45);
    push_hex(&mut out, (n >> 64) & 0xffff, 4);
    out.push(45);
    push_hex(&mut out, (n >> 48) & 0xffff, 4);
    out.push(45);
    push_hex(&mut out, n & 0xffffffffffff, 12);
    proof {
        assert(out@ =~= token_of(n));
    }
    out
}

/// The shape of a random-scheme identifier: thirty-six bytes, hyphens
/// at positions eight, thirteen, eighteen and twenty-three, lowercase
/// hexadecimal digits everywhere else.
pub open spec fn is_random_token(s: Seq<u8>) -> bool {
    &&& s.len() == 36
    &&& s[8] == 45
    &&& s[13] == 45
    &&& s[18] == 45
    &&& s[23] == 45
    &&& forall|i: int|
        0 <= i < 36 && i != 8 && i != 13 && i != 18 && i != 23 ==> is_hex_lower(#[trigger] s[i])
}

/// The shape of a content-scheme identifier: sixteen lowercase
/// hexadecimal digits.
pub open spec fn is_content_token(s: Seq<u8>) -> bool {
    s.len() == 16 && forall|i: int| 0 <= i < 16 ==> is_hex_lower(#[trigger] s[i])
}

/// Every hyphenated rendering of a 128-bit token has the random-scheme
/// identifier shape.
pub proof fn lemma_token_of_shape(n: u128)
    ensures
        is_random_token(token_of(n)),
{
    lemma_hex_rep_shape((n >> 96) as int, 8);
    lemma_hex_rep_shape(((n >> 80) & 0xffff) as int, 4);
    lemma_hex_rep_shape(((n >> 64) & 0xffff) as int, 4);
    lemma_hex_rep_shape(((n >> 48) & 0xffff) as int, 4);
    lemma_hex_rep_shape((n & 0xffffffffffff) as int, 12);
}

/// Every content-derived identifier has the content-scheme shape.
pub proof fn lemma_content_token_shape(s: Seq<u8>)
    ensures
        is_content_token(content_token(s)),
{
    lemma_hex_rep_shape(fnv64_of(s) as int, 16);
}

/// What the random-scheme shape asks of one position.
pub open spec fn random_pos_ok(s: Seq<u8>, j: int) -> bool {
    if j == 8 || j == 13 || j == 18 || j == 23 {
        s[j] == 45
    } else {
        is_hex_lower(s[j])
    }
}

/// Runtime check of the random-scheme identifier shape.
pub fn check_random_token(s: &[u8]) -> (r: bool)
    ensures
        r == is_random_token(s@),
{
    if s.len() != 36 {
        return false;
    }
    let mut i: usize = 0;
    while i < 36
        invariant
            i <= 36,
            s@.len() == 36,
            forall|j: int| 0 <= j < i ==> #[trigger] random_pos_ok(s@, j),
        decreases 36 - i,
    {
        let b = s[i];
        if i == 8 || i == 13 || i == 18 || i == 23 {
            if b != 45 {
                proof {
                    assert(!random_pos_ok(s@, i as int));
                }
                return false;
            }
        } else {
            if !((48 <= b && b <= 57) || (97 <= b && b <= 102)) {
                proof {
                    assert(!random_pos_ok(s@, i as int));
                }
                return false;
            }
        }
        proof {
            assert(random_pos_ok(s@, i as int));
        }
        i += 1;
    }
    proof {
        assert forall|j: int| 0 <= j < 36 && j != 8 && j != 13 && j != 18 && j != 23 implies
            is_hex_lower(#[trigger] s@[j]) by {
            assert(random_pos_ok(s@, j));
        }
        assert(random_pos_ok(s@, 8) && random_pos_ok(s@, 13) && random_pos_ok(s@, 18)
            && random_pos_ok(s@, 23));
    }
    true
}

/// Runtime check of the content-scheme identifier shape.
pub fn check_content_token(s: &[u8]) -> (r: bool)
    ensures
        r == is_content_token(s@),
{
    if s.len() != 16 {
        return false;
    }
    let mut i: usize = 0;
    while i < 16
        invariant
            i <= 16,
            s@.len() == 16,
            forall|j: int| 0 <= j < i ==> is_hex_lower(#[trigger] s@[j]),
        decreases 16 - i,
    {
        let b = s[i];
        if !((48 <= b && b <= 57) || (97 <= b && b <= 102)) {
            return false;
        }
        i += 1;
    }
    true
}

} // verus!
