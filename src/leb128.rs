//! Little-endian base-128 (LEB128) variable-length integers.
use vstd::prelude::*;

verus! {

/// The longest encoding accepted for a 64-bit value: ceil(64 / 7) groups.
pub const MAX_LEB128_LEN: usize = 10;

/// The seven value bits of an encoded byte.
pub open spec fn group(b: u8) -> nat {
    (b % 128) as nat
}

/// `128^n`.
pub open spec fn pow128(n: nat) -> nat
    decreases n,
{
    if n == 0 {
        1
    } else {
        128 * pow128((n - 1) as nat)
    }
}

/// Number of bytes up to and including the first byte whose high bit is clear,
/// or `None` when every byte carries the continuation bit.
pub open spec fn terminated_len(s: Seq<u8>) -> Option<nat>
    decreases s.len(),
{
    if s.len() == 0 {
        None
    } else if s[0] < 128 {
        Some(1)
    } else {
        match terminated_len(s.drop_first()) {
            Some(n) => Some(n + 1),
            None => None,
        }
    }
}

/// The unsigned number whose little-endian 7-bit groups are the bytes of `s`.
pub open spec fn uleb_value(s: Seq<u8>) -> nat
    decreases s.len(),
{
    if s.len() == 0 {
        0
    } else {
        group(s[0]) + 128 * uleb_value(s.drop_first())
    }
}

/// The signed number whose little-endian 7-bit groups are the bytes of `s`,
/// bit 6 of the last group giving the sign.
pub open spec fn sleb_value(s: Seq<u8>) -> int
    decreases s.len(),
{
    if s.len() == 0 {
        0
    } else if s.len() == 1 {
        if group(s[0]) >= 64 {
            group(s[0]) - 128
        } else {
            group(s[0]) as int
        }
    } else {
        group(s[0]) + 128 * sleb_value(s.drop_first())
    }
}

/// What an unsigned decoder reads from the start of `s`: the value and the
/// number of bytes it spans, or `None` for a malformed integer (no terminating
/// byte within the first ten bytes, or a value wider than 64 bits).
pub open spec fn spec_decode_uleb(s: Seq<u8>) -> Option<(u64, nat)> {
    match terminated_len(s) {
        Some(n) => if n <= MAX_LEB128_LEN && uleb_value(s.take(n as int)) <= u64::MAX {
            Some((uleb_value(s.take(n as int)) as u64, n))
        } else {
            None
        },
        None => None,
    }
}

/// What a signed decoder reads from the start of `s`, as for `spec_decode_uleb`.
pub open spec fn spec_decode_sleb(s: Seq<u8>) -> Option<(i64, nat)> {
    match terminated_len(s) {
        Some(n) => if n <= MAX_LEB128_LEN && i64::MIN <= sleb_value(s.take(n as int))
            <= i64::MAX {
            Some((sleb_value(s.take(n as int)) as i64, n))
        } else {
            None
        },
        None => None,
    }
}

/// The minimal unsigned encoding of `v`.
pub open spec fn uleb_encode(v: nat) -> Seq<u8>
    decreases v,
{
    if v < 128 {
        seq![v as u8]
    } else {
        seq![(v % 128 + 128) as u8] + uleb_encode(v / 128)
    }
}

/// The minimal signed encoding of `v`: groups are emitted until the rest of
/// the value is the sign extension of bit 6 of the last group.
pub open spec fn sleb_encode(v: int) -> Seq<u8>
    decreases (if v >= 0 { v } else { -v }),
{
    let b = v % 128;
    let rest = v / 128;
    if (rest == 0 && b < 64) || (rest == -1 && b >= 64) {
        seq![b as u8]
    } else {
        seq![(b + 128) as u8] + sleb_encode(rest)
    }
}

/// Encodes `value` as minimal unsigned LEB128.
pub fn encode_uleb128(value: u64) -> (r: Vec<u8>)
    ensures
        r@ == uleb_encode(value as nat),
{
    let mut bytes: Vec<u8> = Vec::new();
    let mut v: u64 = value;
    loop
        invariant
            bytes@ + uleb_encode(v as nat) == uleb_encode(value as nat),
        decreases v,
    {
        if v < 128 {
            bytes.push(v as u8);
            assert(uleb_encode(v as nat) == seq![v as u8]);
            return bytes;
        }
        let b: u8 = (v % 128 + 128) as u8;
        let ghost prev = bytes@;
        bytes.push(b);
        proof {
            let rest = uleb_encode((v / 128) as nat);
            assert(uleb_encode(v as nat) == seq![b] + rest);
            assert(prev + (seq![b] + rest) =~= bytes@ + rest);
        }
        v = v / 128;
    }
}

/// Encodes `value` as minimal signed LEB128.
pub fn encode_sleb128(value: i64) -> (r: Vec<u8>)
    ensures
        r@ == sleb_encode(value as int),
{
    let mut bytes: Vec<u8> = Vec::new();
    let mut v: i64 = value;
    loop
        invariant
            bytes@ + sleb_encode(v as int) == sleb_encode(value as int),
        decreases (if v >= 0 { v as int } else { -v }),
    {
        let rest: i64 = match v.checked_div_euclid(128) {
            Some(q) => q,
            None => v,
        };
        let b: u8 = (v - rest * 128) as u8;
        if (rest == 0 && b < 64) || (rest == -1 && b >= 64) {
            bytes.push(b);
            return bytes;
        }
        let ghost prev = bytes@;
        bytes.push(b + 128);
        proof {
            let tail = sleb_encode(rest as int);
            assert(sleb_encode(v as int) == seq![(b + 128) as u8] + tail);
            assert(prev + (seq![(b + 128) as u8] + tail) =~= bytes@ + tail);
        }
        v = rest;
    }
}

/// Skipping `k` continuation bytes shifts the terminating position by `k`.
pub proof fn lemma_terminated_len_skip(s: Seq<u8>, k: int)
    requires
        0 <= k <= s.len(),
        forall|i: int| 0 <= i < k ==> s[i] >= 128,
    ensures
        terminated_len(s) == match terminated_len(s.subrange(k, s.len() as int)) {
            Some(n) => Some(n + k as nat),
            None => None::<nat>,
        },
    decreases k,
{
    if k > 0 {
        let t = s.drop_first();
        assert(t.subrange(k - 1, t.len() as int) =~= s.subrange(k, s.len() as int));
        lemma_terminated_len_skip(t, k - 1);
    } else {
        assert(s.subrange(0, s.len() as int) =~= s);
    }
}

proof fn lemma_pow128_mono(a: nat, b: nat)
    requires
        a <= b,
    ensures
        1 <= pow128(a) <= pow128(b),
    decreases b,
{
    if b > 0 {
        lemma_pow128_mono(if a < b { a } else { (b - 1) as nat }, (b - 1) as nat);
    }
}

proof fn lemma_pow128_ten()
    ensures
        pow128(10) == 0x40_0000_0000_0000_0000,
{
    reveal_with_fuel(pow128, 11);
}

/// Reads the terminating position from the start of `bytes`: the index `k` of
/// the first byte without continuation bit, or `None` when there is none among
/// the first `MAX_LEB128_LEN` bytes.
fn find_terminator(bytes: &[u8]) -> (r: Option<usize>)
    ensures
        match r {
            Some(k) => k < MAX_LEB128_LEN && terminated_len(bytes@) == Some((k + 1) as nat) && k
                < bytes@.len() && bytes@[k as int] < 128,
            None => match terminated_len(bytes@) {
                Some(n) => n > MAX_LEB128_LEN,
                None => true,
            },
        },
{
    let mut k: usize = 0;
    while k < bytes.len() && k < MAX_LEB128_LEN && bytes[k] >= 128
        invariant
            k <= bytes@.len(),
            k <= MAX_LEB128_LEN,
            forall|i: int| 0 <= i < k ==> bytes@[i] >= 128,
        decreases bytes@.len() - k,
    {
        k = k + 1;
    }
    proof {
        lemma_terminated_len_skip(bytes@, k as int);
    }
    if k == bytes.len() || k == MAX_LEB128_LEN {
        proof {
            if k == bytes.len() {
                assert(bytes@.subrange(k as int, bytes@.len() as int).len() == 0);
            }
        }
        return None;
    }
    Some(k)
}

/// Decodes an unsigned LEB128 integer from the start of `bytes`; returns the
/// value and the number of bytes read. Bytes after the terminating one are not
/// read.
pub fn decode_uleb128(bytes: &[u8]) -> (r: Option<(u64, usize)>)
    ensures
        match spec_decode_uleb(bytes@) {
            Some((v, n)) => r == Some((v, n as usize)),
            None => r is None,
        },
        r matches Some((_, n)) ==> 1 <= n <= bytes@.len(),
{
    let k = match find_terminator(bytes) {
        Some(k) => k,
        None => {
            return None;
        },
    };
    let ghost s = bytes@.take(k + 1);
    let mut acc: u128 = bytes[k] as u128;
    let mut j: usize = k;
    proof {
        lemma_pow128_ten();
        lemma_pow128_mono(1, 10);
        let t = s.subrange(k as int, k + 1);
        assert(t.drop_first() =~= Seq::<u8>::empty());
        assert(uleb_value(t.drop_first()) == 0);
        assert(t[0] == bytes@[k as int]);
        assert(pow128(1) == 128) by {
            reveal_with_fuel(pow128, 2);
        }
    }
    while j > 0
        invariant
            j <= k < MAX_LEB128_LEN,
            k < bytes@.len(),
            s == bytes@.take(k + 1),
            acc == uleb_value(s.subrange(j as int, k + 1)),
            acc < pow128((k + 1 - j) as nat),
            pow128(10) == 0x40_0000_0000_0000_0000,
        decreases j,
    {
        j = j - 1;
        proof {
            assert(s.subrange(j as int, k + 1).drop_first() =~= s.subrange(j + 1, k + 1));
            lemma_pow128_mono((k - j) as nat, 10);
        }
        acc = acc * 128 + (bytes[j] % 128) as u128;
    }
    assert(s.subrange(0, k + 1) =~= s);
    if acc > u64::MAX as u128 {
        return None;
    }
    Some((acc as u64, k + 1))
}

/// Decodes a signed LEB128 integer from the start of `bytes`; returns the
/// value and the number of bytes read. Bytes after the terminating one are not
/// read.
pub fn decode_sleb128(bytes: &[u8]) -> (r: Option<(i64, usize)>)
    ensures
        match spec_decode_sleb(bytes@) {
            Some((v, n)) => r == Some((v, n as usize)),
            None => r is None,
        },
        r matches Some((_, n)) ==> 1 <= n <= bytes@.len(),
{
    let k = match find_terminator(bytes) {
        Some(k) => k,
        None => {
            return None;
        },
    };
    let ghost s = bytes@.take(k + 1);
    let last: i128 = bytes[k] as i128;
    let mut acc: i128 = if last >= 64 {
        last - 128
    } else {
        last
    };
    let mut j: usize = k;
    proof {
        lemma_pow128_ten();
        let t = s.subrange(k as int, k + 1);
        assert(t.len() == 1);
        assert(t[0] == bytes@[k as int]);
        assert(pow128(0) == 1);
    }
    while j > 0
        invariant
            j <= k < MAX_LEB128_LEN,
            k < bytes@.len(),
            s == bytes@.take(k + 1),
            acc == sleb_value(s.subrange(j as int, k + 1)),
            -64 * pow128((k - j) as nat) <= acc < 64 * pow128((k - j) as nat),
            pow128(10) == 0x40_0000_0000_0000_0000,
        decreases j,
    {
        j = j - 1;
        proof {
            assert(s.subrange(j as int, k + 1).drop_first() =~= s.subrange(j + 1, k + 1));
            lemma_pow128_mono((k - j) as nat, 10);
        }
        acc = acc * 128 + (bytes[j] % 128) as i128;
    }
    assert(s.subrange(0, k + 1) =~= s);
    if acc < i64::MIN as i128 || acc > i64::MAX as i128 {
        return None;
    }
    Some((acc as i64, k + 1))
}

proof fn lemma_uleb_encode_shape(v: nat, rest: Seq<u8>)
    ensures
        terminated_len(uleb_encode(v) + rest) == Some(uleb_encode(v).len()),
        uleb_value(uleb_encode(v)) == v,
        uleb_encode(v).len() >= 1,
    decreases v,
{
    let e = uleb_encode(v);
    if v < 128 {
        assert((e + rest)[0] == v as u8);
        assert(e.drop_first() =~= Seq::<u8>::empty());
        assert(uleb_value(e.drop_first()) == 0);
        assert(group(e[0]) == v);
    } else {
        let t = uleb_encode(v / 128);
        lemma_uleb_encode_shape(v / 128, rest);
        assert((e + rest).drop_first() =~= t + rest);
        assert(e.drop_first() =~= t);
        assert(group(e[0]) == v % 128);
        assert(v == v % 128 + 128 * (v / 128));
    }
}

proof fn lemma_uleb_encode_len(v: nat, n: nat)
    requires
        n >= 1,
        v < pow128(n),
    ensures
        uleb_encode(v).len() <= n,
    decreases n,
{
    if v >= 128 {
        assert(n >= 2) by {
            if n == 1 {
                assert(pow128(1) == 128) by {
                    reveal_with_fuel(pow128, 2);
                }
            }
        }
        assert(v / 128 < pow128((n - 1) as nat));
        lemma_uleb_encode_len(v / 128, (n - 1) as nat);
    }
}

/// Decoding the unsigned encoding of any 64-bit value, followed by any bytes,
/// yields the value and the length of its encoding.
pub proof fn lemma_uleb_round_trip(v: u64, rest: Seq<u8>)
    ensures
        spec_decode_uleb(uleb_encode(v as nat) + rest) == Some((v, uleb_encode(v as nat).len())),
{
    let e = uleb_encode(v as nat);
    lemma_uleb_encode_shape(v as nat, rest);
    lemma_pow128_ten();
    lemma_uleb_encode_len(v as nat, 10);
    assert((e + rest).take(e.len() as int) =~= e);
}

proof fn lemma_sleb_encode_shape(v: int, rest: Seq<u8>)
    ensures
        terminated_len(sleb_encode(v) + rest) == Some(sleb_encode(v).len()),
        sleb_value(sleb_encode(v)) == v,
        sleb_encode(v).len() >= 1,
    decreases (if v >= 0 { v } else { -v }),
{
    let e = sleb_encode(v);
    let b = v % 128;
    let r = v / 128;
    if (r == 0 && b < 64) || (r == -1 && b >= 64) {
        assert((e + rest)[0] == b as u8);
    } else {
        let t = sleb_encode(r);
        lemma_sleb_encode_shape(r, rest);
        assert((e + rest).drop_first() =~= t + rest);
        assert(e.drop_first() =~= t);
    }
}

proof fn lemma_sleb_encode_len(v: int, n: nat)
    requires
        n >= 1,
        -64 * pow128((n - 1) as nat) <= v < 64 * pow128((n - 1) as nat),
    ensures
        sleb_encode(v).len() <= n,
    decreases n,
{
    let b = v % 128;
    let r = v / 128;
    if n == 1 {
        assert(pow128(0) == 1);
    } else {
        let p = pow128((n - 2) as nat);
        assert(pow128((n - 1) as nat) == 128 * p);
        assert(-64 * p <= r < 64 * p);
        if !((r == 0 && b < 64) || (r == -1 && b >= 64)) {
            lemma_sleb_encode_len(r, (n - 1) as nat);
        }
    }
}

/// Decoding the signed encoding of any 64-bit value, followed by any bytes,
/// yields the value and the length of its encoding.
pub proof fn lemma_sleb_round_trip(v: i64, rest: Seq<u8>)
    ensures
        spec_decode_sleb(sleb_encode(v as int) + rest) == Some((v, sleb_encode(v as int).len())),
{
    let e = sleb_encode(v as int);
    lemma_sleb_encode_shape(v as int, rest);
    assert(pow128(9) == 0x8000_0000_0000_0000nat) by {
        reveal_with_fuel(pow128, 10);
    }
    lemma_sleb_encode_len(v as int, 10);
    assert((e + rest).take(e.len() as int) =~= e);
}

} // verus!
