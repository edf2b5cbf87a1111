use vstd::prelude::*;

verus! {

/// Why bytes could not be decoded.
#[derive(Clone, Copy, Debug, PartialEq, Eq, Structural)]
pub enum DecodeError {
    InvalidInstructionData,
    InvalidAccountData,
}

/// Little-endian `u16` at `b[i..i + 2]`.
pub open spec fn le_u16(b: Seq<u8>, i: int) -> int {
    b[i] + 256 * b[i + 1]
}

/// Little-endian `u64` at `b[i..i + 8]`.
pub open spec fn le_u64(b: Seq<u8>, i: int) -> int {
    b[i] + 256 * (b[i + 1] + 256 * (b[i + 2] + 256 * (b[i + 3] + 256 * (b[i + 4] + 256 * (b[i
        + 5] + 256 * (b[i + 6] + 256 * b[i + 7]))))))
}

pub(crate) fn read_u16(b: &[u8], i: usize) -> (r: u16)
    requires
        i + 2 <= b@.len(),
    ensures
        r as int == le_u16(b@, i as int),
{
    b[i] as u16 + 256 * (b[i + 1] as u16)
}

pub(crate) fn read_u64(b: &[u8], i: usize) -> (r: u64)
    requires
        i + 8 <= b@.len(),
    ensures
        r as int == le_u64(b@, i as int),
{
    let b0 = b[i] as u64;
    let b1 = b[i + 1] as u64;
    let b2 = b[i + 2] as u64;
    let b3 = b[i + 3] as u64;
    let b4 = b[i + 4] as u64;
    let b5 = b[i + 5] as u64;
    let b6 = b[i + 6] as u64;
    let b7 = b[i + 7] as u64;
    b0 + 256 * (b1 + 256 * (b2 + 256 * (b3 + 256 * (b4 + 256 * (b5 + 256 * (b6 + 256 * b7))))))
}

pub(crate) fn read_hash(b: &[u8], i: usize) -> (r: [u8; 32])
    requires
        i + 32 <= b@.len(),
    ensures
        r@ == b@.subrange(i as int, i as int + 32),
{
    let mut h = [0u8; 32];
    let len = b.len();
    let mut k: usize = 0;
    while k < 32
        invariant
            k <= 32,
            len == b@.len(),
            i + 32 <= len,
            forall|j: int| 0 <= j < k ==> h@[j] == b@[i + j],
        decreases 32 - k,
    {
        h[k] = b[i + k];
        k = k + 1;
    }
    assert(h@ =~= b@.subrange(i as int, i as int + 32));
    h
}

/// `x` shifted right by `k` bytes.
pub open spec fn shr8(x: nat, k: nat) -> nat
    decreases k,
{
    if k == 0 {
        x
    } else {
        shr8(x, (k - 1) as nat) / 256
    }
}

/// The `n` low bytes of `x`, least significant first.
pub open spec fn le_bytes(x: nat, n: nat) -> Seq<u8> {
    Seq::new(n, |k: int| (shr8(x, k as nat) % 256) as u8)
}

/// Two's-complement bits of `x` as an unsigned value.
pub open spec fn i64_bits(x: i64) -> nat {
    if x >= 0 {
        x as nat
    } else {
        (x + 0x1_0000_0000_0000_0000) as nat
    }
}

/// The signed value of 64 two's-complement bits.
pub open spec fn from_bits(v: int) -> int {
    if v < 0x8000_0000_0000_0000 {
        v
    } else {
        v - 0x1_0000_0000_0000_0000
    }
}

/// `old` with `bytes` written over it from `off` on.
pub open spec fn put(old: Seq<u8>, off: int, bytes: Seq<u8>) -> Seq<u8> {
    old.take(off) + bytes + old.skip(off + bytes.len())
}

/// Reading back eight bytes written by `le_bytes` gives the value.
pub proof fn lemma_le_u64_of_bytes(x: u64)
    ensures
        le_u64(le_bytes(x as nat, 8), 0) == x,
{
    let b = le_bytes(x as nat, 8);
    let q0 = shr8(x as nat, 0);
    let q1 = shr8(x as nat, 1);
    let q2 = shr8(x as nat, 2);
    let q3 = shr8(x as nat, 3);
    let q4 = shr8(x as nat, 4);
    let q5 = shr8(x as nat, 5);
    let q6 = shr8(x as nat, 6);
    let q7 = shr8(x as nat, 7);
    let q8 = shr8(x as nat, 8);
    assert(q0 == x);
    assert(q1 == q0 / 256 && q1 < 0x100_0000_0000_0000);
    assert(q2 == q1 / 256 && q2 < 0x1_0000_0000_0000);
    assert(q3 == q2 / 256 && q3 < 0x100_0000_0000);
    assert(q4 == q3 / 256 && q4 < 0x1_0000_0000);
    assert(q5 == q4 / 256 && q5 < 0x100_0000);
    assert(q6 == q5 / 256 && q6 < 0x1_0000);
    assert(q7 == q6 / 256 && q7 < 0x100);
    assert(b[7] == q7 % 256);
    assert(b[6] + 256 * b[7] == q6);
    assert(b[5] + 256 * q6 == q5);
    assert(b[4] + 256 * q5 == q4);
    assert(b[3] + 256 * q4 == q3);
    assert(b[2] + 256 * q3 == q2);
    assert(b[1] + 256 * q2 == q1);
    assert(b[0] + 256 * q1 == q0);
}

/// Reading back two bytes written by `le_bytes` gives the value.
pub proof fn lemma_le_u16_of_bytes(x: u16)
    ensures
        le_u16(le_bytes(x as nat, 2), 0) == x,
{
    let b = le_bytes(x as nat, 2);
    assert(shr8(x as nat, 0) == x);
    assert(shr8(x as nat, 1) == x / 256);
    assert(b[0] + 256 * b[1] == x);
}

/// Writes the `n` low bytes of `x`, least significant first, at `off`.
pub(crate) fn write_le(data: &mut [u8], off: usize, x: u64, n: usize)
    requires
        off + n <= old(data)@.len(),
        n <= 8,
    ensures
        final(data)@ == put(old(data)@, off as int, le_bytes(x as nat, n as nat)),
{
    let ghost start = data@;
    let len = data.len();
    let mut v = x;
    let mut k: usize = 0;
    while k < n
        invariant
            k <= n,
            len == start.len(),
            off + n <= start.len(),
            data@.len() == start.len(),
            v == shr8(x as nat, k as nat),
            forall|j: int|
                0 <= j < start.len() ==> #[trigger] data@[j] == if off <= j < off + k {
                    (shr8(x as nat, (j - off) as nat) % 256) as u8
                } else {
                    start[j]
                },
        decreases n - k,
    {
        data[off + k] = (v % 256) as u8;
        v = v / 256;
        k = k + 1;
    }
    assert(data@ =~= put(start, off as int, le_bytes(x as nat, n as nat)));
}

/// Writes 32 bytes at `off`.
pub(crate) fn write_bytes32(data: &mut [u8], off: usize, h: &[u8; 32])
    requires
        off + 32 <= old(data)@.len(),
    ensures
        final(data)@ == put(old(data)@, off as int, h@),
{
    let ghost start = data@;
    let len = data.len();
    let mut k: usize = 0;
    while k < 32
        invariant
            k <= 32,
            len == start.len(),
            off + 32 <= start.len(),
            data@.len() == start.len(),
            forall|j: int|
                0 <= j < start.len() ==> #[trigger] data@[j] == if off <= j < off + k {
                    h@[j - off]
                } else {
                    start[j]
                },
        decreases 32 - k,
    {
        data[off + k] = h[k];
        k = k + 1;
    }
    assert(data@ =~= put(start, off as int, h@));
}

/// Two's-complement bits of a signed value.
pub(crate) fn bits_of_i64(x: i64) -> (r: u64)
    ensures
        r as nat == i64_bits(x),
{
    if x >= 0 {
        x as u64
    } else {
        ((x + i64::MAX) + 1) as u64 + 0x8000_0000_0000_0000
    }
}

/// The signed value of 64 two's-complement bits.
pub(crate) fn i64_of_bits(v: u64) -> (r: i64)
    ensures
        r as int == from_bits(v as int),
{
    if v < 0x8000_0000_0000_0000 {
        v as i64
    } else {
        ((v - 0x8000_0000_0000_0000) as i64) - i64::MAX - 1
    }
}

} // verus!
