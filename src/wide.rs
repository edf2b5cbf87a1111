use vstd::prelude::*;

verus! {

/// `2^64`.
#[verifier::inline]
pub open spec fn p64() -> int {
    0x1_0000_0000_0000_0000
}

/// `2^128`.
#[verifier::inline]
pub open spec fn p128() -> int {
    0x1_0000_0000_0000_0000_0000_0000_0000_0000int
}

/// `2^192`.
#[verifier::inline]
pub open spec fn p192() -> int {
    0x1_0000_0000_0000_0000_0000_0000_0000_0000_0000_0000_0000_0000int
}

/// `2^256`.
#[verifier::inline]
pub open spec fn p256() -> int {
    0x1_0000_0000_0000_0000_0000_0000_0000_0000_0000_0000_0000_0000_0000_0000_0000_0000int
}

/// An unsigned 256-bit integer as four 64-bit limbs, least significant first.
pub(crate) struct Wide {
    pub(crate) l0: u64,
    pub(crate) l1: u64,
    pub(crate) l2: u64,
    pub(crate) l3: u64,
}

impl Wide {
    pub(crate) open spec fn val(&self) -> int {
        self.l0 + self.l1 * p64() + self.l2 * p128() + self.l3 * p192()
    }
}

proof fn lemma_val_bounds(a: &Wide)
    ensures
        0 <= a.val() < p256(),
        a.l0 + a.l1 * p64() + a.l2 * p128() < p192(),
        a.l0 + a.l1 * p64() < p128(),
        a.l3 * p192() <= a.val(),
{
}

pub(crate) fn from_u128(x: u128) -> (r: Wide)
    ensures
        r.val() == x,
{
    let lo = (x % 0x1_0000_0000_0000_0000) as u64;
    let hi = (x / 0x1_0000_0000_0000_0000) as u64;
    Wide { l0: lo, l1: hi, l2: 0, l3: 0 }
}

/// `a · b`, when it stays below `2^256`.
pub(crate) fn mul_limb(a: &Wide, b: u64) -> (r: Wide)
    requires
        a.val() * b < p256(),
    ensures
        r.val() == a.val() * b,
{
    let bb = b as u128;
    proof {
        assert(a.l0 * b <= 0xFFFF_FFFF_FFFF_FFFE_0000_0000_0000_0001) by (nonlinear_arith)
            requires
                a.l0 <= u64::MAX,
                b <= u64::MAX,
        ;
        assert(a.l1 * b <= 0xFFFF_FFFF_FFFF_FFFE_0000_0000_0000_0001) by (nonlinear_arith)
            requires
                a.l1 <= u64::MAX,
                b <= u64::MAX,
        ;
        assert(a.l2 * b <= 0xFFFF_FFFF_FFFF_FFFE_0000_0000_0000_0001) by (nonlinear_arith)
            requires
                a.l2 <= u64::MAX,
                b <= u64::MAX,
        ;
        assert(a.l3 * b <= 0xFFFF_FFFF_FFFF_FFFE_0000_0000_0000_0001) by (nonlinear_arith)
            requires
                a.l3 <= u64::MAX,
                b <= u64::MAX,
        ;
    }
    let t0 = a.l0 as u128 * bb;
    let c1 = t0 / 0x1_0000_0000_0000_0000;
    let r0 = (t0 % 0x1_0000_0000_0000_0000) as u64;
    let t1 = a.l1 as u128 * bb + c1;
    let c2 = t1 / 0x1_0000_0000_0000_0000;
    let r1 = (t1 % 0x1_0000_0000_0000_0000) as u64;
    let t2 = a.l2 as u128 * bb + c2;
    let c3 = t2 / 0x1_0000_0000_0000_0000;
    let r2 = (t2 % 0x1_0000_0000_0000_0000) as u64;
    let t3 = a.l3 as u128 * bb + c3;
    let c4 = t3 / 0x1_0000_0000_0000_0000;
    let r3 = (t3 % 0x1_0000_0000_0000_0000) as u64;
    let r = Wide { l0: r0, l1: r1, l2: r2, l3: r3 };
    proof {
        let (x0, x1, x2, x3) = (a.l0 * b, a.l1 * b, a.l2 * b, a.l3 * b);
        assert(a.val() * b == x0 + x1 * p64() + x2 * p128() + x3 * p192()) by (nonlinear_arith)
            requires
                x0 == a.l0 * b,
                x1 == a.l1 * b,
                x2 == a.l2 * b,
                x3 == a.l3 * b,
                a.val() == a.l0 + a.l1 * p64() + a.l2 * p128() + a.l3 * p192(),
        ;
        assert(t0 == r0 + c1 * p64());
        assert(t1 == r1 + c2 * p64());
        assert(t2 == r2 + c3 * p64());
        assert(t3 == r3 + c4 * p64());
        assert(r.val() + c4 * p256() == a.val() * b);
        lemma_val_bounds(&r);
    }
    r
}

/// `a + b`, when it stays below `2^256`.
pub(crate) fn wide_add(a: &Wide, b: &Wide) -> (r: Wide)
    requires
        a.val() + b.val() < p256(),
    ensures
        r.val() == a.val() + b.val(),
{
    let s0 = a.l0 as u128 + b.l0 as u128;
    let c1 = s0 / 0x1_0000_0000_0000_0000;
    let s1 = a.l1 as u128 + b.l1 as u128 + c1;
    let c2 = s1 / 0x1_0000_0000_0000_0000;
    let s2 = a.l2 as u128 + b.l2 as u128 + c2;
    let c3 = s2 / 0x1_0000_0000_0000_0000;
    let s3 = a.l3 as u128 + b.l3 as u128 + c3;
    let c4 = s3 / 0x1_0000_0000_0000_0000;
    let r = Wide {
        l0: (s0 % 0x1_0000_0000_0000_0000) as u64,
        l1: (s1 % 0x1_0000_0000_0000_0000) as u64,
        l2: (s2 % 0x1_0000_0000_0000_0000) as u64,
        l3: (s3 % 0x1_0000_0000_0000_0000) as u64,
    };
    proof {
        assert(r.val() + c4 * p256() == a.val() + b.val());
        lemma_val_bounds(&r);
    }
    r
}

/// `a − b`, for `b <= a`.
pub(crate) fn wide_sub(a: &Wide, b: &Wide) -> (r: Wide)
    requires
        b.val() <= a.val(),
    ensures
        r.val() == a.val() - b.val(),
{
    let x0 = a.l0 as u128 + 0x1_0000_0000_0000_0000 - b.l0 as u128;
    let k1 = 1 - x0 / 0x1_0000_0000_0000_0000;
    let x1 = a.l1 as u128 + 0x1_0000_0000_0000_0000 - b.l1 as u128 - k1;
    let k2 = 1 - x1 / 0x1_0000_0000_0000_0000;
    let x2 = a.l2 as u128 + 0x1_0000_0000_0000_0000 - b.l2 as u128 - k2;
    let k3 = 1 - x2 / 0x1_0000_0000_0000_0000;
    let x3 = a.l3 as u128 + 0x1_0000_0000_0000_0000 - b.l3 as u128 - k3;
    let k4 = 1 - x3 / 0x1_0000_0000_0000_0000;
    let r = Wide {
        l0: (x0 % 0x1_0000_0000_0000_0000) as u64,
        l1: (x1 % 0x1_0000_0000_0000_0000) as u64,
        l2: (x2 % 0x1_0000_0000_0000_0000) as u64,
        l3: (x3 % 0x1_0000_0000_0000_0000) as u64,
    };
    proof {
        assert(r.val() - k4 * p256() == a.val() - b.val());
        lemma_val_bounds(&r);
    }
    r
}

/// `a <= b`.
pub(crate) fn le(a: &Wide, b: &Wide) -> (r: bool)
    ensures
        r == (a.val() <= b.val()),
{
    proof {
        lemma_val_bounds(a);
        lemma_val_bounds(b);
    }
    if a.l3 != b.l3 {
        a.l3 < b.l3
    } else if a.l2 != b.l2 {
        a.l2 < b.l2
    } else if a.l1 != b.l1 {
        a.l1 < b.l1
    } else {
        a.l0 <= b.l0
    }
}

/// `a >= 2^254`, a quarter of the range.
pub(crate) fn at_least_quarter(a: &Wide) -> (r: bool)
    ensures
        r == (a.val() >= p256() / 4),
{
    proof {
        lemma_val_bounds(a);
    }
    a.l3 >= 0x4000_0000_0000_0000
}

/// `x · x`.
pub(crate) fn square(x: u128) -> (r: Wide)
    ensures
        r.val() == x * x,
{
    let w = from_u128(x);
    let x0 = (x % 0x1_0000_0000_0000_0000) as u64;
    let x1 = (x / 0x1_0000_0000_0000_0000) as u64;
    proof {
        assert(x * x0 < p192() && x * x1 < p192()) by (nonlinear_arith)
            requires
                0 <= x < p128(),
                0 <= x0 < p64(),
                0 <= x1 < p64(),
        ;
    }
    let low = mul_limb(&w, x0);
    let high = mul_limb(&w, x1);
    proof {
        lemma_val_bounds(&high);
        assert(high.l3 == 0);
    }
    let shifted = Wide { l0: 0, l1: high.l0, l2: high.l1, l3: high.l2 };
    proof {
        assert(shifted.val() == high.val() * p64());
        assert(x == x0 + x1 * p64());
        assert(low.val() + shifted.val() == x * x) by (nonlinear_arith)
            requires
                low.val() == x * x0,
                shifted.val() == x * x1 * p64(),
                x == x0 + x1 * p64(),
        ;
        assert(x * x < p256()) by (nonlinear_arith)
            requires
                0 <= x < p128(),
        ;
    }
    wide_add(&low, &shifted)
}

} // verus!
