//! Power-of-two alignment and rounding of sizes up to it.
use vstd::arithmetic::div_mod::{
    lemma_fundamental_div_mod, lemma_mod_bound, lemma_mod_multiples_basic,
};
use vstd::arithmetic::power2::is_pow2;
use vstd::prelude::*;

verus! {

/// The smallest multiple of `align` that is not below `x`, for `align > 0`.
pub open spec fn round_up(x: int, align: int) -> int {
    ((x + align - 1) / align) * align
}

/// An alignment requirement: a power of two, kept as the mask of its low bits.
#[derive(Debug, Copy, Clone)]
pub struct Align(usize);

/// The error for an alignment that is zero or not a power of two.
#[derive(Debug)]
pub struct AlignErr;

impl AlignErr {
    /// The text shown for this error.
    pub fn message(&self) -> (s: String)
        ensures
            s@ == "invalid alignment value"@,
    {
        String::from_str("invalid alignment value")
    }
}

/// A power of two has a single bit set.
pub proof fn lemma_pow2_single_bit(a: usize)
    requires
        is_pow2(a as int),
    ensures
        a > 0,
        a & ((a - 1) as usize) == 0,
    decreases a,
{
    reveal(is_pow2);
    if a == 1 {
        assert(1usize & 0usize == 0) by (bit_vector);
    } else {
        let h: usize = a / 2;
        lemma_pow2_single_bit(h);
        assert(a & ((a - 1) as usize) == 0) by (bit_vector)
            requires
                a % 2 == 0,
                a > 1,
                h == a / 2,
                h & ((h - 1) as usize) == 0,
        ;
    }
}

/// A positive number with a single bit set is a power of two.
pub proof fn lemma_single_bit_pow2(a: usize)
    requires
        a > 0,
        a & ((a - 1) as usize) == 0,
    ensures
        is_pow2(a as int),
    decreases a,
{
    reveal(is_pow2);
    if a != 1 {
        let h: usize = a / 2;
        assert(a % 2 == 0 && h > 0 && h & ((h - 1) as usize) == 0) by (bit_vector)
            requires
                a > 1,
                a & ((a - 1) as usize) == 0,
                h == a / 2,
        ;
        lemma_single_bit_pow2(h);
    }
}

/// A power of two that fits `usize` is at most `isize::MAX + 1`.
pub proof fn lemma_pow2_below_sign_bit(a: usize)
    requires
        is_pow2(a as int),
    ensures
        0 < a,
        a - 1 <= isize::MAX,
{
    lemma_pow2_single_bit(a);
    let top: usize = (!0usize) >> 1;
    assert(a - 1 <= (!0usize) >> 1) by (bit_vector)
        requires
            a > 0,
            a & ((a - 1) as usize) == 0,
    ;
    assert(usize::BITS == 32 ==> top == 0x7fff_ffff) by (bit_vector)
        requires
            top == (!0usize) >> 1,
    ;
    assert(usize::BITS == 64 ==> top == 0x7fff_ffff_ffff_ffff) by (bit_vector)
        requires
            top == (!0usize) >> 1,
    ;
}

/// For a power of two `a`, the multiples of `a` are the numbers whose bits
/// below `a` are all zero.
pub proof fn lemma_low_bits_zero_iff_multiple(r: usize, a: usize)
    requires
        is_pow2(a as int),
    ensures
        (r & ((a - 1) as usize) == 0) <==> r as int % a as int == 0,
    decreases a,
{
    reveal(is_pow2);
    if a == 1 {
        assert(r & 0usize == 0) by (bit_vector);
    } else {
        let h: usize = a / 2;
        let half: usize = r / 2;
        lemma_low_bits_zero_iff_multiple(half, h);
        lemma_pow2_single_bit(h);
        assert((r & ((a - 1) as usize) == 0) <==> (r % 2 == 0 && half & ((h - 1) as usize) == 0))
            by (bit_vector)
            requires
                a > 1,
                a % 2 == 0,
                h == a / 2,
                half == r / 2,
                h > 0,
                h & ((h - 1) as usize) == 0,
        ;
        lemma_fundamental_div_mod(r as int, a as int);
        lemma_mod_bound(r as int, a as int);
        lemma_fundamental_div_mod(half as int, h as int);
        lemma_mod_bound(half as int, h as int);
        let k = r as int / a as int;
        let j = half as int / h as int;
        if r as int % a as int == 0 {
            assert(r == 2 * (h * k)) by (nonlinear_arith)
                requires
                    r == a * k,
                    a == 2 * h,
            ;
            lemma_mod_multiples_basic(k, h as int);
            assert(h * k == k * h) by (nonlinear_arith);
        }
        if r % 2 == 0 && half as int % h as int == 0 {
            assert(r == a * j) by (nonlinear_arith)
                requires
                    r == 2 * half,
                    half == h * j,
                    a == 2 * h,
            ;
            lemma_mod_multiples_basic(j, a as int);
            assert(a * j == j * a) by (nonlinear_arith);
        }
    }
}

/// `round_up(x, align)` is a multiple of `align`, lies in `[x, x + align)`,
/// and no multiple of `align` lies between `x` and it.
pub proof fn lemma_round_up_is_least_multiple(x: int, align: int)
    requires
        align > 0,
    ensures
        round_up(x, align) % align == 0,
        x <= round_up(x, align) < x + align,
        forall|y: int| x <= y && #[trigger] (y % align) == 0 ==> round_up(x, align) <= y,
{
    let s = x + align - 1;
    let q = s / align;
    lemma_fundamental_div_mod(s, align);
    lemma_mod_bound(s, align);
    lemma_mod_multiples_basic(q, align);
    assert(q * align == align * q) by (nonlinear_arith);
    assert forall|y: int| x <= y && #[trigger] (y % align) == 0 implies round_up(x, align)
        <= y by {
        lemma_fundamental_div_mod(y, align);
        let k = y / align;
        if k < q {
            assert(align * k <= align * q - align) by (nonlinear_arith)
                requires
                    k <= q - 1,
                    align > 0,
            ;
            assert(false);
        }
        assert(align * q <= align * k) by (nonlinear_arith)
            requires
                q <= k,
                align > 0,
        ;
    }
}

/// Rounding up a value that is already rounded changes nothing.
pub proof fn lemma_round_up_idempotent(x: int, align: int)
    requires
        align > 0,
    ensures
        round_up(round_up(x, align), align) == round_up(x, align),
{
    let y = round_up(x, align);
    lemma_round_up_is_least_multiple(x, align);
    lemma_round_up_is_least_multiple(y, align);
}

impl Align {
    /// The alignment in bytes that this value stands for.
    pub closed spec fn align(self) -> int {
        self.0 + 1
    }

    /// Holds of every value that `new` returns: the alignment is a power of
    /// two that fits the machine word.
    #[verifier::type_invariant]
    pub closed spec fn wf(self) -> bool {
        self.0 < usize::MAX && is_pow2(self.0 + 1)
    }

    /// Accepts `x` exactly when it is a power of two.
    pub fn new(x: usize) -> (r: Result<Self, AlignErr>)
        ensures
            r is Ok <==> is_pow2(x as int),
            r is Ok ==> r->Ok_0.wf() && r->Ok_0.align() == x,
    {
        if x > 0 && x & (x - 1) == 0 {
            proof {
                lemma_single_bit_pow2(x);
            }
            Ok(Self(x - 1))
        } else {
            proof {
                if is_pow2(x as int) {
                    lemma_pow2_single_bit(x);
                }
            }
            Err(AlignErr)
        }
    }

    /// The alignment in bytes.
    pub fn get(&self) -> (a: usize)
        ensures
            a == self.align(),
            is_pow2(a as int),
    {
        proof {
            use_type_invariant(self);
        }
        self.0 + 1
    }

    /// Rounds `x` up to the next multiple of the alignment, or returns `None`
    /// when that multiple does not fit in `usize`.
    pub fn align_up(&self, x: usize) -> (r: Option<usize>)
        ensures
            r == if round_up(x as int, self.align()) <= usize::MAX {
                Some(round_up(x as int, self.align()) as usize)
            } else {
                None
            },
            r matches Some(y) ==> x <= y < x + self.align() && y as int % self.align() == 0,
    {
        proof {
            use_type_invariant(self);
            self.lemma_masked_sum(x);
            lemma_pow2_single_bit((self.0 + 1) as usize);
            lemma_round_up_is_least_multiple(x as int, self.align());
        }
        match x.checked_add(self.0) {
            Some(s) => Some(s & !self.0),
            None => None,
        }
    }

    /// What the mask arithmetic of `align_up` computes, and when its sum
    /// leaves the machine word.
    proof fn lemma_masked_sum(self, x: usize)
        requires
            self.wf(),
        ensures
            x + self.0 <= usize::MAX ==> (((x + self.0) as usize) & !self.0) == round_up(
                x as int,
                self.align(),
            ),
            x + self.0 > usize::MAX ==> round_up(x as int, self.align()) > usize::MAX,
    {
        let m: usize = self.0;
        let a: usize = (m + 1) as usize;
        lemma_pow2_single_bit(a);
        lemma_round_up_is_least_multiple(x as int, a as int);
        let t = round_up(x as int, a as int);
        if x + m <= usize::MAX {
            let s: usize = (x + m) as usize;
            let r: usize = s & !m;
            assert(r <= s && s - r <= m && r & m == 0) by (bit_vector)
                requires
                    r == s & !m,
            ;
            lemma_low_bits_zero_iff_multiple(r, a);
            // r is a multiple in [x, x + a), and so is t: they coincide
            lemma_fundamental_div_mod(r as int, a as int);
            lemma_fundamental_div_mod(t, a as int);
            let qr = r as int / a as int;
            let qt = t / a as int;
            assert(qr == qt) by (nonlinear_arith)
                requires
                    r == a * qr,
                    t == a * qt,
                    t <= r,
                    r - t < a,
                    a > 0,
            ;
        } else if t <= usize::MAX {
            let tu: usize = t as usize;
            lemma_low_bits_zero_iff_multiple(tu, a);
            assert(tu + m == (tu | m)) by (bit_vector)
                requires
                    tu & m == 0,
            ;
        }
    }
}

} // verus!
