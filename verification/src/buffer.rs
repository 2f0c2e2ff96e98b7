//! Owned byte storage for one image: zero-filled, and accounted for with a
//! fixed alignment, which bounds the sizes that it can take.
use crate::align::{lemma_pow2_below_sign_bit, Align};
use vstd::arithmetic::power2::is_pow2;
use vstd::prelude::*;

verus! {

/// Why a size and an alignment do not make a layout.
#[derive(Debug, Clone, Copy, PartialEq, Eq)]
pub enum LayoutErr {
    /// The alignment is zero or not a power of two.
    InvalidAlignment,
    /// The size, rounded up to the alignment, exceeds `isize::MAX`.
    Overflow,
}

/// Whether a block of `size` bytes aligned to `align` can exist: the
/// alignment is a power of two and the size, rounded up to it, fits `isize`.
pub open spec fn valid_layout(size: int, align: int) -> bool {
    is_pow2(align) && 0 <= size && size + align - 1 <= isize::MAX
}

/// The outcome that `Layout::from_size_align` owes for a size and an alignment.
pub open spec fn layout_check(size: int, align: int) -> Result<(), LayoutErr> {
    if !is_pow2(align) {
        Err(LayoutErr::InvalidAlignment)
    } else if size + align - 1 > isize::MAX {
        Err(LayoutErr::Overflow)
    } else {
        Ok(())
    }
}

/// `n` zero bytes.
pub open spec fn zeros(n: nat) -> Seq<u8> {
    Seq::new(n, |i: int| 0u8)
}

/// What a buffer holds after a resize to `new_size`: the old bytes as far as
/// they fit, then zeros.
pub open spec fn resized(old_bytes: Seq<u8>, new_size: nat) -> Seq<u8> {
    if new_size <= old_bytes.len() {
        old_bytes.take(new_size as int)
    } else {
        old_bytes + zeros((new_size - old_bytes.len()) as nat)
    }
}

/// `bytes` with `src` written over it from `offset` on.
pub open spec fn overwritten(bytes: Seq<u8>, offset: int, src: Seq<u8>) -> Seq<u8> {
    Seq::new(
        bytes.len(),
        |k: int|
            if offset <= k < offset + src.len() {
                src[k - offset]
            } else {
                bytes[k]
            },
    )
}

/// The size and alignment of a block of memory.
#[derive(Debug, Clone, Copy)]
pub struct Layout {
    size: usize,
    align: usize,
}

impl Layout {
    /// The size in bytes.
    pub closed spec fn spec_size(&self) -> usize {
        self.size
    }

    /// The alignment in bytes.
    pub closed spec fn spec_align(&self) -> usize {
        self.align
    }

    /// Holds of every layout: see [`valid_layout`].
    #[verifier::type_invariant]
    pub open spec fn wf(self) -> bool {
        valid_layout(self.spec_size() as int, self.spec_align() as int)
    }

    /// Builds the layout of `size` bytes aligned to `align`, or says why
    /// there is none.
    pub fn from_size_align(size: usize, align: usize) -> (r: Result<Self, LayoutErr>)
        ensures
            match r {
                Ok(l) => layout_check(size as int, align as int) is Ok && l.wf() && l.spec_size()
                    == size && l.spec_align() == align,
                Err(e) => layout_check(size as int, align as int) == Err::<(), LayoutErr>(e),
            },
    {
        match Align::new(align) {
            Err(_) => Err(LayoutErr::InvalidAlignment),
            Ok(_) => {
                proof {
                    lemma_pow2_below_sign_bit(align);
                }
                let limit: usize = isize::MAX as usize;
                if size > limit - (align - 1) {
                    Err(LayoutErr::Overflow)
                } else {
                    Ok(Layout { size, align })
                }
            },
        }
    }

    /// The size in bytes.
    #[verifier::when_used_as_spec(spec_size)]
    pub fn size(&self) -> (n: usize)
        ensures
            n == self.spec_size(),
    {
        self.size
    }

    /// The alignment in bytes.
    #[verifier::when_used_as_spec(spec_align)]
    pub fn align(&self) -> (a: usize)
        ensures
            a == self.spec_align(),
    {
        self.align
    }
}

/// A block of bytes that belongs to one owner. Bytes that a buffer gains,
/// at its creation or by `resize`, are zero. The alignment is that of the
/// buffer's layout; the address of the bytes is the allocator's choice.
#[derive(Debug)]
pub struct Buffer {
    bytes: Vec<u8>,
    align: usize,
}

impl View for Buffer {
    type V = Seq<u8>;

    closed spec fn view(&self) -> Seq<u8> {
        self.bytes@
    }
}

impl Buffer {
    /// The alignment that the buffer was made with.
    pub closed spec fn spec_align(&self) -> usize {
        self.align
    }

    /// Holds of every buffer that this module hands out: its size and
    /// alignment make a layout.
    pub open spec fn wf(&self) -> bool {
        valid_layout(self@.len() as int, self.spec_align() as int)
    }

    /// A buffer of `layout.size()` zero bytes.
    pub fn new(layout: Layout) -> (b: Self)
        ensures
            b.wf(),
            b@ == zeros(layout.spec_size() as nat),
            b.spec_align() == layout.spec_align(),
    {
        proof {
            use_type_invariant(layout);
        }
        let bytes = vec![0u8; layout.size];
        assert(bytes@ =~= zeros(layout.size as nat));
        Buffer { bytes, align: layout.align }
    }

    /// A buffer of `size` zero bytes aligned to `align`, if these make a layout.
    pub fn from_size_align(size: usize, align: usize) -> (r: Result<Self, LayoutErr>)
        ensures
            match r {
                Ok(b) => layout_check(size as int, align as int) is Ok && b.wf() && b@ == zeros(
                    size as nat,
                ) && b.spec_align() == align,
                Err(e) => layout_check(size as int, align as int) == Err::<(), LayoutErr>(e),
            },
    {
        match Layout::from_size_align(size, align) {
            Ok(layout) => Ok(Self::new(layout)),
            Err(e) => Err(e),
        }
    }

    /// Changes the size to `new_size`. The bytes that both sizes have in
    /// common stay; bytes that are added are zero.
    pub fn resize(&mut self, new_size: usize)
        requires
            old(self).wf(),
            new_size + old(self).spec_align() - 1 <= isize::MAX,
        ensures
            final(self).wf(),
            final(self)@ == resized(old(self)@, new_size as nat),
            final(self).spec_align() == old(self).spec_align(),
    {
        self.bytes.resize(new_size, 0u8);
        assert(self.bytes@ =~= resized(old(self).bytes@, new_size as nat));
    }

    /// The number of bytes.
    pub fn len(&self) -> (n: usize)
        ensures
            n == self@.len(),
    {
        self.bytes.len()
    }

    /// The alignment in bytes.
    #[verifier::when_used_as_spec(spec_align)]
    pub fn align(&self) -> (a: usize)
        ensures
            a == self.spec_align(),
    {
        self.align
    }

    /// The bytes, to read.
    pub fn as_slice(&self) -> (s: &[u8])
        ensures
            s@ == self@,
    {
        self.bytes.as_slice()
    }

    /// The byte at `i`.
    pub fn get(&self, i: usize) -> (b: u8)
        requires
            i < self@.len(),
        ensures
            b == self@[i as int],
    {
        self.bytes[i]
    }

    /// Writes `value` at `i`; nothing else changes.
    pub fn set(&mut self, i: usize, value: u8)
        requires
            i < old(self)@.len(),
        ensures
            final(self)@ == old(self)@.update(i as int, value),
            final(self).spec_align() == old(self).spec_align(),
            old(self).wf() ==> final(self).wf(),
    {
        self.bytes[i] = value;
    }

    /// The bytes, to write in place. What the view holds when it is given
    /// up is what the buffer holds from then on.
    pub fn as_mut_slice(&mut self) -> (s: &mut [u8])
        ensures
            s@ == old(self)@,
            final(self)@ == final(s)@,
            final(self).spec_align() == old(self).spec_align(),
    {
        self.bytes.as_mut_slice()
    }

    /// Moves the bytes out, into a buffer of the same alignment; `self`
    /// is left empty.
    pub fn take(&mut self) -> (taken: Buffer)
        ensures
            taken@ == old(self)@,
            taken.spec_align() == old(self).spec_align(),
            final(self)@ == Seq::<u8>::empty(),
            final(self).spec_align() == old(self).spec_align(),
            old(self).wf() ==> taken.wf() && final(self).wf(),
    {
        let mut bytes: Vec<u8> = Vec::new();
        std::mem::swap(&mut self.bytes, &mut bytes);
        Buffer { bytes, align: self.align }
    }

    /// Copies `src` into the buffer, starting at `offset`; nothing else
    /// changes.
    pub fn write(&mut self, offset: usize, src: &[u8])
        requires
            offset + src@.len() <= old(self)@.len(),
        ensures
            final(self)@ == overwritten(old(self)@, offset as int, src@),
            final(self).spec_align() == old(self).spec_align(),
            old(self).wf() ==> final(self).wf(),
    {
        let n: usize = src.len();
        let total: usize = self.bytes.len();
        let mut k: usize = 0;
        while k < n
            invariant
                k <= n,
                n == src@.len(),
                offset + n <= total,
                total == old(self)@.len(),
                self@.len() == old(self)@.len(),
                self.spec_align() == old(self).spec_align(),
                old(self).wf() ==> self.wf(),
                forall|j: int|
                    0 <= j < self@.len() ==> #[trigger] self@[j] == if offset <= j < offset + k {
                        src@[j - offset]
                    } else {
                        old(self)@[j]
                    },
            decreases n - k,
        {
            self.set(offset + k, src[k]);
            k += 1;
        }
        assert(self@ =~= overwritten(old(self)@, offset as int, src@));
    }
}

} // verus!
