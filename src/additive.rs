use vstd::prelude::*;
use crate::engine::{roll, window_checksum};
use crate::family::Hasher;

verus! {

/// The sum of a byte sequence.
pub open spec fn byte_sum(s: Seq<u8>) -> int
    decreases s.len(),
{
    if s.len() == 0 {
        0
    } else {
        byte_sum(s.drop_last()) + s.last()
    }
}

/// The byte sum taken modulo 256.
pub open spec fn sum_mod256(x: int) -> u8 {
    (x % 256) as u8
}

/// The additive family: the checksum of a window is the sum of its bytes modulo 256,
/// and the accumulator is that running sum.
pub struct AdditiveSum {
    width: usize,
}

impl AdditiveSum {
    #[verifier::type_invariant]
    spec fn inv(&self) -> bool {
        self.width > 0
    }

    pub fn new(width: usize) -> (r: AdditiveSum)
        requires
            width > 0,
        ensures
            r.spec_width() == width,
    {
        AdditiveSum { width }
    }
}

impl Hasher for AdditiveSum {
    type Checksum = u8;

    type State = u8;

    closed spec fn spec_width(&self) -> nat {
        self.width as nat
    }

    open spec fn spec_empty_checksum() -> u8 {
        0
    }

    open spec fn spec_initial_state() -> u8 {
        0
    }

    open spec fn spec_step(&self, state: u8, old_byte: u8, new_byte: u8) -> (u8, u8) {
        let v = sum_mod256(state - old_byte + new_byte);
        (v, v)
    }

    fn width(&self) -> (r: usize) {
        proof {
            use_type_invariant(self);
        }
        self.width
    }

    fn empty_checksum() -> (r: u8) {
        0
    }

    fn initial_state() -> (r: u8) {
        0
    }

    fn process_byte(&self, state: u8, old_byte: u8, new_byte: u8) -> (r: (u8, u8)) {
        let v = ((state as u16 + 256 - old_byte as u16 + new_byte as u16) % 256) as u8;
        proof {
            let x = state - old_byte + new_byte;
            assert((x + 256) % 256 == x % 256);
        }
        (v, v)
    }
}

/// Splitting off the first byte of a non-empty sequence.
proof fn lemma_byte_sum_first(t: Seq<u8>)
    requires
        t.len() > 0,
    ensures
        byte_sum(t) == t[0] + byte_sum(t.drop_first()),
    decreases t.len(),
{
    if t.len() > 1 {
        lemma_byte_sum_first(t.drop_last());
        assert(t.drop_first().drop_last() =~= t.drop_last().drop_first());
        assert(t.drop_last()[0] == t[0]);
        assert(t.drop_first().last() == t.last());
        assert(byte_sum(t.drop_first()) == byte_sum(t.drop_first().drop_last()) + t.last());
    } else {
        assert(byte_sum(t.drop_last()) == 0);
        assert(byte_sum(t.drop_first()) == 0);
    }
}

/// Where the window ends after `k` bytes start: `k - w`, or 0 while it fills.
spec fn window_start(k: nat, w: nat) -> int {
    if k >= w {
        k - w
    } else {
        0
    }
}

/// After `k` bytes, the accumulator is the sum of the last `width` bytes (of all of
/// them while the window fills), modulo 256; after at least one byte the checksum
/// equals the accumulator.
proof fn lemma_roll_additive(h: AdditiveSum, s: Seq<u8>, k: nat)
    requires
        k <= s.len(),
    ensures
        roll(h, s, k).1 == sum_mod256(byte_sum(s.subrange(window_start(k, h.spec_width()), k as int))),
        k > 0 ==> roll(h, s, k).0 == roll(h, s, k).1,
    decreases k,
{
    let w = h.spec_width();
    if k == 0 {
        assert(s.subrange(0, 0).len() == 0);
    } else {
        let j = (k - 1) as nat;
        lemma_roll_additive(h, s, j);
        let lo = window_start(j, w);
        let a = byte_sum(s.subrange(lo, j as int));
        let full = s.subrange(lo, k as int);
        assert(full.drop_last() =~= s.subrange(lo, j as int));
        assert(byte_sum(full) == a + s[j as int]);
        if j >= w {
            lemma_byte_sum_first(full);
            assert(full.drop_first() =~= s.subrange(lo + 1, k as int));
            assert(window_start(k, w) == lo + 1);
            assert(((a % 256) - s[j - w] + s[j as int]) % 256 == (a - s[j - w] + s[j as int]) % 256);
        } else {
            assert(window_start(k, w) == lo);
            assert(((a % 256) - 0 + s[j as int]) % 256 == (a + s[j as int]) % 256);
        }
    }
}

/// Under the additive family, the checksum of window `i` is the sum of stream bytes
/// `[i, i + width)` modulo 256.
pub proof fn lemma_additive_window(h: AdditiveSum, s: Seq<u8>, i: nat)
    requires
        i + h.spec_width() <= s.len(),
    ensures
        window_checksum(h, s, i) == sum_mod256(
            byte_sum(s.subrange(i as int, i + h.spec_width() as int)),
        ),
{
    lemma_roll_additive(h, s, i + h.spec_width());
}

} // verus!
