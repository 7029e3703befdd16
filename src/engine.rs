use vstd::prelude::*;
use vstd::arithmetic::div_mod::{
    lemma_add_mod_noop, lemma_mod_equivalence, lemma_mod_sub_multiples_vanish, lemma_small_mod,
};
use crate::family::Hasher;
use crate::source::ByteSource;

verus! {

/// The byte evicted when stream byte `j` is admitted: the byte `w` places back,
/// or zero while the window is still filling.
pub open spec fn evicted(w: nat, s: Seq<u8>, j: nat) -> u8 {
    if j >= w {
        s[j - w]
    } else {
        0
    }
}

/// The checksum and accumulator after the first `k` bytes of `s` have been admitted
/// one by one, each evicting the byte `width` places back (zero for the first `width`).
pub open spec fn roll<H: Hasher>(h: H, s: Seq<u8>, k: nat) -> (H::Checksum, H::State)
    decreases k,
{
    if k == 0 {
        (H::spec_empty_checksum(), H::spec_initial_state())
    } else {
        let prev = roll(h, s, (k - 1) as nat);
        h.spec_step(prev.1, evicted(h.spec_width(), s, (k - 1) as nat), s[k - 1])
    }
}

/// The checksum of the window that covers stream positions `[i, i + width)`.
pub open spec fn window_checksum<H: Hasher>(h: H, s: Seq<u8>, i: nat) -> H::Checksum {
    roll(h, s, i + h.spec_width()).0
}

/// How many windows a stream of `len` bytes has for width `w`.
pub open spec fn window_count(len: nat, w: nat) -> nat {
    if len >= w {
        (len - w + 1) as nat
    } else {
        0
    }
}

/// The sliding-window engine: drives a checksum family over a byte source and
/// hands out one checksum per window position, in stream order.
///
/// The window lives in a ring of `width` bytes: stream byte `k` sits in slot
/// `k % width`, and `begin` is the slot of the oldest byte, which the next byte
/// overwrites.
pub struct Rolling<H: Hasher, I: ByteSource> {
    hasher: H,
    next: Option<H::Checksum>,
    state: H::State,
    begin: usize,
    ring: Vec<u8>,
    bytes: I,
    stream: Ghost<Seq<u8>>,
    consumed: Ghost<nat>,
    emitted: Ghost<nat>,
}

impl<H: Hasher, I: ByteSource> Rolling<H, I> {
    /// The family that the engine drives.
    pub closed spec fn family(&self) -> H {
        self.hasher
    }

    /// The whole stream: the bytes consumed so far and those the source still holds.
    pub closed spec fn stream(&self) -> Seq<u8> {
        self.stream@
    }

    /// How many checksums the engine has handed out.
    pub closed spec fn position(&self) -> nat {
        self.emitted@
    }

    /// The window, accumulator and source agree with the consumed prefix of the stream.
    closed spec fn window_ok(&self) -> bool {
        let w = self.hasher.spec_width();
        let n = self.consumed@;
        &&& w > 0
        &&& self.ring@.len() == w
        &&& w <= n <= self.stream@.len()
        &&& self.begin == n % w
        &&& forall|k: int| n - w <= k < n ==> #[trigger] self.ring@[k % (w as int)] == self.stream@[k]
        &&& self.state == roll(self.hasher, self.stream@, n).1
    }

    /// The engine's invariant.
    pub closed spec fn wf(&self) -> bool {
        let w = self.hasher.spec_width();
        let n = self.consumed@;
        &&& self.window_ok()
        &&& self.bytes.rest() == self.stream@.subrange(n as int, self.stream@.len() as int)
        &&& match self.next {
            Some(c) => c == roll(self.hasher, self.stream@, n).0 && self.emitted@ + w == n,
            None => self.emitted@ + w == n + 1 && n == self.stream@.len(),
        }
    }

    /// Fills the window from the first `width` bytes of the source, pulling no
    /// more than those. Gives `None` when the source runs out first.
    pub fn start(hasher: H, it: I) -> (r: Option<Self>)
        ensures
            r is None <==> it.rest().len() < hasher.spec_width(),
            r matches Some(e) ==> e.wf() && e.stream() == it.rest() && e.position() == 0
                && e.family() == hasher,
    {
        let w = hasher.width();
        let ghost stream = it.rest();
        let mut bytes = it;
        let mut hold = (H::empty_checksum(), H::initial_state());
        let mut i: usize = 0;
        let mut ring: Vec<u8> = Vec::with_capacity(w);
        while i < w
            invariant
                w as nat == hasher.spec_width(),
                i <= w,
                i <= stream.len(),
                ring@ == stream.take(i as int),
                stream == it.rest(),
                bytes.rest() == stream.subrange(i as int, stream.len() as int),
                hold == roll(hasher, stream, i as nat),
            decreases w - i,
        {
            match bytes.pull() {
                Some(byte) => {
                    let (_, state) = hold;
                    hold = hasher.process_byte(state, 0, byte);
                    ring.push(byte);
                    i = i + 1;
                    assert(ring@ =~= stream.take(i as int));
                    assert(bytes.rest() =~= stream.subrange(i as int, stream.len() as int));
                },
                None => {
                    assert(stream.len() == i);
                    return None;
                },
            }
        }
        let (sum, state) = hold;
        let r = Rolling {
            hasher,
            next: Some(sum),
            state,
            begin: 0,
            ring,
            bytes,
            stream: Ghost(stream),
            consumed: Ghost(w as nat),
            emitted: Ghost(0),
        };
        proof {
            assert forall|k: int| 0 <= k < w implies #[trigger] r.ring@[k % (w as int)] == stream[k] by {
                lemma_small_mod(k as nat, w as nat);
            }
            lemma_small_mod(0, w as nat);
        }
        Some(r)
    }

    /// Slides the window over `byte`, the next stream byte, and returns the new checksum.
    fn feed(&mut self, byte: u8) -> (r: H::Checksum)
        requires
            old(self).window_ok(),
            old(self).consumed@ < old(self).stream@.len(),
            byte == old(self).stream@[old(self).consumed@ as int],
        ensures
            final(self).window_ok(),
            final(self).consumed@ == old(self).consumed@ + 1,
            r == roll(old(self).hasher, old(self).stream@, final(self).consumed@).0,
            final(self).hasher == old(self).hasher,
            final(self).stream == old(self).stream,
            final(self).emitted == old(self).emitted,
            final(self).next == old(self).next,
            final(self).bytes == old(self).bytes,
    {
        let ghost n = self.consumed@;
        let ghost w = self.hasher.spec_width();
        proof {
            lemma_mod_sub_multiples_vanish(n as int, w as int);
            assert(self.ring@[(n - w) % (w as int)] == self.stream@[n - w]);
        }
        let mut prev = H::initial_state();
        core::mem::swap(&mut prev, &mut self.state);
        let (sum, state) = self.hasher.process_byte(prev, self.ring[self.begin], byte);
        self.state = state;
        self.ring.set(self.begin, byte);
        let width = self.hasher.width();
        self.begin = (self.begin + 1) % width;
        self.consumed = Ghost(n + 1);
        proof {
            let wi = w as int;
            lemma_add_mod_noop(n as int, 1, wi);
            if w > 1 {
                lemma_small_mod(1, w);
            }
            assert forall|k: int| n + 1 - w <= k < n + 1 implies #[trigger] self.ring@[k % wi]
                == self.stream@[k] by {
                if k < n {
                    lemma_mod_equivalence(n as int, k, wi);
                    lemma_small_mod((n - k) as nat, w);
                }
            }
        }
        sum
    }

    /// Hands out the checksum of the next window position, or `None` once every
    /// window of the stream has been handed out.
    ///
    /// Each call pulls at most one byte: the engine holds the checksum of the
    /// newest window one step ahead of what it has handed out.
    pub fn next(&mut self) -> (r: Option<H::Checksum>)
        requires
            old(self).wf(),
        ensures
            final(self).wf(),
            final(self).family() == old(self).family(),
            final(self).stream() == old(self).stream(),
            old(self).position() + old(self).family().spec_width() <= old(self).stream().len()
                ==> r == Some(window_checksum(old(self).family(), old(self).stream(), old(self).position()))
                && final(self).position() == old(self).position() + 1,
            old(self).position() + old(self).family().spec_width() > old(self).stream().len()
                ==> r is None && final(self).position() == old(self).position(),
    {
        let fresh = match self.bytes.pull() {
            Some(byte) => Some(self.feed(byte)),
            None => None,
        };
        let mut out = fresh;
        core::mem::swap(&mut self.next, &mut out);
        if out.is_some() {
            self.emitted = Ghost(self.emitted@ + 1);
        }
        proof {
            assert(self.bytes.rest() =~= self.stream@.subrange(
                self.consumed@ as int,
                self.stream@.len() as int,
            ));
        }
        out
    }

    /// Hands out, in order, the checksums of every window position not yet handed out.
    pub fn checksums(&mut self) -> (r: Vec<H::Checksum>)
        requires
            old(self).wf(),
        ensures
            final(self).wf(),
            final(self).family() == old(self).family(),
            final(self).stream() == old(self).stream(),
            old(self).position() <= window_count(
                old(self).stream().len(),
                old(self).family().spec_width(),
            ),
            final(self).position() == window_count(
                old(self).stream().len(),
                old(self).family().spec_width(),
            ),
            r@.len() == final(self).position() - old(self).position(),
            forall|i: int|
                0 <= i < r@.len() ==> #[trigger] r@[i] == window_checksum(
                    old(self).family(),
                    old(self).stream(),
                    (old(self).position() + i) as nat,
                ),
    {
        let mut out: Vec<H::Checksum> = Vec::new();
        let ghost p0 = self.position();
        let ghost h = self.family();
        let ghost s = self.stream();
        loop
            invariant
                self.wf(),
                self.family() == h,
                self.stream() == s,
                p0 <= self.position() <= window_count(s.len(), h.spec_width()),
                out@.len() == self.position() - p0,
                forall|i: int|
                    0 <= i < out@.len() ==> #[trigger] out@[i] == window_checksum(h, s, (p0 + i) as nat),
            ensures
                self.position() == window_count(s.len(), h.spec_width()),
            decreases window_count(s.len(), h.spec_width()) - self.position(),
        {
            match self.next() {
                Some(c) => {
                    out.push(c);
                },
                None => {
                    break;
                },
            }
        }
        out
    }
}

/// Every checksum of the stream that `it` yields, in order: exactly one per window
/// position, and none when the stream is shorter than the width.
pub fn all_checksums<H: Hasher, I: ByteSource>(hasher: H, it: I) -> (r: Vec<H::Checksum>)
    ensures
        r@.len() == window_count(it.rest().len(), hasher.spec_width()),
        forall|i: int|
            0 <= i < r@.len() ==> #[trigger] r@[i] == window_checksum(hasher, it.rest(), i as nat),
{
    match Rolling::start(hasher, it) {
        Some(mut engine) => engine.checksums(),
        None => Vec::new(),
    }
}

/// The accumulator and checksum after `k` bytes depend on those `k` bytes alone:
/// two streams that agree on their first `k` bytes give the same result.
pub proof fn lemma_roll_prefix<H: Hasher>(h: H, s1: Seq<u8>, s2: Seq<u8>, k: nat)
    requires
        k <= s1.len(),
        k <= s2.len(),
        s1.take(k as int) == s2.take(k as int),
    ensures
        roll(h, s1, k) == roll(h, s2, k),
    decreases k,
{
    if k > 0 {
        assert(s1.take(k - 1) =~= s1.take(k as int).take(k - 1));
        assert(s2.take(k - 1) =~= s2.take(k as int).take(k - 1));
        lemma_roll_prefix(h, s1, s2, (k - 1) as nat);
        assert(s1[k - 1] == s1.take(k as int)[k - 1]);
        assert(s2[k - 1] == s2.take(k as int)[k - 1]);
        let w = h.spec_width();
        if k - 1 >= w {
            assert(s1[k - 1 - w] == s1.take(k as int)[k - 1 - w]);
            assert(s2[k - 1 - w] == s2.take(k as int)[k - 1 - w]);
        }
    }
}

/// Determinism: the checksum of window `i` is fixed by the family and the stream
/// bytes up to the window's end. Replaying the same bytes through the same family
/// gives the same checksum, whatever follows in the stream.
pub proof fn lemma_window_deterministic<H: Hasher>(h: H, s1: Seq<u8>, s2: Seq<u8>, i: nat)
    requires
        i + h.spec_width() <= s1.len(),
        i + h.spec_width() <= s2.len(),
        s1.take(i + h.spec_width() as int) == s2.take(i + h.spec_width() as int),
    ensures
        window_checksum(h, s1, i) == window_checksum(h, s2, i),
{
    lemma_roll_prefix(h, s1, s2, i + h.spec_width());
}

} // verus!
