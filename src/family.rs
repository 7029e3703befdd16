use vstd::prelude::*;

verus! {

/// A rolling checksum family.
///
/// A family has a fixed positive window width and an update rule that evicts one
/// byte and admits another, given only the previous accumulator. Its behaviour is
/// described by the spec functions `spec_width` and `spec_step`; every executable
/// method is bound to them.
pub trait Hasher: Sized {
    /// The digest of one window.
    type Checksum;

    /// The carry value from which the next checksum is computed.
    type State;

    /// The window width of this family instance.
    spec fn spec_width(&self) -> nat;

    /// The placeholder checksum that stands for "no data yet".
    spec fn spec_empty_checksum() -> Self::Checksum;

    /// The accumulator of an empty window.
    spec fn spec_initial_state() -> Self::State;

    /// The checksum and accumulator after evicting `old_byte` and admitting `new_byte`.
    spec fn spec_step(
        &self,
        state: Self::State,
        old_byte: u8,
        new_byte: u8,
    ) -> (Self::Checksum, Self::State);

    fn width(&self) -> (r: usize)
        ensures
            r as nat == self.spec_width(),
            r > 0,
    ;

    fn empty_checksum() -> (r: Self::Checksum)
        ensures
            r == Self::spec_empty_checksum(),
    ;

    fn initial_state() -> (r: Self::State)
        ensures
            r == Self::spec_initial_state(),
    ;

    /// Evicts `old_byte`, admits `new_byte`; runs in time independent of the width.
    fn process_byte(&self, state: Self::State, old_byte: u8, new_byte: u8) -> (r: (
        Self::Checksum,
        Self::State,
    ))
        ensures
            r == self.spec_step(state, old_byte, new_byte),
    ;

    /// Applies `process_byte` to each pair `(old_data[k], new_data[k])` in turn and
    /// returns the last checksum with the final accumulator. Where the two slices
    /// differ in length, the pairs stop at the shorter one. An override must give
    /// the same result.
    fn process_slice(&self, state: Self::State, old_data: &[u8], new_data: &[u8]) -> (r: (
        Self::Checksum,
        Self::State,
    ))
        ensures
            r == step_pairs(
                |s: Self::State, o: u8, n: u8| self.spec_step(s, o, n),
                Self::spec_empty_checksum(),
                state,
                old_data@,
                new_data@,
                pair_count(old_data@, new_data@),
            ),
    {
        let n: usize = if old_data.len() < new_data.len() {
            old_data.len()
        } else {
            new_data.len()
        };
        let mut hold = (Self::empty_checksum(), state);
        let mut k: usize = 0;
        while k < n
            invariant
                n == pair_count(old_data@, new_data@),
                n <= old_data@.len(),
                n <= new_data@.len(),
                k <= n,
                hold == step_pairs(
                    |s: Self::State, o: u8, n: u8| self.spec_step(s, o, n),
                    Self::spec_empty_checksum(),
                    state,
                    old_data@,
                    new_data@,
                    k as nat,
                ),
            decreases n - k,
        {
            let (_, prev) = hold;
            hold = self.process_byte(prev, old_data[k], new_data[k]);
            k = k + 1;
        }
        hold
    }

    /// `process_slice` over one block of 8 bytes.
    fn process_chunk64(&self, state: Self::State, old_data: &[u8; 8], new_data: &[u8; 8]) -> (r: (
        Self::Checksum,
        Self::State,
    ))
        ensures
            r == step_pairs(
                |s: Self::State, o: u8, n: u8| self.spec_step(s, o, n),
                Self::spec_empty_checksum(),
                state,
                old_data@,
                new_data@,
                8,
            ),
    {
        self.process_slice(state, old_data.as_slice(), new_data.as_slice())
    }

    /// `process_slice` over one block of 16 bytes.
    fn process_chunk128(&self, state: Self::State, old_data: &[u8; 16], new_data: &[u8; 16]) -> (r: (
        Self::Checksum,
        Self::State,
    ))
        ensures
            r == step_pairs(
                |s: Self::State, o: u8, n: u8| self.spec_step(s, o, n),
                Self::spec_empty_checksum(),
                state,
                old_data@,
                new_data@,
                16,
            ),
    {
        self.process_slice(state, old_data.as_slice(), new_data.as_slice())
    }

    /// `process_slice` over one block of 32 bytes.
    fn process_chunk256(&self, state: Self::State, old_data: &[u8; 32], new_data: &[u8; 32]) -> (r: (
        Self::Checksum,
        Self::State,
    ))
        ensures
            r == step_pairs(
                |s: Self::State, o: u8, n: u8| self.spec_step(s, o, n),
                Self::spec_empty_checksum(),
                state,
                old_data@,
                new_data@,
                32,
            ),
    {
        self.process_slice(state, old_data.as_slice(), new_data.as_slice())
    }

    /// `process_slice` over one block of 64 bytes.
    fn process_chunk512(&self, state: Self::State, old_data: &[u8; 64], new_data: &[u8; 64]) -> (r: (
        Self::Checksum,
        Self::State,
    ))
        ensures
            r == step_pairs(
                |s: Self::State, o: u8, n: u8| self.spec_step(s, o, n),
                Self::spec_empty_checksum(),
                state,
                old_data@,
                new_data@,
                64,
            ),
    {
        self.process_slice(state, old_data.as_slice(), new_data.as_slice())
    }
}

/// How many `(old, new)` pairs a batch update walks: the shorter length.
pub open spec fn pair_count(old_data: Seq<u8>, new_data: Seq<u8>) -> nat {
    if old_data.len() < new_data.len() {
        old_data.len()
    } else {
        new_data.len()
    }
}

/// The result of applying `step` to the first `k` pairs in order, starting from
/// `state`, keeping only the last checksum (`empty` when `k` is 0).
pub open spec fn step_pairs<C, S>(
    step: spec_fn(S, u8, u8) -> (C, S),
    empty: C,
    state: S,
    old_data: Seq<u8>,
    new_data: Seq<u8>,
    k: nat,
) -> (C, S)
    decreases k,
{
    if k == 0 {
        (empty, state)
    } else {
        let prev = step_pairs(step, empty, state, old_data, new_data, (k - 1) as nat);
        step(prev.1, old_data[k - 1], new_data[k - 1])
    }
}

} // verus!
