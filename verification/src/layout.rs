//! The arrangement of a lamp's LEDs into strands.

use vstd::prelude::*;

verus! {

/// The number of LEDs on strands of the given lengths.
pub open spec fn led_count(lengths: Seq<usize>) -> nat
    decreases lengths.len(),
{
    if lengths.len() == 0 {
        0
    } else {
        led_count(lengths.drop_last()) + lengths.last() as nat
    }
}

/// The index of the first LED of strand `strand`: the number of LEDs on the strands before it.
pub open spec fn strand_start(lengths: Seq<usize>, strand: int) -> nat {
    led_count(lengths.take(strand))
}

/// A strand starts where the one before it ends.
pub proof fn lemma_strand_start_step(lengths: Seq<usize>, strand: int)
    requires
        0 <= strand < lengths.len(),
    ensures
        strand_start(lengths, strand + 1) == strand_start(lengths, strand) + lengths[strand],
        strand_start(lengths, 0) == 0,
        strand_start(lengths, lengths.len() as int) == led_count(lengths),
{
    assert(lengths.take(strand + 1).drop_last() =~= lengths.take(strand));
    assert(lengths.take(0).len() == 0);
    assert(lengths.take(lengths.len() as int) =~= lengths);
}

/// Strands further along the lamp start at later LEDs, and none starts beyond the last LED.
pub proof fn lemma_strand_start_monotonic(lengths: Seq<usize>, near: int, far: int)
    requires
        0 <= near <= far <= lengths.len(),
    ensures
        strand_start(lengths, near) <= strand_start(lengths, far) <= led_count(lengths),
    decreases lengths.len() - near,
{
    if lengths.len() == 0 {
        assert(lengths.take(0) =~= lengths);
    } else {
        lemma_strand_start_step(lengths, 0);
        if near < far {
            lemma_strand_start_step(lengths, near);
            lemma_strand_start_monotonic(lengths, near + 1, far);
        } else if far < lengths.len() {
            lemma_strand_start_step(lengths, far);
            lemma_strand_start_monotonic(lengths, far + 1, lengths.len() as int);
        }
    }
}

/// The strands of a lamp in wiring order, each with its number of LEDs, together with the
/// running totals. A layout is fixed once made, and its LEDs can be counted in a `usize`.
pub struct StrandLayout {
    lengths: Vec<usize>,
    cumsum: Vec<usize>,
}

impl View for StrandLayout {
    type V = Seq<usize>;

    /// The strand lengths in wiring order.
    closed spec fn view(&self) -> Seq<usize> {
        self.lengths@
    }
}

impl StrandLayout {
    #[verifier::type_invariant]
    spec fn well_formed(self) -> bool {
        &&& self.cumsum.len() == self.lengths.len()
        &&& forall|i: int|
            0 <= i < self.lengths.len() ==> #[trigger] self.cumsum[i] == strand_start(
                self.lengths@,
                i + 1,
            )
    }

    /// Lays out strands of the given lengths. There is no layout when the LEDs are more than a
    /// `usize` can count.
    pub fn new(strands: Vec<usize>) -> (layout: Option<StrandLayout>)
        ensures
            layout is Some <==> led_count(strands@) <= usize::MAX,
            layout matches Some(l) ==> l@ == strands@,
    {
        let mut cumsum: Vec<usize> = Vec::new();
        let mut prev: usize = 0;
        let mut i: usize = 0;
        while i < strands.len()
            invariant
                i <= strands.len(),
                cumsum.len() == i,
                prev == strand_start(strands@, i as int),
                forall|k: int| 0 <= k < i ==> #[trigger] cumsum[k] == strand_start(strands@, k + 1),
            decreases strands.len() - i,
        {
            proof {
                lemma_strand_start_step(strands@, i as int);
                lemma_strand_start_monotonic(strands@, i as int + 1, strands.len() as int);
            }
            match prev.checked_add(strands[i]) {
                Some(next) => {
                    prev = next;
                    cumsum.push(next);
                },
                None => {
                    return None;
                },
            }
            i += 1;
        }
        proof {
            assert(strands@.take(strands.len() as int) =~= strands@);
        }
        Some(StrandLayout { lengths: strands, cumsum })
    }

    /// The number of strands.
    pub fn strands(&self) -> (n: usize)
        ensures
            n == self@.len(),
    {
        self.lengths.len()
    }

    /// The number of LEDs on one strand.
    pub fn length(&self, strand: usize) -> (n: usize)
        requires
            strand < self@.len(),
        ensures
            n == self@[strand as int],
    {
        self.lengths[strand]
    }

    /// The index of the first LED after the given strand.
    pub fn end(&self, strand: usize) -> (led: usize)
        requires
            strand < self@.len(),
        ensures
            led == strand_start(self@, strand + 1),
    {
        proof {
            use_type_invariant(self);
        }
        self.cumsum[strand]
    }

    /// The index of the first LED of the given strand.
    pub fn start(&self, strand: usize) -> (led: usize)
        requires
            strand < self@.len(),
        ensures
            led == strand_start(self@, strand as int),
    {
        proof {
            use_type_invariant(self);
            lemma_strand_start_step(self@, 0);
        }
        if strand == 0 {
            0
        } else {
            self.cumsum[strand - 1]
        }
    }

    /// The number of LEDs on all strands together.
    pub fn total(&self) -> (n: usize)
        ensures
            n == led_count(self@),
    {
        proof {
            use_type_invariant(self);
            assert(self@.take(self@.len() as int) =~= self@);
        }
        let strands: usize = self.cumsum.len();
        if strands == 0 {
            0
        } else {
            self.cumsum[strands - 1]
        }
    }

    /// The strand that holds the given LED, if the lamp has that many LEDs.
    pub fn strand_of(&self, led: usize) -> (found: Option<usize>)
        ensures
            found is Some <==> led < led_count(self@),
            found matches Some(strand) ==> {
                &&& strand < self@.len()
                &&& strand_start(self@, strand as int) <= led < strand_start(self@, strand + 1)
            },
    {
        proof {
            use_type_invariant(self);
            lemma_strand_start_monotonic(self@, 0, 0);
            assert(self@.take(0).len() == 0);
        }
        let mut idx: usize = 0;
        while idx < self.cumsum.len() && led >= self.cumsum[idx]
            invariant
                idx <= self.cumsum.len(),
                self.cumsum.len() == self.lengths.len(),
                forall|i: int|
                    0 <= i < self.lengths.len() ==> #[trigger] self.cumsum[i] == strand_start(
                        self.lengths@,
                        i + 1,
                    ),
                strand_start(self@, idx as int) <= led,
            decreases self.cumsum.len() - idx,
        {
            idx += 1;
        }
        proof {
            assert(self@.take(self@.len() as int) =~= self@);
        }
        if idx < self.cumsum.len() {
            proof {
                lemma_strand_start_monotonic(self@, idx as int + 1, self@.len() as int);
            }
            Some(idx)
        } else {
            None
        }
    }
}

} // verus!
