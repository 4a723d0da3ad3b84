//! Peak levels, on samples as the bit patterns of 32-bit floats.
//!
//! Without its sign bit, the pattern of a float orders as the magnitude of the
//! float does.

use vstd::prelude::*;

verus! {

/// The pattern of infinity: patterns beyond it are no numbers.
pub const INFINITY_BITS: u32 = 0x7f80_0000;

/// The pattern of the magnitude of a sample.
pub open spec fn magnitude(sample: u32) -> u32 {
    sample % 0x8000_0000
}

/// Whether a sample is a number.
pub open spec fn is_number(sample: u32) -> bool {
    magnitude(sample) <= INFINITY_BITS
}

/// The peak after a sample. A sample that is no number does not count.
pub open spec fn louder_of(peak: u32, sample: u32) -> u32 {
    if is_number(sample) && magnitude(sample) > peak {
        magnitude(sample)
    } else {
        peak
    }
}

/// The peak after some samples.
pub open spec fn peak_after(peak: u32, samples: Seq<u32>) -> u32
    decreases samples.len(),
{
    if samples.len() == 0 {
        peak
    } else {
        louder_of(peak_after(peak, samples.drop_last()), samples.last())
    }
}

/// The peak after a sample.
pub fn louder(peak: u32, sample: u32) -> (p: u32)
    ensures
        p == louder_of(peak, sample),
{
    let m: u32 = sample % 0x8000_0000;
    if m <= INFINITY_BITS && m > peak {
        m
    } else {
        peak
    }
}

/// The peak of a block.
pub fn block_peak(samples: &[u32]) -> (p: u32)
    ensures
        p == peak_after(0, samples@),
{
    let mut p: u32 = 0;
    let mut i: usize = 0;
    while i < samples.len()
        invariant
            i <= samples@.len(),
            p == peak_after(0, samples@.take(i as int)),
        decreases samples@.len() - i,
    {
        assert(samples@.take(i as int + 1).drop_last() =~= samples@.take(i as int));
        p = louder(p, samples[i]);
        i = i + 1;
    }
    assert(samples@.take(samples@.len() as int) =~= samples@);
    p
}

/// Levels, as the bit patterns of 32-bit floats.
#[derive(Debug, Clone, Copy, PartialEq, Eq, Structural)]
pub struct Levels {
    /// The peak since the last reading.
    pub peak: u32,
    /// The root of the mean square of the last block.
    pub rms: u32,
}

/// The levels after one more block, given the root of its mean square. A block without
/// samples does not count.
pub open spec fn noted(levels: Levels, block: Seq<u32>, rms: u32) -> Levels {
    if block.len() == 0 {
        levels
    } else {
        Levels { peak: louder_of(levels.peak, peak_after(0, block)), rms }
    }
}

/// The levels after several more blocks, each with the root of its mean square.
pub open spec fn noted_all(levels: Levels, blocks: Seq<(Seq<u32>, u32)>) -> Levels
    decreases blocks.len(),
{
    if blocks.len() == 0 {
        levels
    } else {
        noted(noted_all(levels, blocks.drop_last()), blocks.last().0, blocks.last().1)
    }
}

/// The samples of several blocks, one block behind the other.
pub open spec fn joined(blocks: Seq<(Seq<u32>, u32)>) -> Seq<u32>
    decreases blocks.len(),
{
    if blocks.len() == 0 {
        Seq::empty()
    } else {
        joined(blocks.drop_last()) + blocks.last().0
    }
}

/// Keeps the levels of what it hears.
#[derive(Debug, Clone, Copy)]
pub struct LevelHold {
    levels: Levels,
}

impl View for LevelHold {
    type V = Levels;

    closed spec fn view(&self) -> Levels {
        self.levels
    }
}

impl LevelHold {
    /// A hold that nothing was noted in.
    pub fn new() -> (h: Self)
        ensures
            h@ == (Levels { peak: 0, rms: 0 }),
    {
        LevelHold { levels: Levels { peak: 0, rms: 0 } }
    }

    /// A hold of the given levels.
    pub fn of(levels: Levels) -> (h: Self)
        ensures
            h@ == levels,
    {
        LevelHold { levels }
    }

    /// The levels; nothing starts over.
    pub fn levels(&self) -> (levels: Levels)
        ensures
            levels == self@,
    {
        self.levels
    }

    /// Notes a block and the root of its mean square.
    pub fn note(&mut self, samples: &[u32], rms: u32)
        ensures
            final(self)@ == noted(old(self)@, samples@, rms),
    {
        if samples.len() > 0 {
            let peak: u32 = louder(self.levels.peak, block_peak(samples));
            self.levels = Levels { peak, rms };
        }
    }

    /// Reads the levels. The peak starts over; the other level stays.
    pub fn snapshot(&mut self) -> (levels: Levels)
        ensures
            levels == old(self)@,
            final(self)@ == (Levels { peak: 0, rms: old(self)@.rms }),
    {
        let levels = self.levels;
        self.levels = Levels { peak: 0, rms: levels.rms };
        levels
    }
}

/// No number among the samples is louder than the peak, and the peak is the
/// magnitude of one of them, unless it is the one from before.
pub proof fn law_peak_is_the_loudest(peak: u32, samples: Seq<u32>)
    ensures
        peak <= peak_after(peak, samples),
        forall|i: int|
            0 <= i < samples.len() && is_number(#[trigger] samples[i]) ==> magnitude(samples[i])
                <= peak_after(peak, samples),
        peak_after(peak, samples) == peak || exists|i: int|
            0 <= i < samples.len() && magnitude(#[trigger] samples[i]) == peak_after(peak, samples),
    decreases samples.len(),
{
    if samples.len() > 0 {
        let rest = samples.drop_last();
        law_peak_is_the_loudest(peak, rest);
        let before = peak_after(peak, rest);
        let after = peak_after(peak, samples);
        assert forall|i: int| 0 <= i < samples.len() && is_number(#[trigger] samples[i]) implies magnitude(samples[i]) <= after by {
            if i < rest.len() {
                assert(rest[i] == samples[i]);
            }
        }
        if after != before {
            assert(magnitude(samples[samples.len() - 1]) == after);
        } else if before != peak {
            let i = choose|i: int|
                0 <= i < rest.len() && magnitude(#[trigger] rest[i]) == before;
            assert(samples[i] == rest[i]);
        }
    }
}

proof fn lemma_peak_is_a_number(peak: u32, samples: Seq<u32>)
    requires
        peak <= INFINITY_BITS,
    ensures
        peak_after(peak, samples) <= INFINITY_BITS,
    decreases samples.len(),
{
    if samples.len() > 0 {
        lemma_peak_is_a_number(peak, samples.drop_last());
    }
}

proof fn lemma_peak_goes_on(peak: u32, block: Seq<u32>)
    ensures
        louder_of(peak, peak_after(0, block)) == peak_after(peak, block),
    decreases block.len(),
{
    lemma_peak_is_a_number(0, block);
    if block.len() > 0 {
        lemma_peak_goes_on(peak, block.drop_last());
        lemma_peak_is_a_number(0, block.drop_last());
    }
}

proof fn lemma_peak_of_both(peak: u32, a: Seq<u32>, b: Seq<u32>)
    ensures
        peak_after(peak, a + b) == peak_after(peak_after(peak, a), b),
    decreases b.len(),
{
    if b.len() == 0 {
        assert(a + b =~= a);
    } else {
        assert((a + b).drop_last() =~= a + b.drop_last());
        lemma_peak_of_both(peak, a, b.drop_last());
    }
}

/// However many blocks were noted since the peak started over, the peak is that of all
/// their samples together, and the other level is that of the last block with samples
/// alone.
pub proof fn law_levels_of_several_blocks(start: Levels, blocks: Seq<(Seq<u32>, u32)>)
    requires
        start.peak == 0,
    ensures
        noted_all(start, blocks).peak == peak_after(0, joined(blocks)),
        blocks.len() > 0 && blocks.last().0.len() > 0 ==> noted_all(start, blocks).rms
            == blocks.last().1,
        joined(blocks).len() == 0 ==> noted_all(start, blocks) == start,
    decreases blocks.len(),
{
    if blocks.len() > 0 {
        let before = blocks.drop_last();
        let block = blocks.last().0;
        law_levels_of_several_blocks(start, before);
        lemma_peak_goes_on(noted_all(start, before).peak, block);
        lemma_peak_of_both(0, joined(before), block);
        if block.len() == 0 {
            assert(joined(blocks) =~= joined(before));
        }
    }
}

/// A sample counts with the pattern that is left without its sign, and one that is no
/// number, beyond infinity, does not count: the peak is the greater of the two.
pub proof fn law_what_counts_for_the_peak(peak: u32, sample: u32)
    ensures
        sample <= 0x7f80_0000 ==> louder_of(peak, sample) == if sample > peak {
            sample
        } else {
            peak
        },
        0x7f80_0000 < sample < 0x8000_0000 ==> louder_of(peak, sample) == peak,
        0x8000_0000 <= sample <= 0xff80_0000 ==> louder_of(peak, sample) == if sample - 0x8000_0000
            > peak {
            (sample - 0x8000_0000) as u32
        } else {
            peak
        },
        sample > 0xff80_0000 ==> louder_of(peak, sample) == peak,
{
}

/// The peak after one block and the next is that after both, and a block without samples
/// changes nothing.
pub proof fn law_peaks_go_on(peak: u32, a: Seq<u32>, b: Seq<u32>, sample: u32)
    ensures
        peak_after(peak, Seq::empty()) == peak,
        peak_after(peak, seq![sample]) == louder_of(peak, sample),
        peak_after(peak, a + b) == peak_after(peak_after(peak, a), b),
{
    assert(seq![sample].drop_last() =~= Seq::<u32>::empty());
    assert(peak_after(peak, seq![sample].drop_last()) == peak);
    lemma_peak_of_both(peak, a, b);
}

} // verus!
