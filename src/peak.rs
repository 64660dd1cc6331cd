//! The shared peak: a running maximum that the audio side folds samples into and
//! that the monitor reads and resets once per window.
use vstd::prelude::*;
use crate::binary32::{Binary32, ZERO_BITS};

verus! {

/// The pattern of `1.0`: a full-scale reading that the capture path is known to
/// produce spuriously.
pub const FULL_SCALE_BITS: u32 = 0x3f80_0000;

/// The pattern of `-1.0000001`, the nearest binary32 below `-1.0`: another known
/// bad reading.
pub const SENTINEL_BITS: u32 = 0xbf80_0001;

/// The larger of two levels under IEEE `<`. A NaN candidate never replaces the
/// current value.
pub open spec fn max_level(current: Binary32, candidate: Binary32) -> Binary32 {
    if current.spec_lt(candidate) {
        candidate
    } else {
        current
    }
}

/// What folding the levels of `levels`, in order, into `start` leaves.
pub open spec fn fold_levels(start: Binary32, levels: Seq<Binary32>) -> Binary32
    decreases levels.len(),
{
    if levels.len() == 0 {
        start
    } else {
        max_level(fold_levels(start, levels.drop_last()), levels.last())
    }
}

/// Folding any sequence of levels into a number gives their maximum: the result
/// is a number, it lies below neither the start nor any folded level, and it is
/// the start or one of the folded levels. This is what `read_and_reset` returns
/// after `fold` was called with those levels on a cell holding `start`.
pub proof fn lemma_fold_is_maximum(start: Binary32, levels: Seq<Binary32>)
    requires
        !start.is_nan(),
    ensures
        !fold_levels(start, levels).is_nan(),
        !fold_levels(start, levels).spec_lt(start),
        forall|i: int|
            0 <= i < levels.len() ==> !fold_levels(start, levels).spec_lt(#[trigger] levels[i]),
        fold_levels(start, levels) == start || exists|i: int|
            0 <= i < levels.len() && fold_levels(start, levels) == levels[i],
    decreases levels.len(),
{
    if levels.len() > 0 {
        let rest = levels.drop_last();
        lemma_fold_is_maximum(start, rest);
        let before = fold_levels(start, rest);
        if before != start {
            let j = choose|j: int| 0 <= j < rest.len() && before == rest[j];
            assert(levels[j] == rest[j]);
        }
        if before.spec_lt(levels.last()) {
            assert(levels[levels.len() - 1] == levels.last());
        }
        assert forall|i: int| 0 <= i < levels.len() implies !fold_levels(start, levels).spec_lt(
            #[trigger] levels[i],
        ) by {
            if i < levels.len() - 1 {
                assert(levels[i] == rest[i]);
            }
        }
    }
}

/// A sample that compares equal to `1.0` or to `-1.0000001`, and is skipped.
pub open spec fn is_degenerate(sample: Binary32) -> bool {
    sample.spec_ieee_eq(Binary32 { bits: FULL_SCALE_BITS }) || sample.spec_ieee_eq(
        Binary32 { bits: SENTINEL_BITS },
    )
}

/// The level a sample contributes: none for a degenerate one, else its magnitude.
pub open spec fn sample_levels(samples: Seq<Binary32>) -> Seq<Binary32>
    decreases samples.len(),
{
    if samples.len() == 0 {
        Seq::empty()
    } else {
        let rest = sample_levels(samples.drop_last());
        if is_degenerate(samples.last()) {
            rest
        } else {
            rest.push(samples.last().spec_abs())
        }
    }
}

/// Extending a prefix of samples by one extends its levels by that sample's, if any.
proof fn lemma_sample_levels_prefix(samples: Seq<Binary32>, i: int)
    requires
        0 <= i < samples.len(),
    ensures
        sample_levels(samples.subrange(0, i + 1)) == if is_degenerate(samples[i]) {
            sample_levels(samples.subrange(0, i))
        } else {
            sample_levels(samples.subrange(0, i)).push(samples[i].spec_abs())
        },
{
    let prefix = samples.subrange(0, i + 1);
    assert(prefix.drop_last() =~= samples.subrange(0, i));
    assert(prefix.last() == samples[i]);
}

/// Every sample that is not degenerate contributes its magnitude, and every level
/// contributed is the magnitude of such a sample.
proof fn lemma_sample_levels_members(samples: Seq<Binary32>)
    ensures
        forall|i: int|
            0 <= i < samples.len() && !is_degenerate(#[trigger] samples[i]) ==> sample_levels(
                samples,
            ).contains(samples[i].spec_abs()),
        forall|j: int|
            #![trigger sample_levels(samples)[j]]
            0 <= j < sample_levels(samples).len() ==> exists|i: int|
                0 <= i < samples.len() && !is_degenerate(#[trigger] samples[i])
                    && sample_levels(samples)[j] == samples[i].spec_abs(),
    decreases samples.len(),
{
    if samples.len() > 0 {
        let rest = samples.drop_last();
        let last = samples.len() - 1;
        lemma_sample_levels_members(rest);
        let before = sample_levels(rest);
        let levels = sample_levels(samples);
        assert forall|i: int|
            0 <= i < samples.len() && !is_degenerate(#[trigger] samples[i]) implies levels.contains(
            samples[i].spec_abs(),
        ) by {
            if i < last {
                assert(rest[i] == samples[i]);
                let j = choose|j: int| 0 <= j < before.len() && before[j] == rest[i].spec_abs();
                assert(levels[j] == before[j]);
            } else {
                assert(levels[levels.len() - 1] == samples[i].spec_abs());
            }
        }
        assert forall|j: int| #![trigger levels[j]] 0 <= j < levels.len() implies exists|i: int|
            0 <= i < samples.len() && !is_degenerate(#[trigger] samples[i]) && levels[j]
                == samples[i].spec_abs() by {
            if j < before.len() {
                assert(levels[j] == before[j]);
                let i = choose|i: int|
                    0 <= i < rest.len() && !is_degenerate(#[trigger] rest[i]) && before[j]
                        == rest[i].spec_abs();
                assert(samples[i] == rest[i]);
            } else {
                assert(levels[j] == samples[last].spec_abs());
            }
        }
    }
}

/// The peak after folding a block is the largest magnitude among its samples
/// that are not degenerate: it lies below neither the starting peak nor any of
/// them, and it is the starting peak or one of them.
pub proof fn lemma_block_peak(start: Binary32, samples: Seq<Binary32>)
    requires
        !start.is_nan(),
    ensures
        !fold_levels(start, sample_levels(samples)).is_nan(),
        !fold_levels(start, sample_levels(samples)).spec_lt(start),
        forall|i: int|
            0 <= i < samples.len() && !is_degenerate(#[trigger] samples[i]) ==> !fold_levels(
                start,
                sample_levels(samples),
            ).spec_lt(samples[i].spec_abs()),
        fold_levels(start, sample_levels(samples)) == start || exists|i: int|
            0 <= i < samples.len() && !is_degenerate(#[trigger] samples[i]) && fold_levels(
                start,
                sample_levels(samples),
            ) == samples[i].spec_abs(),
{
    let levels = sample_levels(samples);
    let p = fold_levels(start, levels);
    lemma_sample_levels_members(samples);
    lemma_fold_is_maximum(start, levels);
    assert forall|i: int|
        0 <= i < samples.len() && !is_degenerate(#[trigger] samples[i]) implies !p.spec_lt(
        samples[i].spec_abs(),
    ) by {
        assert(levels.contains(samples[i].spec_abs()));
        let j = choose|j: int| 0 <= j < levels.len() && levels[j] == samples[i].spec_abs();
        assert(!p.spec_lt(levels[j]));
    }
    if p != start {
        let j = choose|j: int| 0 <= j < levels.len() && p == levels[j];
        assert(exists|i: int|
            0 <= i < samples.len() && !is_degenerate(#[trigger] samples[i]) && levels[j]
                == samples[i].spec_abs());
    }
}

/// A running maximum with the value it is reset to.
///
/// The audio side folds in the magnitude of each sample, so the cell holds the
/// loudest magnitude of the current window; its floor is `+0.0`. Because the
/// decibel conversion is monotone, the level of that magnitude is the loudest
/// level of the window.
pub struct PeakCell {
    peak: Binary32,
    floor: Binary32,
}

impl PeakCell {
    /// The value held now.
    pub closed spec fn spec_peak(&self) -> Binary32 {
        self.peak
    }

    /// The value a reset brings back.
    pub closed spec fn spec_floor(&self) -> Binary32 {
        self.floor
    }

    /// Never NaN, and never below the floor.
    pub open spec fn wf(&self) -> bool {
        !self.spec_floor().is_nan() && !self.spec_peak().is_nan() && !self.spec_peak().spec_lt(
            self.spec_floor(),
        )
    }

    /// A cell at `floor`, which must be a number.
    pub fn new(floor: Binary32) -> (r: PeakCell)
        requires
            !floor.is_nan(),
        ensures
            r.wf(),
            r.spec_peak() == floor,
            r.spec_floor() == floor,
    {
        PeakCell { peak: floor, floor }
    }

    /// A cell for sample magnitudes, at `+0.0`.
    pub fn for_magnitudes() -> (r: PeakCell)
        ensures
            r.wf(),
            r.spec_peak() == (Binary32 { bits: ZERO_BITS }),
            r.spec_floor() == (Binary32 { bits: ZERO_BITS }),
    {
        PeakCell::new(Binary32 { bits: ZERO_BITS })
    }

    /// The value held now.
    pub fn peak(&self) -> (r: Binary32)
        ensures
            r == self.spec_peak(),
    {
        self.peak
    }

    /// The value a reset brings back.
    pub fn floor(&self) -> (r: Binary32)
        ensures
            r == self.spec_floor(),
    {
        self.floor
    }

    /// Raises the cell to `level` when `level` is larger.
    pub fn fold(&mut self, level: Binary32)
        requires
            old(self).wf(),
        ensures
            final(self).wf(),
            final(self).spec_floor() == old(self).spec_floor(),
            final(self).spec_peak() == max_level(old(self).spec_peak(), level),
            !final(self).spec_peak().spec_lt(old(self).spec_peak()),
    {
        if self.peak.less_than(&level) {
            self.peak = level;
        }
    }

    /// Returns the value held and puts the cell back to its floor.
    pub fn read_and_reset(&mut self) -> (r: Binary32)
        requires
            old(self).wf(),
        ensures
            final(self).wf(),
            r == old(self).spec_peak(),
            final(self).spec_floor() == old(self).spec_floor(),
            final(self).spec_peak() == old(self).spec_floor(),
    {
        let r = self.peak;
        self.peak = self.floor;
        r
    }

    /// Folds one block of samples: each one that is not degenerate contributes
    /// its magnitude.
    pub fn fold_block(&mut self, samples: &[Binary32])
        requires
            old(self).wf(),
        ensures
            final(self).wf(),
            final(self).spec_floor() == old(self).spec_floor(),
            final(self).spec_peak() == fold_levels(
                old(self).spec_peak(),
                sample_levels(samples@),
            ),
            !final(self).spec_peak().spec_lt(old(self).spec_peak()),
    {
        let ghost start = self.peak;
        let full_scale = Binary32 { bits: FULL_SCALE_BITS };
        let sentinel = Binary32 { bits: SENTINEL_BITS };
        let mut i: usize = 0;
        while i < samples.len()
            invariant
                i <= samples@.len(),
                full_scale == (Binary32 { bits: FULL_SCALE_BITS }),
                sentinel == (Binary32 { bits: SENTINEL_BITS }),
                self.wf(),
                self.spec_floor() == old(self).spec_floor(),
                self.spec_peak() == fold_levels(start, sample_levels(samples@.subrange(0, i as int))),
            decreases samples@.len() - i,
        {
            let sample = samples[i];
            proof {
                lemma_sample_levels_prefix(samples@, i as int);
            }
            if !(sample.ieee_eq(&full_scale) || sample.ieee_eq(&sentinel)) {
                let level = sample.abs();
                proof {
                    let before = sample_levels(samples@.subrange(0, i as int));
                    assert(before.push(level).drop_last() =~= before);
                }
                self.fold(level);
            }
            i = i + 1;
        }
        assert(samples@.subrange(0, samples@.len() as int) =~= samples@);
        proof {
            lemma_fold_is_maximum(start, sample_levels(samples@));
        }
    }
}

} // verus!
