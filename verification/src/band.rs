//! The progress scale and the band of it that each input file owns.
//!
//! Progress is counted in millionths of the whole job: `FULL_SCALE` is 100%.
//! File `index` of `count` owns `[index / count, (index + 1) / count)` of the
//! scale, so the bands of a batch follow one another without gap or overlap.

use vstd::prelude::*;

verus! {

/// 100% of a job.
pub const FULL_SCALE: u32 = 1_000_000;

/// Progress that is inferred from the pipeline's output never passes 99%.
pub const INFERRED_CAP: u32 = 990_000;

/// Percentage of a file's band that page-by-page work fills.
pub const PAGES_SHARE: u32 = 90;

/// Percentage of a file's band reached when the merge step starts.
pub const MERGE_MARK: u32 = 92;

/// Percentage of a file's band reached when the word export starts.
pub const WORD_MARK: u32 = 96;

/// Percentage of a file's band reached when the spreadsheet export starts.
pub const SHEET_MARK: u32 = 99;

/// Where the band of file `index` of `count` begins.
pub open spec fn band_start(index: int, count: int) -> int {
    index * 1_000_000 / count
}

/// Where the band of file `index` of `count` ends: where the next begins.
pub open spec fn band_end(index: int, count: int) -> int {
    band_start(index + 1, count)
}

/// The point of the band that lies `num / den` of the way through it.
pub open spec fn band_point(index: int, count: int, num: int, den: int) -> int {
    band_start(index, count) + (band_end(index, count) - band_start(index, count)) * num / den
}

/// Inferred progress is cut off at `INFERRED_CAP`.
pub open spec fn capped(target: int) -> int {
    if target <= 990_000 {
        target
    } else {
        990_000
    }
}

/// One input file's place in its batch.
#[derive(Clone, Copy, PartialEq, Eq, Debug, Structural)]
pub struct FileBand {
    index: usize,
    count: usize,
}

/// The bands of a batch are in order, each inside the scale, and the last
/// one ends at 100%.
pub proof fn lemma_bands_ordered(index: int, count: int)
    requires
        0 <= index < count,
    ensures
        band_start(index, count) <= band_end(index, count) <= 1_000_000,
        band_start(0, count) == 0,
        band_end(count - 1, count) == 1_000_000,
{
    assert(0 <= index * 1_000_000 / count <= (index + 1) * 1_000_000 / count) by (nonlinear_arith)
        requires
            0 <= index,
            count > 0,
    ;
    assert((index + 1) * 1_000_000 / count <= 1_000_000) by (nonlinear_arith)
        requires
            0 <= index < count,
    ;
    assert(0int * 1_000_000 / count == 0) by (nonlinear_arith)
        requires
            count > 0,
    ;
    assert((count - 1 + 1) * 1_000_000 / count == 1_000_000) by (nonlinear_arith)
        requires
            count > 0,
    ;
}

/// A later file's band begins no earlier than an earlier file's band ends.
pub proof fn lemma_bands_disjoint(earlier: int, later: int, count: int)
    requires
        0 <= earlier < later < count,
    ensures
        band_end(earlier, count) <= band_start(later, count),
{
    assert((earlier + 1) * 1_000_000 / count <= later * 1_000_000 / count) by (nonlinear_arith)
        requires
            0 <= earlier,
            earlier + 1 <= later,
            count > 0,
    ;
}

/// A point of a band lies inside it, and a larger fraction lies no earlier.
pub proof fn lemma_band_point_inside(index: int, count: int, num: int, den: int)
    requires
        0 <= index < count,
        0 <= num <= den,
        den > 0,
    ensures
        band_start(index, count) <= band_point(index, count, num, den) <= band_end(index, count),
{
    lemma_bands_ordered(index, count);
    let span = band_end(index, count) - band_start(index, count);
    assert(0 <= span * num / den <= span) by (nonlinear_arith)
        requires
            0 <= span,
            0 <= num <= den,
            den > 0,
    ;
}

/// The band of file `index` of `count`.
pub closed spec fn band_of(index: int, count: int) -> FileBand {
    FileBand { index: index as usize, count: count as usize }
}

/// The band of a file is that file's.
pub proof fn lemma_band_of(index: int, count: int)
    requires
        0 <= index < count <= usize::MAX,
    ensures
        band_of(index, count).file_index() == index,
        band_of(index, count).file_count() == count,
        band_of(index, count).wf(),
{
}

impl FileBand {
    /// The file's place in the batch, from zero.
    pub closed spec fn file_index(self) -> int {
        self.index as int
    }

    /// The number of files in the batch.
    pub closed spec fn file_count(self) -> int {
        self.count as int
    }

    /// There is such a file: every band that exists meets this.
    #[verifier::type_invariant]
    pub open spec fn wf(self) -> bool {
        0 <= self.file_index() < self.file_count()
    }

    pub open spec fn start_point(self) -> int {
        band_start(self.file_index(), self.file_count())
    }

    pub open spec fn end_point(self) -> int {
        band_end(self.file_index(), self.file_count())
    }

    pub open spec fn point_at(self, num: int, den: int) -> int {
        band_point(self.file_index(), self.file_count(), num, den)
    }

    /// The band of file `index` of `count`, where there is such a file.
    pub fn new(index: usize, count: usize) -> (band: Option<FileBand>)
        ensures
            band is Some <==> index < count,
            band matches Some(b) ==> b == band_of(index as int, count as int) && b.file_index()
                == index && b.file_count() == count,
    {
        if index < count {
            Some(FileBand { index, count })
        } else {
            None
        }
    }

    pub fn index(&self) -> (i: usize)
        ensures
            i == self.file_index(),
    {
        self.index
    }

    pub fn count(&self) -> (n: usize)
        ensures
            n == self.file_count(),
    {
        self.count
    }

    pub fn start(&self) -> (p: u32)
        ensures
            p == self.start_point(),
            p <= FULL_SCALE,
    {
        proof {
            use_type_invariant(self);
            lemma_bands_ordered(self.index as int, self.count as int);
        }
        let scaled: u128 = self.index as u128 * 1_000_000;
        (scaled / self.count as u128) as u32
    }

    pub fn end(&self) -> (p: u32)
        ensures
            p == self.end_point(),
            p <= FULL_SCALE,
    {
        proof {
            use_type_invariant(self);
            lemma_bands_ordered(self.index as int, self.count as int);
        }
        let scaled: u128 = (self.index as u128 + 1) * 1_000_000;
        (scaled / self.count as u128) as u32
    }

    /// The point `num / den` of the way through the band.
    pub fn point(&self, num: u64, den: u64) -> (p: u32)
        requires
            num <= den,
            den > 0,
        ensures
            p == self.point_at(num as int, den as int),
            self.start_point() <= p <= self.end_point(),
            p <= FULL_SCALE,
    {
        proof {
            use_type_invariant(self);
            lemma_bands_ordered(self.index as int, self.count as int);
            lemma_band_point_inside(self.index as int, self.count as int, num as int, den as int);
        }
        let start: u32 = self.start();
        let span: u32 = self.end() - start;
        assert(span as int * num as int <= 1_000_000 * 0x1_0000_0000_0000_0000) by (nonlinear_arith)
            requires
                0 <= span <= 1_000_000,
                0 <= num < 0x1_0000_0000_0000_0000,
        ;
        let scaled: u128 = span as u128 * num as u128;
        let offset: u128 = scaled / den as u128;
        start + offset as u32
    }
}

/// Cuts inferred progress off at `INFERRED_CAP`.
pub fn cap_inferred(target: u32) -> (p: u32)
    ensures
        p == capped(target as int),
        p <= INFERRED_CAP,
{
    if target <= INFERRED_CAP {
        target
    } else {
        INFERRED_CAP
    }
}

} // verus!
