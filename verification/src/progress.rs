//! The progress parser: what one file's run of the pipeline has told so
//! far, and what each further line of its output changes in the job.
//!
//! Time is a reading of a monotonic clock in nanoseconds; the caller takes
//! it when the line arrives.

use vstd::prelude::*;
use crate::band::{
    cap_inferred, capped, lemma_band_point_inside, lemma_bands_ordered, FileBand, MERGE_MARK,
    PAGES_SHARE, SHEET_MARK, WORD_MARK,
};
use crate::markers::{classify_line, line_facts, LineFacts};

verus! {

/// How many page durations the estimate of the time left looks back on.
pub const ETA_WINDOW: usize = 5;

/// What the pipeline is doing, as far as its output has told.
#[derive(Clone, Copy, PartialEq, Eq, Debug, Structural)]
pub enum Stage {
    /// Converting page `current` of `total`.
    Pages { current: u32, total: u32 },
    /// Merging the pages' text.
    Merging,
    /// Exporting the word document.
    WordExport,
    /// Exporting the spreadsheet.
    SheetExport,
}

/// What a line does to the estimate of the time left.
#[derive(Clone, Copy, PartialEq, Eq, Debug, Structural)]
pub enum EtaChange {
    Keep,
    Clear,
    /// A new estimate, in seconds.
    Estimate(u32),
}

/// What one line of output changes in the job, beside joining its log.
#[derive(Clone, Copy, PartialEq, Eq, Debug, Structural)]
pub struct LineUpdate {
    /// The page that is being worked on, if the line names one.
    pub page_current: Option<u32>,
    /// The number of pages, if the line tells it.
    pub page_total: Option<u32>,
    /// The stage that the line opens, if it opens one.
    pub stage: Option<Stage>,
    pub eta: EtaChange,
    /// Progress that the job has reached at least, if the line shows any.
    pub target: Option<u32>,
}

/// The number of pages from `first` to `last`, at least one.
pub open spec fn total_pages(first: u32, last: u32) -> int {
    if last < first {
        1
    } else if last - first + 1 > u32::MAX {
        u32::MAX as int
    } else {
        last - first + 1
    }
}

/// The number of pages done once page `current` is, from one up to all.
pub open spec fn done_pages(first: u32, last: u32, current: u32) -> int {
    let through = total_pages(first, current);
    if through <= total_pages(first, last) {
        through
    } else {
        total_pages(first, last)
    }
}

/// The number of pages after `current` up to `last`.
pub open spec fn remaining_pages(last: u32, current: u32) -> int {
    if last < current {
        0
    } else {
        last - current
    }
}

/// The sum of the durations in the window.
pub open spec fn window_sum(w: Seq<u64>) -> int
    decreases w.len(),
{
    if w.len() == 0 {
        0
    } else {
        window_sum(w.drop_last()) + w.last()
    }
}

/// The window with one more duration, cut back to the newest `ETA_WINDOW`.
pub open spec fn window_push(w: Seq<u64>, d: u64) -> Seq<u64> {
    let grown = w.push(d);
    if grown.len() > ETA_WINDOW {
        grown.skip(grown.len() - ETA_WINDOW)
    } else {
        grown
    }
}

/// The mean of the window times the pages left, in whole seconds, rounded
/// to the nearest (a half rounds up) and held within `u32`.
pub open spec fn eta_estimate(w: Seq<u64>, remaining: int) -> int {
    let den = w.len() as int * 1_000_000_000;
    let seconds = (2 * window_sum(w) * remaining + den) / (2 * den);
    if seconds > u32::MAX {
        u32::MAX as int
    } else {
        seconds
    }
}

/// The estimate after a page is done: one is made where the window holds a
/// duration and pages are left, else it is cleared.
pub open spec fn eta_after_done(w: Seq<u64>, remaining: int) -> EtaChange {
    if w.len() > 0 && remaining > 0 {
        EtaChange::Estimate(eta_estimate(w, remaining) as u32)
    } else {
        EtaChange::Clear
    }
}

/// Progress shown by page `current` being done: page work fills the first
/// `PAGES_SHARE` percent of the band in proportion to the pages done.
pub open spec fn pages_target(band: FileBand, first: u32, last: u32, current: u32) -> int {
    capped(
        band.point_at(
            PAGES_SHARE as int * done_pages(first, last, current),
            100 * total_pages(first, last),
        ),
    )
}

/// Progress shown by a step that starts at `mark` percent of the band.
pub open spec fn mark_target(band: FileBand, mark: u32) -> int {
    capped(band.point_at(mark as int, 100))
}

/// The larger of the target so far and `p`.
pub open spec fn raised(target: Option<u32>, p: int) -> Option<u32> {
    match target {
        Some(t) if t >= p => Some(t),
        _ => Some(p as u32),
    }
}

/// What the parser carries from line to line within one file's run.
pub struct ParserState {
    /// The announced page range.
    pub range: Option<(u32, u32)>,
    /// When the page that is being converted started.
    pub page_started: Option<u64>,
    /// The durations of the pages done last, oldest first.
    pub window: Seq<u64>,
}

impl ParserState {
    /// The window holds at most `ETA_WINDOW` durations, each above zero.
    pub open spec fn wf(self) -> bool {
        &&& self.window.len() <= ETA_WINDOW
        &&& forall|i: int| 0 <= i < self.window.len() ==> #[trigger] self.window[i] > 0
    }

    /// A parser that has read nothing yet.
    pub open spec fn fresh() -> ParserState {
        ParserState { range: None, page_started: None, window: Seq::empty() }
    }
}

/// A line being read: the parser's state and the update gathered so far.
pub struct Reading {
    pub state: ParserState,
    pub update: LineUpdate,
}

/// An update that changes nothing.
pub open spec fn no_update() -> LineUpdate {
    LineUpdate {
        page_current: None,
        page_total: None,
        stage: None,
        eta: EtaChange::Keep,
        target: None,
    }
}

/// A range is announced: it is kept, the page count follows from it, and
/// the estimate is cleared.
pub open spec fn on_range(r: Reading, first: u32, last: u32) -> Reading {
    Reading {
        state: ParserState { range: Some((first, last)), ..r.state },
        update: LineUpdate {
            page_total: Some(total_pages(first, last) as u32),
            eta: EtaChange::Clear,
            ..r.update
        },
    }
}

/// A page starts: the job shows it, the estimate is cleared and the page's
/// timer starts.
pub open spec fn on_page(r: Reading, current: u32, total: u32, now: u64) -> Reading {
    Reading {
        state: ParserState { page_started: Some(now), ..r.state },
        update: LineUpdate {
            page_current: Some(current),
            page_total: Some(total),
            stage: Some(Stage::Pages { current, total }),
            eta: EtaChange::Clear,
            ..r.update
        },
    }
}

/// The window once the running page's timer is stopped at `now`: a
/// duration above zero joins it.
pub open spec fn window_after(state: ParserState, now: u64) -> Seq<u64> {
    match state.page_started {
        Some(since) if now > since => window_push(state.window, (now - since) as u64),
        _ => state.window,
    }
}

/// The pages that progress is measured against: the announced range, or
/// else page one up to the marker's total.
pub open spec fn measured_range(state: ParserState, total: u32) -> (u32, u32) {
    match state.range {
        Some(range) => range,
        None => (1, total),
    }
}

/// A page is done: its timer stops, and progress and the estimate follow
/// from the pages done and left.
pub open spec fn on_done(r: Reading, band: FileBand, current: u32, total: u32, now: u64) -> Reading {
    let window = window_after(r.state, now);
    let (first, last) = measured_range(r.state, total);
    Reading {
        state: ParserState { range: r.state.range, page_started: None, window },
        update: LineUpdate {
            page_current: Some(current),
            page_total: Some(total),
            stage: Some(Stage::Pages { current, total }),
            eta: eta_after_done(window, remaining_pages(last, current)),
            target: raised(r.update.target, pages_target(band, first, last, current)),
        },
    }
}

/// A later step starts: the job shows it, the estimate is cleared and
/// progress reaches the step's mark.
pub open spec fn on_mark(r: Reading, band: FileBand, stage: Stage, mark: u32) -> Reading {
    Reading {
        state: r.state,
        update: LineUpdate {
            stage: Some(stage),
            eta: EtaChange::Clear,
            target: raised(r.update.target, mark_target(band, mark)),
            ..r.update
        },
    }
}

/// Reading a line that tells `facts` at time `now`: each marker takes
/// effect in turn, a later one over an earlier one.
pub open spec fn read_facts(state: ParserState, band: FileBand, facts: LineFacts, now: u64) -> Reading {
    let r0 = Reading { state, update: no_update() };
    let r1 = match facts.range {
        Some((first, last)) => on_range(r0, first, last),
        None => r0,
    };
    let r2 = match facts.page {
        Some((current, total)) => on_page(r1, current, total, now),
        None => r1,
    };
    let r3 = match facts.done {
        Some((current, total)) => on_done(r2, band, current, total, now),
        None => r2,
    };
    let r4 = if facts.merge {
        on_mark(r3, band, Stage::Merging, MERGE_MARK)
    } else {
        r3
    };
    let r5 = if facts.word {
        on_mark(r4, band, Stage::WordExport, WORD_MARK)
    } else {
        r4
    };
    if facts.sheet {
        on_mark(r5, band, Stage::SheetExport, SHEET_MARK)
    } else {
        r5
    }
}

/// The parser of one file's run.
pub struct LineParser {
    range: Option<(u32, u32)>,
    page_started: Option<u64>,
    window: Vec<u64>,
}

impl View for LineParser {
    type V = ParserState;

    closed spec fn view(&self) -> ParserState {
        ParserState { range: self.range, page_started: self.page_started, window: self.window@ }
    }
}

impl LineParser {
    /// The window holds at most `ETA_WINDOW` durations, each above zero.
    #[verifier::type_invariant]
    pub open spec fn wf(&self) -> bool {
        self@.wf()
    }
}

fn count_pages(first: u32, last: u32) -> (n: u32)
    ensures
        n == total_pages(first, last),
        n >= 1,
{
    if last < first {
        1
    } else if last - first == u32::MAX {
        u32::MAX
    } else {
        last - first + 1
    }
}

fn raise(target: Option<u32>, p: u32) -> (r: Option<u32>)
    ensures
        r == raised(target, p as int),
{
    match target {
        Some(t) => if t >= p {
            Some(t)
        } else {
            Some(p)
        },
        None => Some(p),
    }
}

/// Progress reached at `mark` percent of `band`.
pub fn target_at_mark(band: &FileBand, mark: u32) -> (p: u32)
    requires
        mark <= 100,
    ensures
        p == mark_target(*band, mark),
{
    cap_inferred(band.point(mark as u64, 100))
}

/// Progress reached once page `current` of the range is done.
pub fn target_at_page(band: &FileBand, first: u32, last: u32, current: u32) -> (p: u32)
    ensures
        p == pages_target(*band, first, last, current),
{
    let total: u32 = count_pages(first, last);
    let through: u32 = count_pages(first, current);
    let done: u32 = if through <= total {
        through
    } else {
        total
    };
    cap_inferred(band.point(PAGES_SHARE as u64 * done as u64, 100 * total as u64))
}

/// The estimate of the time left after a page is done.
pub fn estimate_after_done(window: &Vec<u64>, last: u32, current: u32) -> (eta: EtaChange)
    requires
        window.len() <= ETA_WINDOW,
    ensures
        eta == eta_after_done(window@, remaining_pages(last, current)),
{
    if window.len() == 0 || last <= current {
        return EtaChange::Clear;
    }
    let remaining: u32 = last - current;
    let mut sum: u128 = 0;
    let mut i: usize = 0;
    while i < window.len()
        invariant
            i <= window.len() <= ETA_WINDOW,
            sum == window_sum(window@.take(i as int)),
            sum <= i * 0xffff_ffff_ffff_ffff,
        decreases window.len() - i,
    {
        proof {
            assert(window@.take(i + 1).drop_last() =~= window@.take(i as int));
        }
        sum = sum + window[i] as u128;
        i += 1;
    }
    assert(window@.take(i as int) =~= window@);
    let den: u128 = window.len() as u128 * 1_000_000_000;
    assert(2 * sum * remaining <= 2 * (5 * 0xffff_ffff_ffff_ffff) * 0xffff_ffff) by (nonlinear_arith)
        requires
            0 <= sum <= 5 * 0xffff_ffff_ffff_ffff,
            0 <= remaining <= 0xffff_ffff,
    ;
    let seconds: u128 = (2 * sum * remaining as u128 + den) / (2 * den);
    if seconds > u32::MAX as u128 {
        EtaChange::Estimate(u32::MAX)
    } else {
        EtaChange::Estimate(seconds as u32)
    }
}

impl LineParser {
    /// A parser that has read nothing yet.
    pub fn new() -> (p: LineParser)
        ensures
            p@ == ParserState::fresh(),
    {
        LineParser { range: None, page_started: None, window: Vec::new() }
    }

    /// The announced page range, if one was read.
    pub fn range(&self) -> (r: Option<(u32, u32)>)
        ensures
            r == self@.range,
    {
        self.range
    }

    /// The durations that the estimate rests on, oldest first.
    pub fn window(&self) -> (w: &Vec<u64>)
        ensures
            w@ == self@.window,
    {
        &self.window
    }

    fn stop_timer(&mut self, now: u64)
        ensures
            final(self)@ == (ParserState {
                range: old(self)@.range,
                page_started: None,
                window: window_after(old(self)@, now),
            }),
    {
        proof {
            use_type_invariant(&*self);
        }
        match self.page_started {
            Some(since) => {
                if now > since {
                    let kept_from: usize = if self.window.len() >= ETA_WINDOW {
                        self.window.len() + 1 - ETA_WINDOW
                    } else {
                        0
                    };
                    let mut next: Vec<u64> = Vec::new();
                    let mut i: usize = kept_from;
                    while i < self.window.len()
                        invariant
                            kept_from <= i <= self.window.len(),
                            next@ == self.window@.subrange(kept_from as int, i as int),
                        decreases self.window.len() - i,
                    {
                        next.push(self.window[i]);
                        i += 1;
                    }
                    next.push(now - since);
                    assert(next@ =~= window_push(self.window@, (now - since) as u64));
                    self.window = next;
                }
            },
            None => {},
        }
        self.page_started = None;
    }

    /// Takes in what a line of output told at time `now` and gives what it
    /// changes in the job.
    pub fn read(&mut self, band: &FileBand, facts: &LineFacts, now: u64) -> (update: LineUpdate)
        ensures
            final(self)@ == read_facts(old(self)@, *band, *facts, now).state,
            update == read_facts(old(self)@, *band, *facts, now).update,
    {
        proof {
            use_type_invariant(&*self);
        }
        let mut update = LineUpdate {
            page_current: None,
            page_total: None,
            stage: None,
            eta: EtaChange::Keep,
            target: None,
        };
        if let Some((first, last)) = facts.range {
            self.range = Some((first, last));
            update.page_total = Some(count_pages(first, last));
            update.eta = EtaChange::Clear;
        }
        if let Some((current, total)) = facts.page {
            update.page_current = Some(current);
            update.page_total = Some(total);
            update.stage = Some(Stage::Pages { current, total });
            update.eta = EtaChange::Clear;
            self.page_started = Some(now);
        }
        if let Some((current, total)) = facts.done {
            self.stop_timer(now);
            let (first, last) = match self.range {
                Some(range) => range,
                None => (1, total),
            };
            update.page_current = Some(current);
            update.page_total = Some(total);
            update.stage = Some(Stage::Pages { current, total });
            proof {
                use_type_invariant(&*self);
            }
            update.eta = estimate_after_done(&self.window, last, current);
            update.target = raise(update.target, target_at_page(band, first, last, current));
        }
        if facts.merge {
            update.stage = Some(Stage::Merging);
            update.eta = EtaChange::Clear;
            update.target = raise(update.target, target_at_mark(band, MERGE_MARK));
        }
        if facts.word {
            update.stage = Some(Stage::WordExport);
            update.eta = EtaChange::Clear;
            update.target = raise(update.target, target_at_mark(band, WORD_MARK));
        }
        if facts.sheet {
            update.stage = Some(Stage::SheetExport);
            update.eta = EtaChange::Clear;
            update.target = raise(update.target, target_at_mark(band, SHEET_MARK));
        }
        update
    }

    /// Reads one line of the pipeline's standard output that arrived at
    /// time `now`.
    pub fn read_line(&mut self, band: &FileBand, line: &str, now: u64) -> (update: LineUpdate)
        ensures
            final(self)@ == read_facts(old(self)@, *band, line_facts(line@), now).state,
            update == read_facts(old(self)@, *band, line_facts(line@), now).update,
    {
        let facts = classify_line(line);
        self.read(band, &facts, now)
    }
}

/// Progress shown by a page lies in the file's band, or at the cap where
/// the band reaches past it.
pub proof fn lemma_pages_target_bounds(band: FileBand, first: u32, last: u32, current: u32)
    requires
        band.wf(),
    ensures
        0 <= pages_target(band, first, last, current) <= 990_000,
        pages_target(band, first, last, current) <= band.end_point(),
        pages_target(band, first, last, current) >= capped(band.start_point()),
{
    lemma_bands_ordered(band.file_index(), band.file_count());
    lemma_band_point_inside(
        band.file_index(),
        band.file_count(),
        PAGES_SHARE as int * done_pages(first, last, current),
        100 * total_pages(first, last),
    );
}

/// Progress shown by a later step lies in the file's band, or at the cap
/// where the band reaches past it.
pub proof fn lemma_mark_target_bounds(band: FileBand, mark: u32)
    requires
        band.wf(),
        mark <= 100,
    ensures
        0 <= mark_target(band, mark) <= 990_000,
        mark_target(band, mark) <= band.end_point(),
        mark_target(band, mark) >= capped(band.start_point()),
{
    lemma_bands_ordered(band.file_index(), band.file_count());
    lemma_band_point_inside(band.file_index(), band.file_count(), mark as int, 100);
}

/// Whatever a line tells, the progress it shows never passes
/// `INFERRED_CAP`, and it lies in the file's band unless the cap cut it.
pub proof fn lemma_target_capped(state: ParserState, band: FileBand, facts: LineFacts, now: u64)
    requires
        band.wf(),
    ensures
        match read_facts(state, band, facts, now).update.target {
            Some(t) => capped(band.start_point()) <= t <= 990_000 && t <= band.end_point(),
            None => true,
        },
{
    let range = match facts.range {
        Some(r) => Some(r),
        None => state.range,
    };
    match facts.done {
        Some((current, total)) => {
            let (first, last) = match range {
                Some(r) => r,
                None => (1u32, total),
            };
            lemma_pages_target_bounds(band, first, last, current);
        },
        None => {},
    }
    lemma_mark_target_bounds(band, MERGE_MARK);
    lemma_mark_target_bounds(band, WORD_MARK);
    lemma_mark_target_bounds(band, SHEET_MARK);
}

/// Reading a line keeps the window within `ETA_WINDOW` durations, each
/// above zero.
pub proof fn lemma_read_keeps_window(state: ParserState, band: FileBand, facts: LineFacts, now: u64)
    requires
        state.wf(),
    ensures
        read_facts(state, band, facts, now).state.wf(),
{
}

/// A line that carries none of the known markers changes nothing: the
/// parser stays as it is and the job gets the line for its log alone.
pub proof fn lemma_unknown_line_changes_nothing(state: ParserState, band: FileBand, now: u64)
    ensures
        read_facts(
            state,
            band,
            LineFacts {
                range: None,
                page: None,
                done: None,
                merge: false,
                word: false,
                sheet: false,
            },
            now,
        ) == (Reading { state, update: no_update() }),
{
}

/// With one page timed at a whole number of seconds, the estimate is that
/// number for each page left.
pub proof fn lemma_eta_of_one_page(seconds: nat, remaining: nat)
    requires
        seconds * 1_000_000_000 <= u64::MAX,
        0 < remaining,
        seconds * remaining <= u32::MAX,
    ensures
        eta_after_done(seq![(seconds * 1_000_000_000) as u64], remaining as int)
            == EtaChange::Estimate((seconds * remaining) as u32),
{
    let d = (seconds * 1_000_000_000) as u64;
    let w = seq![d];
    assert(w.drop_last() =~= Seq::<u64>::empty());
    assert(window_sum(w) == d) by {
        reveal_with_fuel(window_sum, 2);
    }
    let den: int = 1_000_000_000;
    assert((2 * (seconds * 1_000_000_000) * remaining + den) / (2 * den) == seconds * remaining)
        by (nonlinear_arith)
        requires
            den == 1_000_000_000,
    ;
}

} // verus!
