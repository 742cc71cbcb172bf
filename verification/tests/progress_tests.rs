use ocr_jobs::band::{cap_inferred, FileBand, FULL_SCALE, INFERRED_CAP};
use ocr_jobs::markers::{classify_line, LineFacts};
use ocr_jobs::progress::{
    estimate_after_done, target_at_mark, target_at_page, EtaChange, LineParser, LineUpdate, Stage,
};

const SECOND: u64 = 1_000_000_000;

fn whole_job() -> FileBand {
    FileBand::new(0, 1).unwrap()
}

fn nothing() -> LineFacts {
    LineFacts { range: None, page: None, done: None, merge: false, word: false, sheet: false }
}

#[test]
fn range_line_is_recognised() {
    let facts = classify_line("処理範囲: 3〜9");
    assert_eq!(facts, LineFacts { range: Some((3, 9)), ..nothing() });
}

#[test]
fn range_line_tolerates_spaces_around_numbers() {
    let facts = classify_line("処理範囲:   12 〜  40  ");
    assert_eq!(facts.range, Some((12, 40)));
}

#[test]
fn range_line_ignores_a_third_field() {
    assert_eq!(classify_line("処理範囲: 3〜9〜x").range, Some((3, 9)));
}

#[test]
fn range_line_without_dash_is_not_a_range() {
    assert_eq!(classify_line("処理範囲: 3-9").range, None);
    assert_eq!(classify_line("処理範囲:").range, None);
}

#[test]
fn range_line_with_bad_number_is_not_a_range() {
    assert_eq!(classify_line("処理範囲: a〜9").range, None);
    assert_eq!(classify_line("処理範囲: 3〜").range, None);
    assert_eq!(classify_line("処理範囲: 3〜4294967296").range, None);
    assert_eq!(classify_line("処理範囲: -3〜9").range, None);
}

#[test]
fn range_number_may_carry_a_plus_sign_and_zeros() {
    assert_eq!(classify_line("処理範囲: +3〜009").range, Some((3, 9)));
    assert_eq!(classify_line("処理範囲: 0〜4294967295").range, Some((0, u32::MAX)));
    assert_eq!(classify_line("処理範囲: +〜9").range, None);
}

#[test]
fn range_prefix_must_open_the_line() {
    assert_eq!(classify_line(" 処理範囲: 3〜9").range, None);
}

#[test]
fn page_marker_is_recognised() {
    let facts = classify_line("--- Page 3/9 (abs 3/12) ---");
    assert_eq!(facts, LineFacts { page: Some((3, 9)), ..nothing() });
}

#[test]
fn done_marker_is_recognised() {
    let facts = classify_line("--- Done 3/9 ---");
    assert_eq!(facts, LineFacts { done: Some((3, 9)), ..nothing() });
}

#[test]
fn marker_skips_spaces_before_its_numbers() {
    assert_eq!(classify_line("--- Page    7/8").page, Some((7, 8)));
}

#[test]
fn marker_numbers_are_not_trimmed_inside_the_word() {
    assert_eq!(classify_line("--- Page 3 /9").page, None);
    assert_eq!(classify_line("--- Page 3/").page, None);
    assert_eq!(classify_line("--- Page /9").page, None);
    assert_eq!(classify_line("--- Page 3").page, None);
    assert_eq!(classify_line("--- Page ").page, None);
    assert_eq!(classify_line("--- Page 3/9/27").page, Some((3, 9)));
}

#[test]
fn stage_markers_are_found_anywhere_in_the_line() {
    assert!(classify_line("xx --- merged_md.py を実行 --- yy").merge);
    assert!(classify_line("[dispatcher] Converting to docx: a.md").word);
    assert!(classify_line("info [dispatcher] processing excel_via=json").sheet);
}

#[test]
fn one_line_may_carry_several_markers() {
    let facts = classify_line("--- Done 2/2 --- [dispatcher] Converting to docx");
    assert_eq!(facts, LineFacts { done: Some((2, 2)), word: true, ..nothing() });
}

#[test]
fn unknown_line_tells_nothing() {
    assert_eq!(classify_line("Traceback (most recent call last):"), nothing());
    assert_eq!(classify_line(""), nothing());
}

#[test]
fn unknown_line_updates_nothing() {
    let mut parser = LineParser::new();
    let update = parser.read_line(&whole_job(), "loading model...", 5);
    assert_eq!(
        update,
        LineUpdate {
            page_current: None,
            page_total: None,
            stage: None,
            eta: EtaChange::Keep,
            target: None
        }
    );
    assert_eq!(parser.range(), None);
    assert!(parser.window().is_empty());
}

#[test]
fn range_then_page_then_done_gives_eta_of_twelve_seconds() {
    let band = whole_job();
    let mut parser = LineParser::new();
    let first = parser.read_line(&band, "処理範囲: 3〜9", 0);
    assert_eq!(first.page_total, Some(7));
    assert_eq!(first.eta, EtaChange::Clear);
    assert_eq!(parser.range(), Some((3, 9)));
    let second = parser.read_line(&band, "--- Page 3/9 (abs 3/12) ---", 10 * SECOND);
    assert_eq!(second.page_current, Some(3));
    assert_eq!(second.page_total, Some(9));
    assert_eq!(second.stage, Some(Stage::Pages { current: 3, total: 9 }));
    assert_eq!(second.eta, EtaChange::Clear);
    assert_eq!(second.target, None);
    let third = parser.read_line(&band, "--- Done 3/9 ---", 12 * SECOND);
    assert_eq!(third.eta, EtaChange::Estimate(12));
    assert_eq!(third.page_total, Some(9));
    assert_eq!(third.page_current, Some(3));
    assert_eq!(third.target, Some(128_571));
    assert_eq!(parser.window(), &vec![2 * SECOND]);
}

#[test]
fn done_without_range_measures_from_page_one() {
    let band = whole_job();
    let mut parser = LineParser::new();
    parser.read_line(&band, "--- Page 2/4 ---", 0);
    let update = parser.read_line(&band, "--- Done 2/4 ---", 3 * SECOND);
    assert_eq!(update.target, Some(450_000));
    assert_eq!(update.eta, EtaChange::Estimate(6));
}

#[test]
fn last_page_done_clears_the_eta() {
    let band = whole_job();
    let mut parser = LineParser::new();
    parser.read_line(&band, "--- Page 4/4 ---", 0);
    let update = parser.read_line(&band, "--- Done 4/4 ---", SECOND);
    assert_eq!(update.eta, EtaChange::Clear);
    assert_eq!(update.target, Some(900_000));
}

#[test]
fn done_without_a_started_page_has_no_duration() {
    let band = whole_job();
    let mut parser = LineParser::new();
    let update = parser.read_line(&band, "--- Done 1/4 ---", SECOND);
    assert_eq!(update.eta, EtaChange::Clear);
    assert!(parser.window().is_empty());
}

#[test]
fn zero_duration_is_not_recorded() {
    let band = whole_job();
    let mut parser = LineParser::new();
    parser.read_line(&band, "--- Page 1/4 ---", 7);
    parser.read_line(&band, "--- Done 1/4 ---", 7);
    assert!(parser.window().is_empty());
    parser.read_line(&band, "--- Page 2/4 ---", 9);
    parser.read_line(&band, "--- Done 2/4 ---", 8);
    assert!(parser.window().is_empty());
}

#[test]
fn timer_stops_with_the_first_done_line() {
    let band = whole_job();
    let mut parser = LineParser::new();
    parser.read_line(&band, "--- Page 1/4 ---", 0);
    parser.read_line(&band, "--- Done 1/4 ---", SECOND);
    parser.read_line(&band, "--- Done 2/4 ---", 5 * SECOND);
    assert_eq!(parser.window(), &vec![SECOND]);
}

#[test]
fn window_keeps_the_newest_five_durations() {
    let band = whole_job();
    let mut parser = LineParser::new();
    let mut now: u64 = 0;
    for page in 1..=7u64 {
        parser.read_line(&band, &format!("--- Page {}/20 ---", page), now);
        now += page * SECOND;
        parser.read_line(&band, &format!("--- Done {}/20 ---", page), now);
    }
    assert_eq!(
        parser.window(),
        &vec![3 * SECOND, 4 * SECOND, 5 * SECOND, 6 * SECOND, 7 * SECOND]
    );
}

#[test]
fn eta_is_the_mean_of_the_window_times_the_pages_left() {
    let window = vec![1 * SECOND, 2 * SECOND, 6 * SECOND];
    assert_eq!(estimate_after_done(&window, 10, 6), EtaChange::Estimate(12));
}

#[test]
fn eta_rounds_to_the_nearest_second() {
    assert_eq!(estimate_after_done(&vec![1_400_000_000], 2, 1), EtaChange::Estimate(1));
    assert_eq!(estimate_after_done(&vec![1_500_000_000], 2, 1), EtaChange::Estimate(2));
    assert_eq!(estimate_after_done(&vec![400_000_000], 2, 1), EtaChange::Estimate(0));
}

#[test]
fn eta_stays_within_32_bits() {
    assert_eq!(
        estimate_after_done(&vec![u64::MAX, u64::MAX], u32::MAX, 0),
        EtaChange::Estimate(u32::MAX)
    );
}

#[test]
fn eta_is_cleared_without_durations_or_pages_left() {
    assert_eq!(estimate_after_done(&vec![], 10, 6), EtaChange::Clear);
    assert_eq!(estimate_after_done(&vec![SECOND], 6, 6), EtaChange::Clear);
    assert_eq!(estimate_after_done(&vec![SECOND], 5, 6), EtaChange::Clear);
}

#[test]
fn stage_marks_lie_at_fixed_points_of_the_band() {
    let band = whole_job();
    let mut parser = LineParser::new();
    let merge = parser.read_line(&band, "--- merged_md.py を実行 ---", 0);
    assert_eq!(merge.stage, Some(Stage::Merging));
    assert_eq!(merge.eta, EtaChange::Clear);
    assert_eq!(merge.target, Some(920_000));
    let word = parser.read_line(&band, "[dispatcher] Converting to docx", 0);
    assert_eq!(word.stage, Some(Stage::WordExport));
    assert_eq!(word.target, Some(960_000));
    let sheet = parser.read_line(&band, "[dispatcher] processing excel_via=json", 0);
    assert_eq!(sheet.stage, Some(Stage::SheetExport));
    assert_eq!(sheet.target, Some(990_000));
}

#[test]
fn later_marker_of_a_line_wins_and_targets_take_the_larger() {
    let band = whole_job();
    let mut parser = LineParser::new();
    let update =
        parser.read_line(&band, "--- Done 1/2 --- then --- merged_md.py を実行 ---", SECOND);
    assert_eq!(update.stage, Some(Stage::Merging));
    assert_eq!(update.eta, EtaChange::Clear);
    assert_eq!(update.page_current, Some(1));
    assert_eq!(update.target, Some(920_000));
}

#[test]
fn second_file_of_two_works_in_the_upper_half() {
    let band = FileBand::new(1, 2).unwrap();
    assert_eq!(band.start(), 500_000);
    assert_eq!(band.end(), 1_000_000);
    assert_eq!(target_at_mark(&band, 92), 960_000);
    assert_eq!(target_at_page(&band, 1, 4, 2), 725_000);
    assert_eq!(target_at_mark(&band, 99), INFERRED_CAP);
}

#[test]
fn bands_of_three_files_follow_one_another() {
    let a = FileBand::new(0, 3).unwrap();
    let b = FileBand::new(1, 3).unwrap();
    let c = FileBand::new(2, 3).unwrap();
    assert_eq!((a.start(), a.end()), (0, 333_333));
    assert_eq!((b.start(), b.end()), (333_333, 666_666));
    assert_eq!((c.start(), c.end()), (666_666, FULL_SCALE));
    assert_eq!(b.point(1, 2), 499_999);
    assert_eq!((b.index(), b.count()), (1, 3));
}

#[test]
fn there_is_no_band_outside_the_batch() {
    assert!(FileBand::new(0, 0).is_none());
    assert!(FileBand::new(3, 3).is_none());
    assert!(FileBand::new(2, 3).is_some());
}

#[test]
fn page_targets_handle_pages_outside_the_range() {
    let band = whole_job();
    assert_eq!(target_at_page(&band, 3, 9, 1), 128_571);
    assert_eq!(target_at_page(&band, 3, 9, 9), 900_000);
    assert_eq!(target_at_page(&band, 3, 9, 50), 900_000);
    assert_eq!(target_at_page(&band, 9, 3, 9), 900_000);
    assert_eq!(target_at_page(&band, 0, u32::MAX, u32::MAX), 900_000);
}

#[test]
fn inferred_progress_is_capped_at_99_percent() {
    assert_eq!(cap_inferred(989_999), 989_999);
    assert_eq!(cap_inferred(990_000), 990_000);
    assert_eq!(cap_inferred(1_000_000), 990_000);
    let last_of_many = FileBand::new(199, 200).unwrap();
    assert_eq!(last_of_many.start(), 995_000);
    assert_eq!(target_at_mark(&last_of_many, 92), 990_000);
}
