use ocr_jobs::names::{file_stem, has_extension, merged_file_name, plain_file_name, stem_for_name};
use ocr_jobs::resolver::{
    collect_for_stems, collect_output_files, csv_file_names, drop_repeats, files_of_input,
    input_stem, pick_latest_result_dir, result_names_in_dir, result_names_in_root,
};
use ocr_jobs::snapshot::{first_held_name, holds, DirEntry, FoundFile, ResultEntry, ResultsSnapshot};

fn file(name: &str) -> DirEntry {
    DirEntry { name: name.to_string(), is_file: true }
}

fn folder(name: &str) -> DirEntry {
    DirEntry { name: name.to_string(), is_file: false }
}

fn dir(name: &str, modified: u128, names: &[&str]) -> ResultEntry {
    ResultEntry {
        name: name.to_string(),
        is_dir: true,
        modified,
        entries: names.iter().map(|n| file(n)).collect(),
    }
}

fn stray(name: &str, modified: u128) -> ResultEntry {
    ResultEntry { name: name.to_string(), is_dir: false, modified, entries: vec![] }
}

fn texts(names: &[&str]) -> Vec<String> {
    names.iter().map(|n| n.to_string()).collect()
}

fn found(dir: Option<&str>, name: &str) -> FoundFile {
    FoundFile { dir: dir.map(|d| d.to_string()), name: name.to_string() }
}

#[test]
fn later_modified_result_directory_is_picked() {
    let results = vec![dir("report_p3-9", 2_000, &[]), dir("report_p10-20", 1_000, &[])];
    assert_eq!(pick_latest_result_dir(&results, "report"), Some(0));
    let results = vec![dir("report_p3-9", 1_000, &[]), dir("report_p10-20", 2_000, &[])];
    assert_eq!(pick_latest_result_dir(&results, "report"), Some(1));
}

#[test]
fn sub_millisecond_difference_decides() {
    let results = vec![dir("report_a", 5_000_001, &[]), dir("report_b", 5_000_002, &[])];
    assert_eq!(pick_latest_result_dir(&results, "report"), Some(1));
}

#[test]
fn exact_name_wins_a_tie_then_directory_order() {
    let results = vec![dir("report_a", 7, &[]), dir("report_b", 7, &[]), dir("report", 7, &[])];
    assert_eq!(pick_latest_result_dir(&results, "report"), Some(2));
    let results = vec![dir("report_a", 7, &[]), dir("report_b", 7, &[])];
    assert_eq!(pick_latest_result_dir(&results, "report"), Some(0));
    let results = vec![dir("report", 6, &[]), dir("report_b", 7, &[])];
    assert_eq!(pick_latest_result_dir(&results, "report"), Some(1));
}

#[test]
fn only_directories_filed_under_the_stem_are_candidates() {
    let results = vec![
        stray("report", 9_000),
        stray("report_p1-2", 9_000),
        dir("reports", 9_000, &[]),
        dir("report2_p1-2", 9_000, &[]),
        dir("other_report_", 9_000, &[]),
        dir("report_", 1, &[]),
    ];
    assert_eq!(pick_latest_result_dir(&results, "report"), Some(5));
    assert_eq!(pick_latest_result_dir(&results, "missing"), None);
    assert_eq!(pick_latest_result_dir(&vec![], "report"), None);
}

#[test]
fn first_convention_that_exists_is_kept() {
    let d = dir("a_p1-2", 1, &["a.md", "a_merged.md", "a_p1-2.md"]);
    assert_eq!(result_names_in_dir(&d, "a", "md"), texts(&["a_merged.md"]));
    let d = dir("a_p1-2", 1, &["a.md", "a_merged.md", "a_p1-2.md", "a_p1-2_merged.md"]);
    assert_eq!(result_names_in_dir(&d, "a", "md"), texts(&["a_p1-2_merged.md"]));
    let d = dir("a_p1-2", 1, &["a_p1-2.docx", "a.docx"]);
    assert_eq!(result_names_in_dir(&d, "a", "docx"), texts(&["a.docx"]));
    let d = dir("a_p1-2", 1, &["a_p1-2.docx"]);
    assert_eq!(result_names_in_dir(&d, "a", "docx"), texts(&["a_p1-2.docx"]));
    let d = dir("a_p1-2", 1, &["b.docx"]);
    assert_eq!(result_names_in_dir(&d, "a", "docx"), texts(&[]));
}

#[test]
fn spreadsheet_goes_by_its_own_names_first() {
    let d = dir("a_p1-2", 1, &["a_merged.xlsx", "a_p1-2_merged.xlsx", "a.xlsx", "a_p1-2.xlsx"]);
    assert_eq!(result_names_in_dir(&d, "a", "xlsx"), texts(&["a_p1-2.xlsx"]));
    let d = dir("a_p1-2", 1, &["a_merged.xlsx", "a_p1-2_merged.xlsx", "a.xlsx"]);
    assert_eq!(result_names_in_dir(&d, "a", "xlsx"), texts(&["a.xlsx"]));
    let d = dir("a_p1-2", 1, &["a_merged.xlsx", "a_p1-2_merged.xlsx"]);
    assert_eq!(result_names_in_dir(&d, "a", "xlsx"), texts(&["a_p1-2_merged.xlsx"]));
    let d = dir("a_p1-2", 1, &["a_merged.xlsx"]);
    assert_eq!(result_names_in_dir(&d, "a", "xlsx"), texts(&["a_merged.xlsx"]));
}

#[test]
fn every_csv_file_of_the_directory_is_a_result() {
    let mut d = dir("a", 1, &["t2.csv", "a.md", "t1.csv", ".csv", "x.CSV", "y.csv.bak", "z.tar.csv"]);
    d.entries.push(folder("sub.csv"));
    assert_eq!(result_names_in_dir(&d, "a", "csv"), texts(&["t2.csv", "t1.csv", "z.tar.csv"]));
    assert_eq!(csv_file_names(&d.entries), texts(&["t2.csv", "t1.csv", "z.tar.csv"]));
}

#[test]
fn project_root_is_probed_for_both_flat_names() {
    let root = vec![file("a.md"), file("a_merged.md"), file("a.docx")];
    assert_eq!(result_names_in_root(&root, "a", "md"), texts(&["a_merged.md", "a.md"]));
    assert_eq!(result_names_in_root(&root, "a", "docx"), texts(&["a.docx"]));
    assert_eq!(result_names_in_root(&root, "a", "xlsx"), texts(&[]));
}

#[test]
fn results_come_input_by_input_directory_first() {
    let snapshot = ResultsSnapshot {
        results: vec![
            dir("a", 10, &["a_merged.md", "a_merged.docx", "one.csv"]),
            dir("b_p1-3", 20, &["b_p1-3_merged.md"]),
            dir("b", 10, &["b_merged.md"]),
        ],
        root: vec![file("a.md"), file("b_merged.docx")],
    };
    let files = collect_for_stems(&snapshot, &texts(&["a", "b"]), &texts(&["md", "docx", "csv"]));
    assert_eq!(
        files,
        vec![
            found(Some("a"), "a_merged.md"),
            found(Some("a"), "a_merged.docx"),
            found(Some("a"), "one.csv"),
            found(None, "a.md"),
            found(Some("b_p1-3"), "b_p1-3_merged.md"),
            found(None, "b_merged.docx"),
        ]
    );
}

#[test]
fn a_file_is_reported_once() {
    let snapshot = ResultsSnapshot {
        results: vec![dir("a", 10, &["a_merged.md", "t.csv"])],
        root: vec![file("a.md")],
    };
    let files = collect_for_stems(&snapshot, &texts(&["a", "a"]), &texts(&["md", "csv", "md", "csv"]));
    assert_eq!(
        files,
        vec![found(Some("a"), "a_merged.md"), found(Some("a"), "t.csv"), found(None, "a.md")]
    );
}

#[test]
fn same_name_in_two_places_is_two_files() {
    let kept = drop_repeats(vec![
        found(Some("a"), "x.md"),
        found(None, "x.md"),
        found(Some("b"), "x.md"),
        found(Some("a"), "x.md"),
        found(None, "x.md"),
    ]);
    assert_eq!(kept, vec![found(Some("a"), "x.md"), found(None, "x.md"), found(Some("b"), "x.md")]);
}

#[test]
fn resolving_twice_on_the_same_snapshot_gives_the_same() {
    let snapshot = ResultsSnapshot {
        results: vec![dir("a_x", 10, &["a_x_merged.md", "b.csv", "a.csv"]), dir("a", 10, &["a.md"])],
        root: vec![file("a_merged.md")],
    };
    let inputs = texts(&["/in/a.pdf"]);
    let formats = texts(&["csv", "md"]);
    let first = collect_output_files(&snapshot, &inputs, &formats);
    let second = collect_output_files(&snapshot, &inputs, &formats);
    assert_eq!(first, second);
    assert_eq!(first, vec![found(Some("a"), "a.md"), found(None, "a_merged.md")]);
}

#[test]
fn nothing_is_found_where_nothing_is() {
    let snapshot = ResultsSnapshot { results: vec![], root: vec![] };
    assert!(collect_output_files(&snapshot, &texts(&["a.pdf"]), &texts(&["md"])).is_empty());
    let snapshot = ResultsSnapshot { results: vec![dir("a", 1, &["a.md"])], root: vec![file("a.md")] };
    assert!(collect_output_files(&snapshot, &texts(&[]), &texts(&["md"])).is_empty());
    assert!(collect_output_files(&snapshot, &texts(&["a.pdf"]), &texts(&[])).is_empty());
}

#[test]
fn one_input_without_a_directory_still_probes_the_root() {
    let snapshot = ResultsSnapshot { results: vec![dir("b", 1, &["a.md"])], root: vec![file("a.md")] };
    assert_eq!(files_of_input(&snapshot, "a", &texts(&["md"])), vec![found(None, "a.md")]);
}

#[test]
fn stem_of_an_input_is_that_of_its_file_name() {
    assert_eq!(input_stem("/data/in/report.pdf"), "report");
    assert_eq!(input_stem("report.final.pdf"), "report.final");
    assert_eq!(input_stem("dir/report"), "report");
    assert_eq!(input_stem("dir/.hidden"), ".hidden");
    assert_eq!(input_stem("dir/report.pdf/"), "report");
}

#[test]
fn input_without_a_file_name_files_under_the_default() {
    assert_eq!(input_stem("/"), "output");
    assert_eq!(input_stem(""), "output");
    assert_eq!(input_stem("a/.."), "output");
    assert_eq!(stem_for_name(&None), "output");
    assert_eq!(stem_for_name(&Some("x.pdf".to_string())), "x");
}

#[test]
fn stem_is_the_name_before_its_last_dot() {
    assert_eq!(file_stem("a.tar.gz"), "a.tar");
    assert_eq!(file_stem("a"), "a");
    assert_eq!(file_stem(".bashrc"), ".bashrc");
    assert_eq!(file_stem(".a.b"), ".a");
    assert_eq!(file_stem("a."), "a");
    assert_eq!(file_stem(".."), "..");
    assert_eq!(file_stem("報告.pdf"), "報告");
    assert_eq!(file_stem(""), "");
}

#[test]
fn extension_is_what_follows_the_last_dot() {
    assert!(has_extension("a.md", "md"));
    assert!(has_extension("a.b.md", "md"));
    assert!(!has_extension("a.MD", "md"));
    assert!(!has_extension(".md", "md"));
    assert!(!has_extension("md", "md"));
    assert!(!has_extension("a.mdx", "md"));
    assert!(has_extension("a.", ""));
    assert!(!has_extension("..", ""));
}

#[test]
fn result_names_are_built_from_base_and_format() {
    assert_eq!(merged_file_name("report_p3-9", "md"), "report_p3-9_merged.md");
    assert_eq!(plain_file_name("report", "xlsx"), "report.xlsx");
}

#[test]
fn directory_lookup_is_by_exact_name() {
    let entries = vec![file("A.md"), folder("b")];
    assert!(holds(&entries, &"A.md".to_string()));
    assert!(holds(&entries, &"b".to_string()));
    assert!(!holds(&entries, &"a.md".to_string()));
    assert_eq!(first_held_name(&entries, texts(&["x", "b", "A.md"])), Some("b".to_string()));
    assert_eq!(first_held_name(&entries, texts(&["x", "y"])), None);
}
