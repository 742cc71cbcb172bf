use ocr_jobs::band::FileBand;
use ocr_jobs::error::{ErrorKind, JobError};
use ocr_jobs::job::{Failure, JobEvent, JobStatus};
use ocr_jobs::progress::{EtaChange, LineUpdate, Stage};
use ocr_jobs::query::{
    authorize_output, find_output_path, first_output, get_progress, get_result, is_listed,
    locate_output, output_dir_target, stage_message, OpenTarget, ProgressResponse, ResultResponse,
};
use ocr_jobs::registry::JobRegistry;
use ocr_jobs::snapshot::{DirEntry, FoundFile, ResultEntry, ResultsSnapshot};

fn file(name: &str) -> DirEntry {
    DirEntry { name: name.to_string(), is_file: true }
}

fn dir(name: &str, names: &[&str]) -> ResultEntry {
    ResultEntry {
        name: name.to_string(),
        is_dir: true,
        modified: 0,
        entries: names.iter().map(|n| file(n)).collect(),
    }
}

fn done_registry() -> JobRegistry {
    let mut registry = JobRegistry::new();
    registry.create("job-1".to_string()).unwrap();
    registry
        .apply(
            "job-1",
            JobEvent::Completed {
                outputs: vec!["a_merged.md".to_string(), "a.docx".to_string()],
                preview: "# A".to_string(),
            },
        )
        .unwrap();
    registry.create("job-2".to_string()).unwrap();
    registry
}

#[test]
fn unknown_job_is_not_found() {
    let registry = JobRegistry::new();
    assert_eq!(get_progress(&registry, "nope"), Err(JobError::JobNotFound));
    assert_eq!(get_result(&registry, "nope"), Err(JobError::JobNotFound));
    assert_eq!(first_output(&registry, "nope"), Err(JobError::JobNotFound));
    assert!(registry.get("nope").is_err());
    assert_eq!(JobError::JobNotFound.kind(), ErrorKind::Lookup);
}

#[test]
fn progress_of_a_new_job() {
    let mut registry = JobRegistry::new();
    registry.create("j".to_string()).unwrap();
    assert_eq!(
        get_progress(&registry, "j"),
        Ok(ProgressResponse {
            status: JobStatus::Running,
            progress: 0,
            log: vec!["job started".to_string()],
            error: None,
            current_message: None,
            page_current: None,
            page_total: None,
            eta_seconds: None,
        })
    );
    assert_eq!(get_result(&registry, "j"), Ok(ResultResponse { outputs: vec![], preview: None }));
}

#[test]
fn progress_tells_what_the_lines_told() {
    let mut registry = JobRegistry::new();
    registry.create("j".to_string()).unwrap();
    registry
        .apply(
            "j",
            JobEvent::Output {
                line: "--- Done 3/9 ---".to_string(),
                update: LineUpdate {
                    page_current: Some(3),
                    page_total: Some(9),
                    stage: Some(Stage::Pages { current: 3, total: 9 }),
                    eta: EtaChange::Estimate(12),
                    target: Some(128_571),
                },
            },
        )
        .unwrap();
    let answer = get_progress(&registry, "j").unwrap();
    assert_eq!(answer.status, JobStatus::Running);
    assert_eq!(answer.progress, 128_571);
    assert_eq!(answer.log, vec!["job started".to_string(), "--- Done 3/9 ---".to_string()]);
    assert_eq!(answer.current_message, Some("PDF変換中: 3/9ページ".to_string()));
    assert_eq!(answer.page_current, Some(3));
    assert_eq!(answer.page_total, Some(9));
    assert_eq!(answer.eta_seconds, Some(12));
    assert_eq!(answer.error, None);
}

#[test]
fn progress_of_a_failed_job_carries_the_error() {
    let mut registry = JobRegistry::new();
    registry.create("j".to_string()).unwrap();
    registry.apply("j", JobEvent::Failed { failure: Failure::NonZeroExit }).unwrap();
    let answer = get_progress(&registry, "j").unwrap();
    assert_eq!(answer.status, JobStatus::Error);
    assert_eq!(answer.error, Some("dispatcher failed (non-zero exit code)".to_string()));
    assert_eq!(get_result(&registry, "j"), Ok(ResultResponse { outputs: vec![], preview: None }));
}

#[test]
fn result_of_a_done_job() {
    let registry = done_registry();
    assert_eq!(
        get_result(&registry, "job-1"),
        Ok(ResultResponse {
            outputs: vec!["a_merged.md".to_string(), "a.docx".to_string()],
            preview: Some("# A".to_string()),
        })
    );
    assert_eq!(get_progress(&registry, "job-1").unwrap().progress, 1_000_000);
    assert_eq!(get_progress(&registry, "job-1").unwrap().status, JobStatus::Done);
}

#[test]
fn each_stage_has_its_message() {
    assert_eq!(stage_message(Stage::Pages { current: 12, total: 340 }), "PDF変換中: 12/340ページ");
    assert_eq!(stage_message(Stage::Pages { current: 0, total: u32::MAX }), "PDF変換中: 0/4294967295ページ");
    assert_eq!(stage_message(Stage::Merging), "後処理: Markdown結合中");
    assert_eq!(stage_message(Stage::WordExport), "後処理: Word変換中");
    assert_eq!(stage_message(Stage::SheetExport), "後処理: Excel変換中");
}

#[test]
fn events_on_one_job_leave_the_others_alone() {
    let mut registry = done_registry();
    let other_before = get_progress(&registry, "job-1").unwrap();
    registry
        .apply("job-2", JobEvent::FileSucceeded { band: FileBand::new(0, 2).unwrap() })
        .unwrap();
    registry.apply("job-2", JobEvent::Diagnostic { line: "warn".to_string() }).unwrap();
    assert_eq!(get_progress(&registry, "job-1").unwrap(), other_before);
    let own = get_progress(&registry, "job-2").unwrap();
    assert_eq!(own.progress, 500_000);
    assert_eq!(own.log, vec!["job started".to_string(), "[err] warn".to_string()]);
    assert_eq!(registry.job_count(), 2);
}

#[test]
fn event_for_an_unknown_job_changes_nothing() {
    let mut registry = done_registry();
    assert_eq!(
        registry.apply("job-3", JobEvent::Failed { failure: Failure::NonZeroExit }),
        Err(JobError::JobNotFound)
    );
    assert_eq!(registry.job_count(), 2);
    assert!(!registry.contains("job-3"));
    assert_eq!(get_progress(&registry, "job-2").unwrap().status, JobStatus::Running);
}

#[test]
fn an_id_is_registered_once() {
    let mut registry = JobRegistry::new();
    assert_eq!(registry.create("j".to_string()), Ok(()));
    registry.apply("j", JobEvent::Diagnostic { line: "x".to_string() }).unwrap();
    assert_eq!(registry.create("j".to_string()), Err(JobError::DuplicateJob));
    assert_eq!(registry.job_count(), 1);
    assert_eq!(registry.get("j").unwrap().log().len(), 2);
}

#[test]
fn file_outside_the_jobs_outputs_is_refused_before_any_lookup() {
    let registry = done_registry();
    let refusal = authorize_output(&registry, "job-1", "../../etc/passwd").err().unwrap();
    assert_eq!(refusal, JobError::NotInOutputs { filename: "../../etc/passwd".to_string() });
    assert_eq!(refusal.kind(), ErrorKind::Security);
    assert_eq!(refusal.message(), "file not found in job outputs: ../../etc/passwd");
    assert_eq!(
        authorize_output(&registry, "job-2", "a_merged.md").err(),
        Some(JobError::NotInOutputs { filename: "a_merged.md".to_string() })
    );
    assert_eq!(
        authorize_output(&registry, "job-1", "A_merged.md").err(),
        Some(JobError::NotInOutputs { filename: "A_merged.md".to_string() })
    );
    assert_eq!(authorize_output(&registry, "job-9", "a_merged.md").err(), Some(JobError::JobNotFound));
}

#[test]
fn recorded_output_is_granted_and_located() {
    let registry = done_registry();
    let grant = authorize_output(&registry, "job-1", "a.docx").ok().unwrap();
    assert_eq!(grant.filename(), "a.docx");
    let snapshot = ResultsSnapshot {
        results: vec![dir("b", &["b.docx"]), dir("a_old", &["a.docx"]), dir("a", &["a.docx"])],
        root: vec![file("a.docx")],
    };
    assert_eq!(
        locate_output(&snapshot, &grant),
        Ok(FoundFile { dir: Some("a_old".to_string()), name: "a.docx".to_string() })
    );
    let gone = ResultsSnapshot { results: vec![dir("b", &["b.docx"])], root: vec![] };
    assert_eq!(
        locate_output(&gone, &grant),
        Err(JobError::SourceNotFound { filename: "a.docx".to_string() })
    );
}

#[test]
fn output_is_looked_for_in_result_directories_then_the_root() {
    let mut not_a_dir = dir("x", &["a.md"]);
    not_a_dir.is_dir = false;
    let snapshot = ResultsSnapshot {
        results: vec![not_a_dir, dir("y", &["b.md"])],
        root: vec![file("a.md")],
    };
    assert_eq!(
        find_output_path(&snapshot, "a.md"),
        Some(FoundFile { dir: None, name: "a.md".to_string() })
    );
    assert_eq!(
        find_output_path(&snapshot, "b.md"),
        Some(FoundFile { dir: Some("y".to_string()), name: "b.md".to_string() })
    );
    assert_eq!(find_output_path(&snapshot, "c.md"), None);
}

#[test]
fn directory_to_show_is_where_the_first_output_lies() {
    let registry = done_registry();
    let first = first_output(&registry, "job-1").unwrap();
    assert_eq!(first, Some("a_merged.md".to_string()));
    assert_eq!(first_output(&registry, "job-2"), Ok(None));
    let snapshot = ResultsSnapshot { results: vec![dir("a", &["a_merged.md"])], root: vec![] };
    assert_eq!(output_dir_target(&snapshot, &first), OpenTarget::ResultDir("a".to_string()));
    let flat = ResultsSnapshot { results: vec![], root: vec![file("a_merged.md")] };
    assert_eq!(output_dir_target(&flat, &first), OpenTarget::ProjectRoot);
    let gone = ResultsSnapshot { results: vec![], root: vec![] };
    assert_eq!(output_dir_target(&gone, &first), OpenTarget::ResultsArea);
    assert_eq!(output_dir_target(&snapshot, &None), OpenTarget::ResultsArea);
}

#[test]
fn listing_lookup_is_exact() {
    let names = vec!["a.md".to_string(), "b.md".to_string()];
    assert!(is_listed(&names, &"b.md".to_string()));
    assert!(!is_listed(&names, &"b.MD".to_string()));
    assert!(!is_listed(&vec![], &"b.md".to_string()));
}
