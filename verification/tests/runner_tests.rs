use ocr_jobs::band::FileBand;
use ocr_jobs::job::{Failure, JobEvent, JobInfo, JobStatus};
use ocr_jobs::runner::{completion, find_preview_source, Directive, ProcessOutcome, Runner};
use ocr_jobs::snapshot::FoundFile;

fn found(dir: Option<&str>, name: &str) -> FoundFile {
    FoundFile { dir: dir.map(|d| d.to_string()), name: name.to_string() }
}

fn texts(names: &[&str]) -> Vec<String> {
    names.iter().map(|n| n.to_string()).collect()
}

fn completed(event: JobEvent) -> (Vec<String>, String) {
    match event {
        JobEvent::Completed { outputs, preview } => (outputs, preview),
        _ => panic!("not a completion"),
    }
}

#[test]
fn files_run_in_order_and_then_results_are_collected() {
    let mut runner = Runner::new(2);
    assert_eq!(runner.directive(), Directive::Run(FileBand::new(0, 2).unwrap()));
    assert_eq!(runner.directive(), Directive::Run(FileBand::new(0, 2).unwrap()));
    match runner.file_ended(ProcessOutcome::Succeeded) {
        Some(JobEvent::FileSucceeded { band }) => assert_eq!(band, FileBand::new(0, 2).unwrap()),
        _ => panic!("first file should succeed"),
    }
    assert_eq!(runner.directive(), Directive::Run(FileBand::new(1, 2).unwrap()));
    match runner.file_ended(ProcessOutcome::Succeeded) {
        Some(JobEvent::FileSucceeded { band }) => assert_eq!(band, FileBand::new(1, 2).unwrap()),
        _ => panic!("second file should succeed"),
    }
    assert_eq!(runner.directive(), Directive::Collect);
    assert!(runner.file_ended(ProcessOutcome::Succeeded).is_none());
    assert_eq!(runner.directive(), Directive::Collect);
    runner.finish();
    assert_eq!(runner.directive(), Directive::Halt);
}

#[test]
fn first_failure_ends_the_batch() {
    let mut runner = Runner::new(3);
    runner.file_ended(ProcessOutcome::Succeeded);
    match runner.file_ended(ProcessOutcome::NonZeroExit) {
        Some(JobEvent::Failed { failure: Failure::NonZeroExit }) => {}
        _ => panic!("the job should fail"),
    }
    assert_eq!(runner.directive(), Directive::Halt);
    assert!(runner.file_ended(ProcessOutcome::Succeeded).is_none());
    assert_eq!(runner.directive(), Directive::Halt);
}

#[test]
fn lost_process_fails_the_job_with_the_reason() {
    let mut runner = Runner::new(1);
    let event = runner.file_ended(ProcessOutcome::Lost("permission denied".to_string())).unwrap();
    let mut job = JobInfo::start();
    job.apply(event);
    assert_eq!(job.status(), JobStatus::Error);
    assert_eq!(job.error(), &Some("failed to spawn python: permission denied".to_string()));
    assert_eq!(runner.directive(), Directive::Halt);
}

#[test]
fn batch_without_files_goes_straight_to_collecting() {
    let mut runner = Runner::new(0);
    assert_eq!(runner.directive(), Directive::Collect);
    assert!(runner.file_ended(ProcessOutcome::NonZeroExit).is_none());
    assert_eq!(runner.directive(), Directive::Collect);
}

#[test]
fn whole_batch_drives_the_job_to_done() {
    let mut runner = Runner::new(2);
    let mut job = JobInfo::start();
    let mut seen: Vec<u32> = Vec::new();
    loop {
        match runner.directive() {
            Directive::Run(band) => {
                job.apply(JobEvent::FileStarted { band, command: "python".to_string() });
                seen.push(job.progress());
                let event = runner.file_ended(ProcessOutcome::Succeeded).unwrap();
                job.apply(event);
                seen.push(job.progress());
            }
            Directive::Collect => {
                job.apply(completion(&vec![found(Some("a"), "a.docx")], &texts(&["a.pdf", "b.pdf"]), None));
                runner.finish();
            }
            Directive::Halt => break,
        }
    }
    assert_eq!(seen, vec![0, 500_000, 500_000, 1_000_000]);
    assert_eq!(job.status(), JobStatus::Done);
    assert_eq!(job.outputs(), &texts(&["a.docx"]));
    assert_eq!(
        job.preview(),
        &Some("Converted markdown for: a.pdf, b.pdf (md preview not found)".to_string())
    );
}

#[test]
fn preview_is_read_from_the_first_text_result() {
    let files = vec![found(Some("a"), "a.docx"), found(Some("a"), "a_merged.md"), found(None, "a.md")];
    assert_eq!(find_preview_source(&files), Some(1));
    assert_eq!(find_preview_source(&vec![found(None, "a.MD"), found(None, ".md")]), None);
    assert_eq!(find_preview_source(&vec![]), None);
}

#[test]
fn completion_carries_names_and_preview_content() {
    let files = vec![found(Some("a"), "a.docx"), found(Some("a"), "a_merged.md")];
    let (outputs, preview) = completed(completion(
        &files,
        &texts(&["/in/a.pdf"]),
        Some("# Title\n".to_string()),
    ));
    assert_eq!(outputs, texts(&["a.docx", "a_merged.md"]));
    assert_eq!(preview, "# Title\n");
}

#[test]
fn unreadable_preview_names_the_inputs() {
    let files = vec![found(Some("a"), "a_merged.md")];
    let (outputs, preview) = completed(completion(&files, &texts(&["/in/a.pdf"]), None));
    assert_eq!(outputs, texts(&["a_merged.md"]));
    assert_eq!(preview, "Converted markdown for: /in/a.pdf (md preview not found)");
}

#[test]
fn missing_preview_names_the_inputs() {
    let files = vec![found(Some("a"), "a.docx")];
    let (_, preview) = completed(completion(&files, &texts(&["/in/a.pdf"]), None));
    assert_eq!(preview, "Converted markdown for: /in/a.pdf (md preview not found)");
    let (_, preview) = completed(completion(
        &files,
        &texts(&["a.pdf", "b.pdf", "c.pdf"]),
        Some("ignored".to_string()),
    ));
    assert_eq!(preview, "Converted markdown for: a.pdf, b.pdf, c.pdf (md preview not found)");
    let (outputs, preview) = completed(completion(&vec![], &texts(&[]), None));
    assert!(outputs.is_empty());
    assert_eq!(preview, "Converted markdown for:  (md preview not found)");
    let text_result = vec![found(None, "a.md")];
    let (_, preview) = completed(completion(&text_result, &texts(&["a.pdf"]), None));
    assert_eq!(preview, "Converted markdown for: a.pdf (md preview not found)");
}
