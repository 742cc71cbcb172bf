use ocr_jobs::access::{
    admit_result_dir, admit_result_file, check_result_dir_name, is_within, pick_result_file,
    validate_result_dir_name, DirProbe,
};
use ocr_jobs::error::{ErrorKind, JobError};
use ocr_jobs::snapshot::DirEntry;

fn path(parts: &[&str]) -> Vec<String> {
    parts.iter().map(|p| p.to_string()).collect()
}

fn inside() -> DirProbe {
    DirProbe::Found {
        results: path(&["/", "home", "u", "proj", "result"]),
        dir: path(&["/", "home", "u", "proj", "result", "report"]),
    }
}

#[test]
fn parent_traversal_is_refused_before_any_lookup() {
    assert_eq!(validate_result_dir_name("../../etc"), Err("invalid dirName".to_string()));
    assert_eq!(check_result_dir_name("../../etc"), Err(JobError::InvalidDirName));
    assert_eq!(JobError::InvalidDirName.kind(), ErrorKind::Validation);
    assert_eq!(admit_result_dir("../../etc", &inside()), Err(JobError::InvalidDirName));
    assert_eq!(admit_result_dir("../../etc", &DirProbe::Missing), Err(JobError::InvalidDirName));
}

#[test]
fn empty_name_is_refused() {
    assert_eq!(validate_result_dir_name(""), Err("dirName is empty".to_string()));
    assert_eq!(check_result_dir_name(""), Err(JobError::EmptyDirName));
    assert_eq!(admit_result_dir("", &inside()), Err(JobError::EmptyDirName));
}

#[test]
fn separators_and_double_dots_are_refused() {
    for name in ["a/b", "/", "a\\b", "\\", "..", "a..b", "report..", "...", "a/..", "c:\\x"] {
        assert_eq!(validate_result_dir_name(name), Err("invalid dirName".to_string()), "{}", name);
    }
}

#[test]
fn plain_names_are_accepted() {
    for name in ["report", "report_p3-9", ".", "a.b", ".hidden", "報告 書", "a.b.c", " "] {
        assert_eq!(validate_result_dir_name(name), Ok(()), "{}", name);
        assert_eq!(check_result_dir_name(name), Ok(()), "{}", name);
    }
}

#[test]
fn missing_directory_is_not_found() {
    assert_eq!(admit_result_dir("report", &DirProbe::Missing), Err(JobError::ResultDirNotFound));
    assert_eq!(JobError::ResultDirNotFound.kind(), ErrorKind::Lookup);
}

#[test]
fn directory_inside_the_results_is_admitted() {
    assert_eq!(admit_result_dir("report", &inside()), Ok(()));
}

#[test]
fn directory_that_resolves_outside_is_refused() {
    let linked_away = DirProbe::Found {
        results: path(&["/", "home", "u", "proj", "result"]),
        dir: path(&["/", "etc"]),
    };
    assert_eq!(admit_result_dir("report", &linked_away), Err(JobError::OutsideResults));
    assert_eq!(JobError::OutsideResults.kind(), ErrorKind::Security);
    let sibling = DirProbe::Found {
        results: path(&["/", "proj", "result"]),
        dir: path(&["/", "proj", "result2", "report"]),
    };
    assert_eq!(admit_result_dir("report", &sibling), Err(JobError::OutsideResults));
    let above = DirProbe::Found { results: path(&["/", "proj", "result"]), dir: path(&["/", "proj"]) };
    assert_eq!(admit_result_dir("report", &above), Err(JobError::OutsideResults));
}

#[test]
fn containment_goes_by_whole_components() {
    assert!(is_within(&path(&["/", "a"]), &path(&["/", "a", "b"])));
    assert!(is_within(&path(&["/", "a"]), &path(&["/", "a"])));
    assert!(is_within(&path(&[]), &path(&["/", "a"])));
    assert!(!is_within(&path(&["/", "a"]), &path(&["/", "ab"])));
    assert!(!is_within(&path(&["/", "a", "b"]), &path(&["/", "a"])));
    assert!(!is_within(&path(&["/", "a"]), &path(&["/", "A", "b"])));
}

#[test]
fn file_must_resolve_inside_its_directory() {
    let dir = path(&["/", "proj", "result", "report"]);
    assert_eq!(admit_result_file(&dir, &path(&["/", "proj", "result", "report", "r.md"])), Ok(()));
    assert_eq!(
        admit_result_file(&dir, &path(&["/", "etc", "passwd"])),
        Err(JobError::OutsideResultDir)
    );
    assert_eq!(JobError::OutsideResultDir.kind(), ErrorKind::Security);
}

#[test]
fn directory_without_a_result_has_no_file_to_open() {
    let entries = vec![DirEntry { name: "notes.txt".to_string(), is_file: true }];
    assert_eq!(pick_result_file(&entries, "report"), Err(JobError::NoOutputFile));
    assert_eq!(JobError::NoOutputFile.kind(), ErrorKind::Lookup);
    let entries = vec![DirEntry { name: "report.md".to_string(), is_file: true }];
    assert_eq!(pick_result_file(&entries, "report"), Ok("report.md".to_string()));
}

#[test]
fn every_error_has_its_text() {
    assert_eq!(JobError::NoInputFiles.message(), "no input files");
    assert_eq!(JobError::ProjectRootNotFound.message(), "failed to resolve project root");
    assert_eq!(
        JobError::PipelineNotFound { path: "/p/dispatcher.py".to_string() }.message(),
        "dispatcher.py not found at /p/dispatcher.py"
    );
    assert_eq!(JobError::JobNotFound.message(), "job not found");
    assert_eq!(JobError::DuplicateJob.message(), "job id already in use");
    assert_eq!(
        JobError::NotInOutputs { filename: "x.md".to_string() }.message(),
        "file not found in job outputs: x.md"
    );
    assert_eq!(
        JobError::SourceNotFound { filename: "x.md".to_string() }.message(),
        "source file not found: x.md"
    );
    assert_eq!(JobError::EmptyDirName.message(), "dirName is empty");
    assert_eq!(JobError::InvalidDirName.message(), "invalid dirName");
    assert_eq!(JobError::ResultDirNotFound.message(), "result dir not found");
    assert_eq!(JobError::OutsideResults.message(), "invalid result dir");
    assert_eq!(JobError::NoOutputFile.message(), "no output file found");
    assert_eq!(JobError::OutsideResultDir.message(), "invalid output file");
}

#[test]
fn every_error_has_its_kind() {
    assert_eq!(JobError::NoInputFiles.kind(), ErrorKind::Validation);
    assert_eq!(JobError::ProjectRootNotFound.kind(), ErrorKind::Configuration);
    assert_eq!(JobError::PipelineNotFound { path: String::new() }.kind(), ErrorKind::Configuration);
    assert_eq!(JobError::JobNotFound.kind(), ErrorKind::Lookup);
    assert_eq!(JobError::DuplicateJob.kind(), ErrorKind::Validation);
    assert_eq!(JobError::NotInOutputs { filename: String::new() }.kind(), ErrorKind::Security);
    assert_eq!(JobError::SourceNotFound { filename: String::new() }.kind(), ErrorKind::Lookup);
    assert_eq!(JobError::EmptyDirName.kind(), ErrorKind::Validation);
}
