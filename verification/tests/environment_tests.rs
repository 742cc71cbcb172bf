use ocr_jobs::environment::{
    bundled_entry_path, default_gpu_device, opener_program, resolve_project_root,
    resolve_python_bin, resolve_python_entry, venv_python_path, AncestorProbe, Platform,
};
use ocr_jobs::settings::{default_settings, window_size};

fn texts(names: &[&str]) -> Vec<String> {
    names.iter().map(|n| n.to_string()).collect()
}

fn probe(legacy_found: bool, bundled_found: bool) -> AncestorProbe {
    AncestorProbe { legacy_found, bundled_found }
}

#[test]
fn accelerated_device_depends_on_the_platform() {
    assert_eq!(default_gpu_device(Platform::MacOs), "mps");
    assert_eq!(default_gpu_device(Platform::Windows), "cuda");
    assert_eq!(default_gpu_device(Platform::Unix), "cuda");
}

#[test]
fn each_platform_has_its_opener() {
    assert_eq!(opener_program(Platform::MacOs), "open");
    assert_eq!(opener_program(Platform::Windows), "explorer");
    assert_eq!(opener_program(Platform::Unix), "xdg-open");
}

#[test]
fn bundled_script_is_preferred() {
    assert_eq!(bundled_entry_path("dispatcher.py"), texts(&["resources", "py", "dispatcher.py"]));
    assert_eq!(resolve_python_entry("dispatcher.py", true), texts(&["resources", "py", "dispatcher.py"]));
    assert_eq!(resolve_python_entry("dispatcher.py", false), texts(&["dispatcher.py"]));
    assert_eq!(resolve_python_entry("ui_preview.py", false), texts(&["ui_preview.py"]));
}

#[test]
fn project_root_is_the_nearest_directory_with_the_pipeline() {
    let up = vec![probe(false, false), probe(false, true), probe(true, false), probe(true, true)];
    assert_eq!(resolve_project_root(&up), Some(1));
    assert_eq!(resolve_project_root(&vec![probe(true, false)]), Some(0));
    assert_eq!(resolve_project_root(&vec![probe(false, false), probe(false, false)]), None);
    assert_eq!(resolve_project_root(&vec![]), None);
}

#[test]
fn interpreter_of_an_environment_lies_where_the_platform_puts_it() {
    assert_eq!(venv_python_path(Platform::Unix, false), texts(&[".venv", "bin", "python"]));
    assert_eq!(venv_python_path(Platform::MacOs, true), texts(&["resources", ".venv", "bin", "python"]));
    assert_eq!(venv_python_path(Platform::Windows, false), texts(&[".venv", "Scripts", "python.exe"]));
    assert_eq!(
        venv_python_path(Platform::Windows, true),
        texts(&["resources", ".venv", "Scripts", "python.exe"])
    );
}

#[test]
fn interpreter_is_picked_in_order_of_preference() {
    let named = Some("/opt/py/bin/python3".to_string());
    let bundled = Some("/proj/resources/.venv/bin/python".to_string());
    let project = Some("/proj/.venv/bin/python".to_string());
    assert_eq!(resolve_python_bin(&named, &bundled, &project), "/opt/py/bin/python3");
    assert_eq!(resolve_python_bin(&Some(String::new()), &bundled, &project), "/proj/resources/.venv/bin/python");
    assert_eq!(resolve_python_bin(&None, &bundled, &project), "/proj/resources/.venv/bin/python");
    assert_eq!(resolve_python_bin(&None, &None, &project), "/proj/.venv/bin/python");
    assert_eq!(resolve_python_bin(&None, &None, &None), "python");
    assert_eq!(resolve_python_bin(&Some(String::new()), &None, &None), "python");
}

#[test]
fn settings_of_a_fresh_installation() {
    let settings = default_settings();
    assert_eq!(settings.formats, texts(&["md"]));
    assert!(!settings.image_as_pdf);
    assert!(settings.enable_figure);
    assert!(!settings.use_gpu);
    assert_eq!(settings.output_root, None);
    assert_eq!(settings.chunk_size, Some(10));
    assert!(!settings.enable_rest);
    assert_eq!(settings.rest_seconds, Some(10));
    assert_eq!(settings.pdf_dpi, Some(300));
    assert_eq!(settings.window_width, Some(1200));
    assert_eq!(settings.window_height, Some(760));
}

#[test]
fn window_is_never_smaller_than_its_least_size() {
    assert_eq!(window_size(None, None), (1200, 760));
    assert_eq!(window_size(Some(1920), Some(1080)), (1920, 1080));
    assert_eq!(window_size(Some(100), Some(100)), (720, 540));
    assert_eq!(window_size(Some(720), Some(539)), (720, 540));
    assert_eq!(window_size(Some(719), None), (720, 760));
}
