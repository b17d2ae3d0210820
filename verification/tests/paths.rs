use saucy::detect::{activate_path, bin_dir_path, get_virtual_env, interpreter_path, Probe};
use saucy::path::{join, needs_separator};
use saucy::platform::Platform;

const FOUND: Probe = Probe { is_dir: true, has_bin_dir: true, has_interpreter: true };

#[test]
fn names_of_the_windows_family() {
    assert_eq!(Platform::Windows.bin_dir(), "Scripts");
    assert_eq!(Platform::Windows.interpreter(), "python.exe");
    assert_eq!(Platform::Windows.activate(), "activate");
    assert_eq!(Platform::Windows.separator(), "\\");
}

#[test]
fn names_of_every_other_target() {
    assert_eq!(Platform::Other.bin_dir(), "bin");
    assert_eq!(Platform::Other.interpreter(), "python");
    assert_eq!(Platform::Other.activate(), "activate");
    assert_eq!(Platform::Other.separator(), "/");
}

#[test]
fn join_writes_one_separator() {
    assert_eq!(join(Platform::Other, "/work", "bin"), "/work/bin");
    assert_eq!(join(Platform::Other, "work/proj", "venv"), "work/proj/venv");
    assert_eq!(join(Platform::Windows, "C:\\work", "Scripts"), "C:\\work\\Scripts");
}

#[test]
fn join_keeps_a_separator_that_is_there() {
    assert_eq!(join(Platform::Other, "/work/", "bin"), "/work/bin");
    assert_eq!(join(Platform::Other, "/", "bin"), "/bin");
    assert_eq!(join(Platform::Windows, "C:\\", "Scripts"), "C:\\Scripts");
    assert_eq!(join(Platform::Windows, "C:/work/", "Scripts"), "C:/work/Scripts");
}

#[test]
fn join_behind_an_empty_path() {
    assert_eq!(join(Platform::Other, "", "bin"), "bin");
    assert_eq!(join(Platform::Windows, "", "Scripts"), "Scripts");
}

#[test]
fn join_behind_a_bare_drive() {
    assert_eq!(join(Platform::Windows, "C:", "Scripts"), "C:Scripts");
    assert_eq!(join(Platform::Windows, "z:", "Scripts"), "z:Scripts");
    assert_eq!(join(Platform::Windows, "1:", "Scripts"), "1:\\Scripts");
    assert_eq!(join(Platform::Windows, "CD:", "Scripts"), "CD:\\Scripts");
    assert_eq!(join(Platform::Other, "C:", "bin"), "C:/bin");
}

#[test]
fn backslash_ends_a_part_only_in_the_windows_family() {
    assert_eq!(join(Platform::Other, "work\\", "bin"), "work\\/bin");
    assert_eq!(join(Platform::Windows, "work\\", "Scripts"), "work\\Scripts");
}

#[test]
fn join_counts_characters_not_bytes() {
    assert_eq!(join(Platform::Other, "/wörk/é", "bin"), "/wörk/é/bin");
    assert_eq!(join(Platform::Windows, "é:", "Scripts"), "é:\\Scripts");
}

#[test]
fn needs_separator_says_when() {
    assert!(needs_separator(Platform::Other, "."));
    assert!(needs_separator(Platform::Other, "/work"));
    assert!(!needs_separator(Platform::Other, "/work/"));
    assert!(!needs_separator(Platform::Other, ""));
    assert!(needs_separator(Platform::Other, "a\\"));
    assert!(!needs_separator(Platform::Windows, "a\\"));
    assert!(!needs_separator(Platform::Windows, "a/"));
    assert!(!needs_separator(Platform::Windows, "C:"));
    assert!(needs_separator(Platform::Windows, "C:a"));
}

#[test]
fn paths_inside_an_environment() {
    assert_eq!(bin_dir_path(Platform::Other, "/work/proj/venv"), "/work/proj/venv/bin");
    assert_eq!(interpreter_path(Platform::Other, "/work/proj/venv"), "/work/proj/venv/bin/python");
    assert_eq!(activate_path(Platform::Other, "/work/proj/venv"), "/work/proj/venv/bin/activate");
    assert_eq!(bin_dir_path(Platform::Windows, "C:\\venv"), "C:\\venv\\Scripts");
    assert_eq!(interpreter_path(Platform::Windows, "C:\\venv"), "C:\\venv\\Scripts\\python.exe");
    assert_eq!(activate_path(Platform::Windows, "C:\\venv"), "C:\\venv\\Scripts\\activate");
}

#[test]
fn paths_under_the_current_directory() {
    assert_eq!(activate_path(Platform::Other, "."), "./bin/activate");
    assert_eq!(activate_path(Platform::Other, ""), "bin/activate");
    assert_eq!(interpreter_path(Platform::Windows, "C:"), "C:Scripts\\python.exe");
}

#[test]
fn get_virtual_env_finds_an_environment() {
    assert_eq!(
        get_virtual_env(Platform::Other, "/work/proj/venv", FOUND),
        Some("/work/proj/venv/bin/activate".to_string())
    );
    assert_eq!(
        get_virtual_env(Platform::Windows, "C:\\proj\\venv", FOUND),
        Some("C:\\proj\\venv\\Scripts\\activate".to_string())
    );
}

#[test]
fn get_virtual_env_wants_a_directory() {
    let probe = Probe { is_dir: false, ..FOUND };
    assert_eq!(get_virtual_env(Platform::Other, "/work/file", probe), None);
}

#[test]
fn get_virtual_env_wants_the_program_directory() {
    let probe = Probe { has_bin_dir: false, ..FOUND };
    assert_eq!(get_virtual_env(Platform::Other, "/work", probe), None);
}

#[test]
fn get_virtual_env_wants_the_interpreter() {
    let probe = Probe { has_interpreter: false, ..FOUND };
    assert_eq!(get_virtual_env(Platform::Other, "/work", probe), None);
    assert_eq!(get_virtual_env(Platform::Windows, "C:\\work", probe), None);
}

#[test]
fn get_virtual_env_with_nothing_there() {
    let probe = Probe { is_dir: false, has_bin_dir: false, has_interpreter: false };
    assert_eq!(get_virtual_env(Platform::Other, "/nowhere", probe), None);
}
