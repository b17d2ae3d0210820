use saucy::detect::Probe;
use saucy::emit::ScanError;
use saucy::platform::Platform;
use saucy::scan::{Action, Entry, Event, ScanConfig, VenvScanner};

/// A disk made of lists. A directory is listed in `tree` with its entries in
/// the order they are read; an entry is a directory if it is listed itself,
/// or named in `closed`.
struct Disk {
    tree: Vec<(&'static str, Vec<&'static str>)>,
    files: Vec<&'static str>,
    /// Directories that cannot be opened.
    closed: Vec<&'static str>,
    /// Directories in which the read behind the first entry fails.
    broken: Vec<&'static str>,
    /// Paths without a canonical form.
    dangling: Vec<&'static str>,
    /// What is put before a path to make it canonical.
    prefix: &'static str,
}

impl Disk {
    fn new(tree: Vec<(&'static str, Vec<&'static str>)>, files: Vec<&'static str>) -> Disk {
        Disk { tree, files, closed: vec![], broken: vec![], dangling: vec![], prefix: "" }
    }

    fn is_dir(&self, path: &str) -> bool {
        self.tree.iter().any(|(dir, _)| *dir == path) || self.closed.contains(&path)
    }

    fn is_file(&self, path: &str) -> bool {
        self.files.contains(&path)
    }

    fn probe(&self, dir: &str, bin_dir: &str, interpreter: &str) -> Probe {
        Probe {
            is_dir: self.is_dir(dir),
            has_bin_dir: self.is_dir(bin_dir),
            has_interpreter: self.is_file(interpreter),
        }
    }

    fn resolve(&self, path: &str) -> Result<String, String> {
        if self.dangling.contains(&path) {
            Err("No such file or directory (os error 2)".to_string())
        } else {
            Ok(format!("{}{}", self.prefix, path))
        }
    }

    fn list(&self, dir: &str) -> Event {
        if self.closed.contains(&dir) {
            return Event::Unreadable;
        }
        let Some((_, names)) = self.tree.iter().find(|(name, _)| *name == dir) else {
            return Event::Unreadable;
        };
        let mut entries = Vec::new();
        for name in names {
            entries.push(Entry::Child { path: name.to_string(), is_dir: self.is_dir(name) });
            if self.broken.contains(&dir) {
                entries.push(Entry::Failed { cause: "Input/output error (os error 5)".to_string() });
                break;
            }
        }
        Event::Listed(entries)
    }
}

/// What a search did.
#[derive(Debug, PartialEq)]
struct Report {
    lines: Vec<String>,
    probed: Vec<String>,
    listed: Vec<String>,
    result: Result<(), ScanError>,
}

fn scan_on(platform: Platform, disk: &Disk, root: &str, find_all: bool) -> Report {
    let mut scanner = VenvScanner::new(platform, ScanConfig { root: root.to_string(), find_all });
    let mut action = scanner.pending();
    let mut report = Report { lines: vec![], probed: vec![], listed: vec![], result: Ok(()) };
    for _ in 0..10_000 {
        let event = match action {
            Action::Probe { dir, bin_dir, interpreter } => {
                report.probed.push(dir.clone());
                Event::Probed(disk.probe(&dir, &bin_dir, &interpreter))
            }
            Action::Resolve { path } => Event::Resolved(disk.resolve(&path)),
            Action::Print { line } => {
                report.lines.push(line);
                Event::Printed
            }
            Action::List { dir } => {
                report.listed.push(dir.clone());
                disk.list(&dir)
            }
            Action::Finish => {
                assert!(scanner.is_over());
                return report;
            }
            Action::Fail { error } => {
                assert!(scanner.is_over());
                report.result = Err(error);
                return report;
            }
        };
        let next = scanner.step(event);
        scanner = next.0;
        action = next.1;
    }
    panic!("the search did not come to an end");
}

fn scan(disk: &Disk, root: &str, find_all: bool) -> Report {
    scan_on(Platform::Other, disk, root, find_all)
}

fn strings(items: &[&str]) -> Vec<String> {
    items.iter().map(|item| item.to_string()).collect()
}

/// `/work` with one environment two levels down.
fn work() -> Disk {
    Disk::new(
        vec![
            ("/work", vec!["/work/notes.txt", "/work/proj", "/work/docs"]),
            ("/work/proj", vec!["/work/proj/src", "/work/proj/venv"]),
            ("/work/docs", vec![]),
            ("/work/proj/src", vec!["/work/proj/src/main.py"]),
            ("/work/proj/venv", vec!["/work/proj/venv/bin", "/work/proj/venv/lib"]),
            ("/work/proj/venv/bin", vec!["/work/proj/venv/bin/python"]),
            ("/work/proj/venv/lib", vec![]),
        ],
        vec!["/work/notes.txt", "/work/proj/src/main.py", "/work/proj/venv/bin/python"],
    )
}

/// `/home` with an environment one level down and another three levels down.
fn home() -> Disk {
    Disk::new(
        vec![
            ("/home", vec!["/home/a", "/home/env"]),
            ("/home/a", vec!["/home/a/b"]),
            ("/home/a/b", vec!["/home/a/b/deep"]),
            ("/home/a/b/deep", vec!["/home/a/b/deep/bin"]),
            ("/home/a/b/deep/bin", vec!["/home/a/b/deep/bin/python"]),
            ("/home/env", vec!["/home/env/bin"]),
            ("/home/env/bin", vec!["/home/env/bin/python"]),
        ],
        vec!["/home/a/b/deep/bin/python", "/home/env/bin/python"],
    )
}

#[test]
fn one_environment_is_found_in_either_mode() {
    let mut disk = work();
    disk.prefix = "/mnt";
    let first = scan(&disk, "/work", false);
    let all = scan(&disk, "/work", true);
    assert_eq!(first.lines, strings(&["/mnt/work/proj/venv/bin/activate"]));
    assert_eq!(all.lines, strings(&["/mnt/work/proj/venv/bin/activate"]));
    assert_eq!(first.result, Ok(()));
    assert_eq!(all.result, Ok(()));
}

#[test]
fn one_environment_at_the_root() {
    let disk = work();
    let first = scan(&disk, "/work/proj/venv", false);
    let all = scan(&disk, "/work/proj/venv", true);
    assert_eq!(first.lines, strings(&["/work/proj/venv/bin/activate"]));
    assert_eq!(all.lines, strings(&["/work/proj/venv/bin/activate"]));
    assert_eq!(first.probed, strings(&["/work/proj/venv"]));
    assert_eq!(first.listed, strings(&[]));
}

#[test]
fn the_nearer_of_two_environments_is_found_first() {
    let disk = home();
    let report = scan(&disk, "/home", false);
    assert_eq!(report.lines, strings(&["/home/env/bin/activate"]));
    assert_eq!(report.result, Ok(()));
    assert_eq!(report.probed, strings(&["/home", "/home/a", "/home/env"]));
}

#[test]
fn all_environments_come_nearest_first() {
    let disk = home();
    let report = scan(&disk, "/home", true);
    assert_eq!(report.lines, strings(&["/home/env/bin/activate", "/home/a/b/deep/bin/activate"]));
    assert_eq!(report.result, Ok(()));
}

#[test]
fn of_two_equally_near_the_one_listed_first_wins() {
    let disk = Disk::new(
        vec![
            ("top", vec!["top/second", "top/first"]),
            ("top/second", vec!["top/second/bin"]),
            ("top/second/bin", vec![]),
            ("top/first", vec!["top/first/bin"]),
            ("top/first/bin", vec![]),
        ],
        vec!["top/second/bin/python", "top/first/bin/python"],
    );
    assert_eq!(scan(&disk, "top", false).lines, strings(&["top/second/bin/activate"]));
    assert_eq!(
        scan(&disk, "top", true).lines,
        strings(&["top/second/bin/activate", "top/first/bin/activate"])
    );
}

#[test]
fn directories_are_visited_level_by_level() {
    let disk = work();
    let report = scan(&disk, "/work", true);
    assert_eq!(
        report.probed,
        strings(&[
            "/work",
            "/work/proj",
            "/work/docs",
            "/work/proj/src",
            "/work/proj/venv",
            "/work/proj/venv/bin",
            "/work/proj/venv/lib",
        ])
    );
    assert_eq!(report.listed, report.probed);
}

#[test]
fn the_first_match_ends_the_search_at_once() {
    let disk = work();
    let report = scan(&disk, "/work", false);
    assert_eq!(
        report.probed,
        strings(&["/work", "/work/proj", "/work/docs", "/work/proj/src", "/work/proj/venv"])
    );
    assert_eq!(report.listed, strings(&["/work", "/work/proj", "/work/docs", "/work/proj/src"]));
}

#[test]
fn a_program_directory_without_interpreter_is_no_match() {
    let disk = Disk::new(
        vec![
            ("/opt", vec!["/opt/bin", "/opt/tool"]),
            ("/opt/bin", vec!["/opt/bin/ls"]),
            ("/opt/tool", vec!["/opt/tool/bin"]),
            ("/opt/tool/bin", vec!["/opt/tool/bin/python"]),
        ],
        vec!["/opt/bin/ls", "/opt/tool/bin/python"],
    );
    let report = scan(&disk, "/opt", false);
    assert_eq!(report.lines, strings(&["/opt/tool/bin/activate"]));
    assert_eq!(report.probed, strings(&["/opt", "/opt/bin", "/opt/tool"]));
    assert_eq!(report.listed, strings(&["/opt", "/opt/bin"]));
}

#[test]
fn an_interpreter_that_is_a_directory_is_no_match() {
    let disk = Disk::new(
        vec![
            ("/opt", vec!["/opt/bin"]),
            ("/opt/bin", vec!["/opt/bin/python"]),
            ("/opt/bin/python", vec![]),
        ],
        vec![],
    );
    let report = scan(&disk, "/opt", true);
    assert_eq!(report.lines, strings(&[]));
    assert_eq!(report.probed, strings(&["/opt", "/opt/bin", "/opt/bin/python"]));
    assert_eq!(report.result, Ok(()));
}

#[test]
fn a_missing_root_gives_nothing() {
    let disk = work();
    for find_all in [false, true] {
        let report = scan(&disk, "/nowhere", find_all);
        assert_eq!(report.lines, strings(&[]));
        assert_eq!(report.result, Ok(()));
        assert_eq!(report.probed, strings(&["/nowhere"]));
        assert_eq!(report.listed, strings(&["/nowhere"]));
    }
}

#[test]
fn a_root_that_is_a_file_gives_nothing() {
    let disk = work();
    let report = scan(&disk, "/work/notes.txt", true);
    assert_eq!(report.lines, strings(&[]));
    assert_eq!(report.result, Ok(()));
}

#[test]
fn a_directory_that_cannot_be_opened_is_passed_over() {
    let mut disk = home();
    disk.closed = vec!["/home/a"];
    let report = scan(&disk, "/home", true);
    assert_eq!(report.lines, strings(&["/home/env/bin/activate"]));
    assert_eq!(report.result, Ok(()));
    assert_eq!(report.probed, strings(&["/home", "/home/a", "/home/env", "/home/env/bin"]));
}

#[test]
fn an_environment_that_cannot_be_opened_is_still_found() {
    let mut disk = home();
    disk.closed = vec!["/home/env"];
    let report = scan(&disk, "/home", true);
    assert_eq!(report.lines, strings(&["/home/env/bin/activate", "/home/a/b/deep/bin/activate"]));
    assert_eq!(report.result, Ok(()));
}

#[test]
fn a_search_gives_the_same_twice() {
    let disk = home();
    for find_all in [false, true] {
        let once = scan(&disk, "/home", find_all);
        let again = scan(&disk, "/home", find_all);
        assert_eq!(once, again);
    }
}

#[test]
fn the_activation_script_need_not_be_there() {
    let disk = work();
    assert!(!disk.is_file("/work/proj/venv/bin/activate"));
    let report = scan(&disk, "/work", false);
    assert_eq!(report.lines, strings(&["/work/proj/venv/bin/activate"]));
    assert_eq!(report.result, Ok(()));
}

#[test]
fn a_match_without_canonical_path_ends_the_search() {
    let mut disk = home();
    disk.dangling = vec!["/home/env/bin/activate"];
    for find_all in [false, true] {
        let report = scan(&disk, "/home", find_all);
        assert_eq!(report.lines, strings(&[]));
        assert_eq!(
            report.result,
            Err(ScanError::PathResolution {
                path: "/home/env/bin/activate".to_string(),
                cause: "No such file or directory (os error 2)".to_string(),
            })
        );
        assert_eq!(report.probed, strings(&["/home", "/home/a", "/home/env"]));
    }
}

#[test]
fn a_failed_read_ends_the_search() {
    let mut disk = home();
    disk.broken = vec!["/home/a"];
    let report = scan(&disk, "/home", true);
    assert_eq!(report.lines, strings(&[]));
    assert_eq!(
        report.result,
        Err(ScanError::EntryRead { cause: "Input/output error (os error 5)".to_string() })
    );
    assert_eq!(report.probed, strings(&["/home", "/home/a"]));
}

#[test]
fn a_failed_read_behind_the_first_match_is_never_met() {
    let mut disk = home();
    disk.broken = vec!["/home/env"];
    let first = scan(&disk, "/home", false);
    assert_eq!(first.lines, strings(&["/home/env/bin/activate"]));
    assert_eq!(first.result, Ok(()));
    let all = scan(&disk, "/home", true);
    assert_eq!(all.lines, strings(&["/home/env/bin/activate"]));
    assert_eq!(
        all.result,
        Err(ScanError::EntryRead { cause: "Input/output error (os error 5)".to_string() })
    );
}

#[test]
fn the_windows_family_looks_for_its_own_names() {
    let disk = Disk::new(
        vec![
            ("C:\\work", vec!["C:\\work\\venv", "C:\\work\\unix"]),
            ("C:\\work\\venv", vec!["C:\\work\\venv\\Scripts"]),
            ("C:\\work\\venv\\Scripts", vec![]),
            ("C:\\work\\unix", vec!["C:\\work\\unix\\bin"]),
            ("C:\\work\\unix\\bin", vec![]),
        ],
        vec!["C:\\work\\venv\\Scripts\\python.exe", "C:\\work\\unix\\bin\\python"],
    );
    let report = scan_on(Platform::Windows, &disk, "C:\\work", true);
    assert_eq!(report.lines, strings(&["C:\\work\\venv\\Scripts\\activate"]));
    assert_eq!(scan_on(Platform::Other, &disk, "C:\\work", true).lines, strings(&[]));
}

#[test]
fn a_new_search_asks_for_its_root() {
    let scanner = VenvScanner::new(
        Platform::Other,
        ScanConfig { root: ".".to_string(), find_all: false },
    );
    assert!(!scanner.is_over());
    assert_eq!(
        scanner.pending(),
        Action::Probe {
            dir: ".".to_string(),
            bin_dir: "./bin".to_string(),
            interpreter: "./bin/python".to_string(),
        }
    );
}

#[test]
fn a_match_is_resolved_and_then_printed() {
    let scanner = VenvScanner::new(
        Platform::Other,
        ScanConfig { root: "venv".to_string(), find_all: true },
    );
    let found = Probe { is_dir: true, has_bin_dir: true, has_interpreter: true };
    let (scanner, action) = scanner.step(Event::Probed(found));
    assert_eq!(action, Action::Resolve { path: "venv/bin/activate".to_string() });
    let (scanner, action) = scanner.step(Event::Resolved(Ok("/abs/venv/bin/activate".to_string())));
    assert_eq!(action, Action::Print { line: "/abs/venv/bin/activate".to_string() });
    let (scanner, action) = scanner.step(Event::Printed);
    assert_eq!(action, Action::List { dir: "venv".to_string() });
    let entries = vec![
        Entry::Child { path: "venv/pyvenv.cfg".to_string(), is_dir: false },
        Entry::Child { path: "venv/bin".to_string(), is_dir: true },
        Entry::Child { path: "venv/lib".to_string(), is_dir: true },
    ];
    let (scanner, action) = scanner.step(Event::Listed(entries));
    assert_eq!(
        action,
        Action::Probe {
            dir: "venv/bin".to_string(),
            bin_dir: "venv/bin/bin".to_string(),
            interpreter: "venv/bin/bin/python".to_string(),
        }
    );
    let nothing = Probe { is_dir: true, has_bin_dir: false, has_interpreter: false };
    let (scanner, action) = scanner.step(Event::Probed(nothing));
    assert_eq!(action, Action::List { dir: "venv/bin".to_string() });
    let (scanner, action) = scanner.step(Event::Unreadable);
    assert_eq!(
        action,
        Action::Probe {
            dir: "venv/lib".to_string(),
            bin_dir: "venv/lib/bin".to_string(),
            interpreter: "venv/lib/bin/python".to_string(),
        }
    );
    let (scanner, action) = scanner.step(Event::Probed(nothing));
    assert_eq!(action, Action::List { dir: "venv/lib".to_string() });
    let (scanner, action) = scanner.step(Event::Listed(vec![]));
    assert_eq!(action, Action::Finish);
    assert!(scanner.is_over());
}

#[test]
fn an_event_that_answers_nothing_changes_nothing() {
    let scanner = VenvScanner::new(
        Platform::Other,
        ScanConfig { root: "a".to_string(), find_all: true },
    );
    let asked = scanner.pending();
    let (scanner, action) = scanner.step(Event::Printed);
    assert_eq!(action, asked);
    let (scanner, action) = scanner.step(Event::Unreadable);
    assert_eq!(action, asked);
    let (scanner, action) = scanner.step(Event::Resolved(Ok("/a".to_string())));
    assert_eq!(action, asked);
    let (scanner, action) = scanner.step(Event::Listed(vec![]));
    assert_eq!(action, asked);
    assert!(!scanner.is_over());
}

#[test]
fn a_search_that_is_over_stays_over() {
    let scanner = VenvScanner::new(
        Platform::Other,
        ScanConfig { root: "a".to_string(), find_all: false },
    );
    let nothing = Probe { is_dir: false, has_bin_dir: false, has_interpreter: false };
    let (scanner, _) = scanner.step(Event::Probed(nothing));
    let (scanner, action) = scanner.step(Event::Unreadable);
    assert_eq!(action, Action::Finish);
    let (scanner, action) = scanner.step(Event::Probed(nothing));
    assert_eq!(action, Action::Finish);
    let (scanner, action) = scanner.step(Event::Listed(vec![]));
    assert_eq!(action, Action::Finish);
    assert!(scanner.is_over());
}

#[test]
fn a_failed_search_keeps_its_error() {
    let scanner = VenvScanner::new(
        Platform::Other,
        ScanConfig { root: "a".to_string(), find_all: false },
    );
    let found = Probe { is_dir: true, has_bin_dir: true, has_interpreter: true };
    let (scanner, _) = scanner.step(Event::Probed(found));
    let (scanner, action) = scanner.step(Event::Resolved(Err("gone".to_string())));
    let error = ScanError::PathResolution { path: "a/bin/activate".to_string(), cause: "gone".to_string() };
    assert_eq!(action, Action::Fail { error: error.duplicate() });
    assert!(scanner.is_over());
    let (scanner, action) = scanner.step(Event::Printed);
    assert_eq!(action, Action::Fail { error: error.duplicate() });
    assert_eq!(scanner.pending(), Action::Fail { error });
}

#[test]
fn only_the_first_failed_read_counts() {
    let scanner = VenvScanner::new(
        Platform::Other,
        ScanConfig { root: "a".to_string(), find_all: false },
    );
    let nothing = Probe { is_dir: true, has_bin_dir: false, has_interpreter: false };
    let (scanner, _) = scanner.step(Event::Probed(nothing));
    let entries = vec![
        Entry::Child { path: "a/b".to_string(), is_dir: true },
        Entry::Failed { cause: "first".to_string() },
        Entry::Child { path: "a/c".to_string(), is_dir: true },
        Entry::Failed { cause: "second".to_string() },
    ];
    let (_, action) = scanner.step(Event::Listed(entries));
    assert_eq!(action, Action::Fail { error: ScanError::EntryRead { cause: "first".to_string() } });
}
