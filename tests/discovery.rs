use std::collections::{BTreeMap, BTreeSet};

use docx2pdf::discover::{is_engine_path, names_match, parse_search_output, registry_candidate};
use docx2pdf::locator::{DirEntry, Locator, Reply, Request};
use docx2pdf::manager::LibreOfficeManager;
use docx2pdf::platform::{Platform, Strategy};

#[derive(Default)]
struct World {
    files: BTreeSet<String>,
    registry: Vec<String>,
    search: Option<String>,
    dirs: BTreeMap<String, Vec<(String, bool)>>,
    unpacked: BTreeMap<String, Vec<(String, bool)>>,
    requests: Vec<String>,
}

impl World {
    fn reply(&mut self, r: Request) -> Reply {
        match r {
            Request::CheckExists(p) => {
                self.requests.push(format!("exists {}", p));
                Reply::Exists(self.files.contains(&p))
            }
            Request::ReadRegistry => {
                self.requests.push("registry".to_string());
                Reply::InstallDirs(self.registry.clone())
            }
            Request::RunSearch(prog, args) => {
                self.requests.push(format!("run {} {}", prog, args.join(" ")));
                Reply::SearchOutput(self.search.clone())
            }
            Request::ListDir(d) => {
                self.requests.push(format!("list {}", d));
                let entries = self.dirs.get(&d).cloned().unwrap_or_default();
                Reply::Listing(entries.into_iter().map(|(path, is_dir)| DirEntry { path, is_dir }).collect())
            }
            Request::Extract(a, d) => {
                self.requests.push(format!("extract {} {}", a, d));
                let extra = std::mem::take(&mut self.unpacked);
                for (k, v) in extra {
                    for (p, is_dir) in &v {
                        if !is_dir {
                            self.files.insert(p.clone());
                        }
                    }
                    self.dirs.insert(k, v);
                }
                Reply::Extracted(true)
            }
        }
    }

    fn run(&mut self, mut loc: Locator) -> Option<String> {
        let mut steps = 0;
        while !loc.is_finished() {
            let r = loc.request();
            let reply = self.reply(r);
            loc.answer(reply);
            steps += 1;
            assert!(steps < 1000);
        }
        loc.result()
    }
}

#[test]
fn well_known_path_wins_over_search_path() {
    let mut w = World::default();
    w.files.insert("/usr/lib/libreoffice/program/soffice".to_string());
    w.files.insert("/home/u/bin/soffice".to_string());
    w.search = Some("/home/u/bin/soffice\n".to_string());
    let found = w.run(LibreOfficeManager::find_libreoffice(Platform::Linux, String::new(), vec![]));
    assert_eq!(found.as_deref(), Some("/usr/lib/libreoffice/program/soffice"));
    assert!(!w.requests.iter().any(|r| r.starts_with("run")));
}

#[test]
fn search_path_used_when_no_well_known_path() {
    let mut w = World::default();
    w.files.insert("/home/u/bin/soffice".to_string());
    w.search = Some("  /home/u/bin/soffice  \n/other/soffice\n".to_string());
    let found = w.run(LibreOfficeManager::find_libreoffice(Platform::Linux, String::new(), vec![]));
    assert_eq!(found.as_deref(), Some("/home/u/bin/soffice"));
    assert_eq!(w.requests.last().unwrap(), "exists /home/u/bin/soffice");
    assert!(w.requests.contains(&"run which soffice".to_string()));
}

#[test]
fn search_path_result_must_exist() {
    let mut w = World::default();
    w.search = Some("/gone/soffice\n".to_string());
    let found = w.run(LibreOfficeManager::find_libreoffice(Platform::Linux, String::new(), vec![]));
    assert_eq!(found, None);
}

#[test]
fn well_known_paths_checked_in_order() {
    let mut w = World::default();
    let found = w.run(LibreOfficeManager::find_common_path_libreoffice(Platform::Linux));
    assert_eq!(found, None);
    assert_eq!(
        w.requests,
        vec![
            "exists /usr/bin/soffice",
            "exists /usr/local/bin/soffice",
            "exists /opt/libreoffice/program/soffice",
            "exists /usr/lib64/libreoffice/program/soffice",
            "exists /usr/lib/libreoffice/program/soffice",
            "exists /snap/bin/soffice",
        ]
    );
}

#[test]
fn macos_well_known_path() {
    let mut w = World::default();
    w.files.insert("/Applications/LibreOffice.app/Contents/MacOS/soffice".to_string());
    let found = w.run(LibreOfficeManager::find_libreoffice(Platform::MacOs, String::new(), vec![]));
    assert_eq!(found.as_deref(), Some("/Applications/LibreOffice.app/Contents/MacOS/soffice"));
}

#[test]
fn other_platform_goes_straight_to_search_path() {
    let mut w = World::default();
    w.files.insert("/x/soffice".to_string());
    w.search = Some("/x/soffice".to_string());
    let found = w.run(LibreOfficeManager::find_libreoffice(Platform::Other, String::new(), vec![]));
    assert_eq!(found.as_deref(), Some("/x/soffice"));
    assert_eq!(w.requests[0], "run which soffice");
}

#[test]
fn windows_registry_first() {
    let mut w = World::default();
    w.registry = vec!["D:\\LO".to_string(), "E:\\LO\\".to_string()];
    w.files.insert("E:\\LO\\program\\soffice.exe".to_string());
    w.files.insert("C:\\Program Files\\LibreOffice\\program\\soffice.exe".to_string());
    let found = w.run(LibreOfficeManager::find_libreoffice(Platform::Windows, "C:\\data\\libreoffice".to_string(), vec![]));
    assert_eq!(found.as_deref(), Some("E:\\LO\\program\\soffice.exe"));
    assert_eq!(
        w.requests,
        vec!["registry", "exists D:\\LO\\program\\soffice.exe", "exists E:\\LO\\program\\soffice.exe"]
    );
}

#[test]
fn windows_search_uses_where() {
    let mut w = World::default();
    w.search = Some("C:\\Tools\\soffice.exe\r\nC:\\Other\\soffice.exe\r\n".to_string());
    w.files.insert("C:\\Tools\\soffice.exe".to_string());
    let found = w.run(LibreOfficeManager::find_path_libreoffice(Platform::Windows));
    assert_eq!(found.as_deref(), Some("C:\\Tools\\soffice.exe"));
    assert_eq!(w.requests[0], "run cmd /C where soffice.exe");
}

#[test]
fn bundled_copy_found_already_unpacked() {
    let mut w = World::default();
    let root = "C:\\data\\libreoffice".to_string();
    w.dirs.insert(root.clone(), vec![("C:\\data\\libreoffice\\LibreOffice".to_string(), true), ("C:\\data\\libreoffice\\readme.txt".to_string(), false)]);
    w.dirs.insert(
        "C:\\data\\libreoffice\\LibreOffice".to_string(),
        vec![("C:\\data\\libreoffice\\LibreOffice\\program".to_string(), true)],
    );
    w.dirs.insert(
        "C:\\data\\libreoffice\\LibreOffice\\program".to_string(),
        vec![("C:\\data\\libreoffice\\LibreOffice\\program\\SOFFICE.EXE".to_string(), false)],
    );
    w.files.insert("C:\\data\\libreoffice\\LibreOffice\\program\\SOFFICE.EXE".to_string());
    let found = w.run(LibreOfficeManager::find_bundled_libreoffice(Platform::Windows, root, vec!["a.zip".to_string()]));
    assert_eq!(found.as_deref(), Some("C:\\data\\libreoffice\\LibreOffice\\program\\SOFFICE.EXE"));
    assert!(!w.requests.iter().any(|r| r.starts_with("extract")));
}

#[test]
fn bundled_walk_is_depth_first_in_listing_order() {
    let mut w = World::default();
    let root = "/r".to_string();
    w.dirs.insert(root.clone(), vec![("/r/a".to_string(), true), ("/r/soffice".to_string(), false)]);
    w.dirs.insert("/r/a".to_string(), vec![("/r/a/soffice".to_string(), false)]);
    w.files.insert("/r/soffice".to_string());
    w.files.insert("/r/a/soffice".to_string());
    let found = w.run(LibreOfficeManager::find_bundled_libreoffice(Platform::Linux, root, vec![]));
    assert_eq!(found.as_deref(), Some("/r/a/soffice"));
}

#[test]
fn bundled_copy_unpacked_from_first_existing_archive() {
    let mut w = World::default();
    let root = "C:\\data\\libreoffice".to_string();
    w.files.insert("second.zip".to_string());
    w.unpacked.insert(root.clone(), vec![("C:\\data\\libreoffice\\soffice.exe".to_string(), false)]);
    let found = w.run(LibreOfficeManager::find_bundled_libreoffice(
        Platform::Windows,
        root.clone(),
        vec!["first.zip".to_string(), "second.zip".to_string()],
    ));
    assert_eq!(found.as_deref(), Some("C:\\data\\libreoffice\\soffice.exe"));
    assert!(w.requests.contains(&"extract second.zip C:\\data\\libreoffice".to_string()));
}

#[test]
fn bundled_without_archive_finds_nothing() {
    let mut w = World::default();
    let found = w.run(LibreOfficeManager::find_bundled_libreoffice(Platform::Windows, "/r".to_string(), vec!["a.zip".to_string()]));
    assert_eq!(found, None);
    assert_eq!(w.requests, vec!["list /r", "exists a.zip"]);
}

#[test]
fn mismatched_reply_counts_as_nothing() {
    let mut loc = LibreOfficeManager::find_path_libreoffice(Platform::Linux);
    loc.answer(Reply::Exists(true));
    assert!(loc.is_finished());
    assert_eq!(loc.result(), None);
}

#[test]
fn registry_stage_alone() {
    let mut w = World::default();
    let found = w.run(LibreOfficeManager::find_windows_registry_libreoffice(Platform::Windows));
    assert_eq!(found, None);
    assert_eq!(w.requests, vec!["registry"]);
}

#[test]
fn single_strategy_search() {
    let mut w = World::default();
    w.files.insert("/usr/bin/soffice".to_string());
    let found = w.run(Locator::single(Platform::Linux, Strategy::WellKnown, String::new(), vec![]));
    assert_eq!(found.as_deref(), Some("/usr/bin/soffice"));
}

#[test]
fn search_output_first_line_trimmed() {
    assert_eq!(parse_search_output("/usr/bin/soffice\n").as_deref(), Some("/usr/bin/soffice"));
    assert_eq!(parse_search_output("  a b \r\nc").as_deref(), Some("a b"));
    assert_eq!(parse_search_output("\t\n/x"), None);
    assert_eq!(parse_search_output(""), None);
    assert_eq!(parse_search_output("\u{a0}/p\u{3000}").as_deref(), Some("/p"));
}

#[test]
fn names_match_ignoring_ascii_case() {
    assert!(names_match("SOFFICE.EXE", "soffice.exe"));
    assert!(names_match("soffice", "soffice"));
    assert!(!names_match("soffice", "soffice.exe"));
    assert!(!names_match("Éx", "éx"));
    assert!(is_engine_path(Platform::Windows, "C:\\x\\SOffice.exe"));
    assert!(!is_engine_path(Platform::Linux, "/x/soffice.bin"));
}

#[test]
fn registry_candidates() {
    assert_eq!(registry_candidate(Platform::Windows, "C:\\LO"), "C:\\LO\\program\\soffice.exe");
    assert_eq!(registry_candidate(Platform::Windows, "C:\\LO\\"), "C:\\LO\\program\\soffice.exe");
}

#[test]
fn bundled_walk_ignores_files_outside_private_dir() {
    let mut w = World::default();
    let root = "/r".to_string();
    w.dirs.insert(root.clone(), vec![("/elsewhere/soffice".to_string(), false), ("/r/x/soffice".to_string(), false)]);
    w.files.insert("/elsewhere/soffice".to_string());
    w.files.insert("/r/x/soffice".to_string());
    let found = w.run(LibreOfficeManager::find_bundled_libreoffice(Platform::Linux, root, vec![]));
    assert_eq!(found.as_deref(), Some("/r/x/soffice"));
}

#[test]
fn path_under_directory() {
    use_path_is_under();
}

fn use_path_is_under() {
    assert!(docx2pdf::locator::path_is_under("/r/a", "/r"));
    assert!(!docx2pdf::locator::path_is_under("/r", "/r"));
    assert!(!docx2pdf::locator::path_is_under("/q/a", "/r"));
}
