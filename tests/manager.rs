use std::collections::BTreeSet;

use docx2pdf::locator::{Locator, Reply, Request};
use docx2pdf::manager::LibreOfficeManager;
use docx2pdf::platform::{Platform, Strategy};

fn drive(mut loc: Locator, files: &BTreeSet<String>, search: Option<&str>, asked: &mut Vec<String>) -> Locator {
    while !loc.is_finished() {
        let reply = match loc.request() {
            Request::CheckExists(p) => {
                asked.push(p.clone());
                Reply::Exists(files.contains(&p))
            }
            Request::RunSearch(_, _) => Reply::SearchOutput(search.map(|s| s.to_string())),
            Request::ReadRegistry => Reply::InstallDirs(vec![]),
            Request::ListDir(_) => Reply::Listing(vec![]),
            Request::Extract(_, _) => Reply::Extracted(false),
        };
        loc.answer(reply);
    }
    loc
}

#[test]
fn resolve_twice_gives_same_path() {
    let mut m = LibreOfficeManager::new();
    let mut files = BTreeSet::new();
    files.insert("/usr/local/bin/soffice".to_string());
    let mut asked = vec![];
    let loc = drive(m.ensure_libreoffice(Platform::Linux, String::new(), vec![]), &files, None, &mut asked);
    let first = m.accept(&loc).unwrap();
    asked.clear();
    let loc = drive(m.ensure_libreoffice(Platform::Linux, String::new(), vec![]), &files, None, &mut asked);
    let second = m.accept(&loc).unwrap();
    assert_eq!(first, "/usr/local/bin/soffice");
    assert_eq!(first, second);
    assert_eq!(asked, vec!["/usr/local/bin/soffice"]);
}

#[test]
fn deleted_cached_path_is_rediscovered() {
    let mut m = LibreOfficeManager::new();
    let mut files = BTreeSet::new();
    files.insert("/usr/bin/soffice".to_string());
    files.insert("/snap/bin/soffice".to_string());
    let mut asked = vec![];
    let loc = drive(m.ensure_libreoffice(Platform::Linux, String::new(), vec![]), &files, None, &mut asked);
    assert_eq!(m.accept(&loc).unwrap(), "/usr/bin/soffice");
    files.remove("/usr/bin/soffice");
    let loc = drive(m.ensure_libreoffice(Platform::Linux, String::new(), vec![]), &files, None, &mut asked);
    assert_eq!(m.accept(&loc).unwrap(), "/snap/bin/soffice");
}

#[test]
fn not_found_error_and_cache_cleared() {
    let mut m = LibreOfficeManager::new();
    let files = BTreeSet::new();
    let mut asked = vec![];
    let loc = drive(m.ensure_libreoffice(Platform::Linux, String::new(), vec![]), &files, None, &mut asked);
    let err = m.accept(&loc).unwrap_err();
    assert!(err.starts_with("LibreOffice not found. Please install LibreOffice"));
    assert!(err.contains("sudo apt install libreoffice-writer"));
    let loc = drive(m.ensure_libreoffice(Platform::Windows, String::new(), vec![]), &files, None, &mut asked);
    let err = m.accept(&loc).unwrap_err();
    assert!(err.contains("libreoffice-win.zip"));
}

#[test]
fn availability_of_finished_search() {
    let mut files = BTreeSet::new();
    let mut asked = vec![];
    let loc = drive(LibreOfficeManager::find_libreoffice(Platform::Linux, String::new(), vec![]), &files, None, &mut asked);
    assert!(!LibreOfficeManager::is_available(&loc));
    files.insert("/usr/bin/soffice".to_string());
    let loc = drive(Locator::single(Platform::Linux, Strategy::WellKnown, String::new(), vec![]), &files, None, &mut asked);
    assert!(LibreOfficeManager::is_available(&loc));
}

#[test]
fn engine_command_for_conversion() {
    let c = LibreOfficeManager::convert_file(Platform::Linux, "/usr/bin/soffice", "/a/b/report.docx", "/out/report.pdf");
    assert_eq!(c.program, "/usr/bin/soffice");
    assert_eq!(c.args, vec!["--headless", "--convert-to", "pdf", "--outdir", "/out", "/a/b/report.docx"]);
    let c = LibreOfficeManager::convert_file(Platform::Linux, "soffice", "in.docx", "report.pdf");
    assert_eq!(c.args[4], ".");
}

#[test]
fn conversion_outcomes() {
    assert_eq!(LibreOfficeManager::conversion_outcome("/o/r.pdf", true, "x", "y"), Ok("/o/r.pdf".to_string()));
    let e = LibreOfficeManager::conversion_outcome("/o/r.pdf", false, "some output", "some error").unwrap_err();
    assert!(e.contains("some output"));
    assert!(e.contains("some error"));
}

#[test]
fn private_directories() {
    assert_eq!(LibreOfficeManager::app_data_dir_in(Platform::Linux, Some("/home/u/.local/share".to_string())), "/home/u/.local/share/docx2pdf-converter");
    assert_eq!(LibreOfficeManager::app_data_dir_in(Platform::Linux, None), "./docx2pdf-converter");
    assert_eq!(
        LibreOfficeManager::libreoffice_dir_in(Platform::Windows, Some("C:\\Users\\u\\AppData\\Roaming".to_string())),
        "C:\\Users\\u\\AppData\\Roaming\\docx2pdf-converter\\libreoffice"
    );
    let d = LibreOfficeManager::get_libreoffice_dir(Platform::Linux);
    assert!(d.ends_with("/docx2pdf-converter/libreoffice"));
    assert!(LibreOfficeManager::get_app_data_dir(Platform::Linux).ends_with("docx2pdf-converter"));
}

#[test]
fn binary_names() {
    assert_eq!(LibreOfficeManager::get_so_binary_name(Platform::Windows), "soffice.exe");
    assert_eq!(LibreOfficeManager::get_so_binary_name(Platform::Linux), "soffice");
    assert_eq!(LibreOfficeManager::get_so_binary_name(Platform::MacOs), "soffice");
}

#[test]
fn archive_entry_targets() {
    let e = LibreOfficeManager::zip_entry_target(Platform::Linux, "/d", "LibreOffice/program/");
    assert_eq!(e.path, "/d/LibreOffice/program/");
    assert!(e.is_dir);
    let f = LibreOfficeManager::zip_entry_target(Platform::Windows, "C:\\d", "LibreOffice/program/soffice.exe");
    assert_eq!(f.path, "C:\\d\\LibreOffice/program/soffice.exe");
    assert!(!f.is_dir);
    let again = LibreOfficeManager::zip_entry_target(Platform::Windows, "C:\\d", "LibreOffice/program/soffice.exe");
    assert_eq!(again.path, f.path);
}

#[test]
fn archive_candidate_locations() {
    let c = Platform::Windows.archive_candidates(Some("C:\\app"));
    assert_eq!(
        c,
        vec![
            "C:\\app\\libreoffice\\libreoffice-win.zip",
            "C:\\app\\../libreoffice\\libreoffice-win.zip",
            "C:\\app\\../../libreoffice\\libreoffice-win.zip",
            ".\\libreoffice\\libreoffice-win.zip",
            "libreoffice\\libreoffice-win.zip",
        ]
    );
    assert_eq!(Platform::Windows.archive_candidates(None).len(), 2);
}

#[test]
fn strategy_orders() {
    assert_eq!(Platform::Windows.strategies(), vec![Strategy::Registry, Strategy::WellKnown, Strategy::SearchPath, Strategy::Bundled]);
    assert_eq!(Platform::Linux.strategies(), vec![Strategy::WellKnown, Strategy::SearchPath]);
    assert_eq!(Platform::Windows.well_known_paths().len(), 2);
    assert!(Platform::Other.well_known_paths().is_empty());
}

#[test]
fn extraction_failure_stops_at_first_archive() {
    let mut files = BTreeSet::new();
    files.insert("a.zip".to_string());
    files.insert("b.zip".to_string());
    let mut asked = vec![];
    let loc = drive(
        LibreOfficeManager::find_bundled_libreoffice(Platform::Windows, "/r".to_string(), vec!["a.zip".to_string(), "b.zip".to_string()]),
        &files,
        None,
        &mut asked,
    );
    assert_eq!(loc.result(), None);
    assert_eq!(asked, vec!["a.zip"]);
}

#[test]
fn retry_after_not_found_succeeds() {
    let mut m = LibreOfficeManager::new();
    let mut files = BTreeSet::new();
    let mut asked = vec![];
    let loc = drive(m.ensure_libreoffice(Platform::Linux, String::new(), vec![]), &files, None, &mut asked);
    assert!(m.accept(&loc).is_err());
    files.insert("/opt/libreoffice/program/soffice".to_string());
    let loc = drive(m.ensure_libreoffice(Platform::Linux, String::new(), vec![]), &files, None, &mut asked);
    assert_eq!(m.accept(&loc).unwrap(), "/opt/libreoffice/program/soffice");
}
