use docx2pdf::path::{base_name_of, join, output_path, parent_dir_of, rfind, stem_of, trimmed_len};
use docx2pdf::platform::Platform;

#[test]
fn output_path_next_to_input() {
    assert_eq!(output_path(Platform::Linux, "/a/b/report.docx", None), "/a/b/report.pdf");
}

#[test]
fn output_path_into_output_dir() {
    assert_eq!(output_path(Platform::Linux, "/a/b/report.docx", Some("/out")), "/out/report.pdf");
}

#[test]
fn output_path_without_directory() {
    assert_eq!(output_path(Platform::Linux, "report.docx", None), "./report.pdf");
}

#[test]
fn output_path_at_root() {
    assert_eq!(output_path(Platform::Linux, "/report.docx", None), "//report.pdf");
}

#[test]
fn output_path_windows_separators() {
    assert_eq!(output_path(Platform::Windows, "C:\\docs\\letter.docx", None), "C:\\docs/letter.pdf");
    assert_eq!(output_path(Platform::Windows, "C:\\docs\\letter.docx", Some("D:\\out")), "D:\\out/letter.pdf");
}

#[test]
fn backslash_is_no_separator_off_windows() {
    assert_eq!(output_path(Platform::Linux, "a\\b.docx", None), "./a\\b.pdf");
    assert_eq!(output_path(Platform::MacOs, "/d/a\\b.docx", Some("/o")), "/o/a\\b.pdf");
}

#[test]
fn output_path_keeps_inner_dots() {
    assert_eq!(output_path(Platform::Linux, "/x/a.b.docx", Some("/o")), "/o/a.b.pdf");
}

#[test]
fn output_path_trailing_separator() {
    assert_eq!(output_path(Platform::Linux, "/x/", Some("/o")), "/o/x.pdf");
    assert_eq!(output_path(Platform::Linux, "/a/x.docx//", None), "/a/x.pdf");
    assert_eq!(output_path(Platform::Linux, "/", Some("/o")), "/o/output.pdf");
}

#[test]
fn stems() {
    assert_eq!(stem_of("report.docx"), "report");
    assert_eq!(stem_of(".hidden"), ".hidden");
    assert_eq!(stem_of("noext"), "noext");
    assert_eq!(stem_of("a.tar.gz"), "a.tar");
    assert_eq!(stem_of(""), "output");
    assert_eq!(stem_of("."), "output");
    assert_eq!(stem_of(".."), "output");
}

#[test]
fn base_and_parent() {
    let p = Platform::Linux;
    assert_eq!(base_name_of(p, "/a/b/c.txt"), "c.txt");
    assert_eq!(base_name_of(p, "c.txt"), "c.txt");
    assert_eq!(base_name_of(p, "/a/b/"), "b");
    assert_eq!(base_name_of(p, "/"), "");
    assert_eq!(parent_dir_of(p, "/a/b/c.txt"), "/a/b");
    assert_eq!(parent_dir_of(p, "c.txt"), ".");
    assert_eq!(parent_dir_of(p, "/c.txt"), "/");
    assert_eq!(parent_dir_of(p, "/a/b/"), "/a");
    assert_eq!(parent_dir_of(p, "a//b"), "a");
    assert_eq!(parent_dir_of(p, "/"), ".");
    assert_eq!(parent_dir_of(Platform::Windows, "C:\\x\\y.txt"), "C:\\x");
    assert_eq!(trimmed_len(p, "/a//"), 2);
}

#[test]
fn rfind_last_separator() {
    assert_eq!(rfind("/a/b\\c", '/', '\\'), Some(4));
    assert_eq!(rfind("abc", '/', '\\'), None);
    assert_eq!(rfind("", '/', '/'), None);
}

#[test]
fn joins() {
    assert_eq!(join("/data", "/", "app"), "/data/app");
    assert_eq!(join("/data/", "/", "app"), "/data/app");
    assert_eq!(join("", "/", "app"), "app");
    assert_eq!(join("C:\\Users", "\\", "app"), "C:\\Users\\app");
}

#[test]
fn directory_of_file() {
    assert_eq!(parent_dir_of(Platform::Linux, "/out/report.pdf"), "/out");
    assert_eq!(parent_dir_of(Platform::Linux, "/report.pdf"), "/");
    assert_eq!(parent_dir_of(Platform::Linux, "report.pdf"), ".");
}
