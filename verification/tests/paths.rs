use o11a_core::domain::{load_audit_name, load_document_files, load_in_scope_files};
use o11a_core::domain::{load_security_notes, new_project_path, project_path_to_absolute_path};
use o11a_core::domain::{ConfigError, ConfigFile, ProjectPath};

const ROOT: &str = "/home/user/project";

fn within(file: &str, root: &str) -> String {
    new_project_path(&file.to_string(), root).file_path
}

fn text(s: &str) -> ConfigFile {
    ConfigFile::Text(s.to_string())
}

#[test]
fn files_outside_the_root_are_reached_by_steps_up() {
    assert_eq!(within("/etc/hosts", ROOT), "../../../etc/hosts");
    assert_eq!(within("../other/a.sol", ROOT), "../other/a.sol");
    assert_eq!(within("/home/user/project2/a.sol", ROOT), "../project2/a.sol");
    assert_eq!(within("/home/user", ROOT), "..");
    assert_eq!(within("/a", ""), "a");
}

#[test]
fn detours_are_left_out() {
    assert_eq!(within("a//b/./c/../d.sol", ROOT), "a/b/d.sol");
    assert_eq!(within("a/b/", ROOT), "a/b");
    assert_eq!(within("", ROOT), "");
    assert_eq!(within("/../a", "/x"), "../a");
    assert_eq!(within("a.sol", "./project"), "a.sol");
    assert_eq!(within("a.sol", ""), "a.sol");
    assert_eq!(within("a.sol", "/home/user/project/"), "a.sol");
}

#[test]
fn full_path_and_back() {
    let path = new_project_path(&"src/./my.sol".to_string(), ROOT);
    let full = project_path_to_absolute_path(&path, ROOT);
    assert_eq!(full, "/home/user/project/src/my.sol");
    assert_eq!(within(&full, ROOT), "src/my.sol");
    assert_eq!(within("a//b/", "/x//y/"), "a/b");
    assert_eq!(within("/x/y/a/b", "/x//y/"), "a/b");
    let outside = new_project_path(&"/etc/hosts".to_string(), ROOT);
    let full = project_path_to_absolute_path(&outside, ROOT);
    assert_eq!(full, "/home/user/project/../../../etc/hosts");
    assert_eq!(within(&full, ROOT), "../../../etc/hosts");
    let absolute = ProjectPath { file_path: "/etc/hosts".to_string() };
    assert_eq!(project_path_to_absolute_path(&absolute, ROOT), "/etc/hosts");
    let below_slash = ProjectPath { file_path: "a".to_string() };
    assert_eq!(project_path_to_absolute_path(&below_slash, "/"), "/a");
}

#[test]
fn scope_file_lists_one_path_on_each_line() {
    let files = load_in_scope_files(&text("./src/b.sol\r\n\n  src/a.sol  \nsrc/b.sol"), ROOT).unwrap();
    assert_eq!(files.len(), 2);
    assert_eq!(files.key_at(0).file_path, "src/a.sol");
    assert_eq!(files.key_at(1).file_path, "src/b.sol");
    assert!(files.contains_key(&ProjectPath { file_path: "src/a.sol".to_string() }));
}

#[test]
fn documents_keep_their_order_and_flag() {
    let docs = load_document_files(
        &text("docs/z.md\ntechnical: docs/a.md \n\ntechnical:docs/b.md\n"),
        ROOT,
    )
    .unwrap();
    let seen: Vec<(String, bool)> =
        docs.iter().map(|d| (d.project_path.file_path.clone(), d.is_technical)).collect();
    assert_eq!(
        seen,
        vec![
            ("docs/z.md".to_string(), false),
            ("docs/a.md".to_string(), true),
            ("docs/b.md".to_string(), true),
        ]
    );
}

#[test]
fn audit_name_is_the_first_line() {
    assert_eq!(load_audit_name(&text("  My Audit \nsecond")).unwrap(), "My Audit");
    let empty = load_audit_name(&text("")).unwrap_err();
    assert_eq!(empty.message(), "name.txt: file is empty");
    let blank = load_audit_name(&text("  \nMy Audit")).unwrap_err();
    assert_eq!(blank.message(), "name.txt: first line is empty");
}

#[test]
fn security_notes_are_optional_text() {
    assert_eq!(load_security_notes(&text("\n\u{3000} roles \t")).unwrap(), Some("roles".to_string()));
    assert_eq!(load_security_notes(&text(" \u{a0}\n")).unwrap(), None);
    assert_eq!(load_security_notes(&ConfigFile::Missing).unwrap(), None);
}

#[test]
fn files_that_give_no_text_are_errors() {
    let missing = load_in_scope_files(&ConfigFile::Missing, ROOT).unwrap_err();
    assert!(matches!(missing, ConfigError::MissingFile { .. }));
    assert_eq!(missing.message(), "scope.txt not found in project root");
    let unreadable = ConfigFile::Unreadable("denied".to_string());
    let failed = load_document_files(&unreadable, ROOT).unwrap_err();
    assert!(matches!(failed, ConfigError::Io { .. }));
    assert_eq!(failed.message(), "failed to read documents.txt: denied");
    assert_eq!(
        load_audit_name(&ConfigFile::Missing).unwrap_err().message(),
        "name.txt not found in project root"
    );
    assert_eq!(
        load_security_notes(&unreadable).unwrap_err().message(),
        "failed to read security.md: denied"
    );
}
