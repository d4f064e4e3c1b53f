use codex_core::files::{
    check_readable, check_writable, expand_path, has_traversal, is_allowed_extension,
    is_text_extension, locate, read_file, read_session_file, write_file, FileError, FileProbe,
    ParentProbe, PathTarget, MAX_READ_BYTES, MAX_WRITE_BYTES,
};

fn home() -> Option<String> {
    Some("/home/u".to_string())
}

fn file(size: u64) -> Option<FileProbe> {
    Some(FileProbe { exists: true, is_dir: false, size: Some(size) })
}

fn plain(path: &str) -> PathTarget {
    PathTarget::Plain { path: path.to_string() }
}

fn under_home(rest: &str) -> PathTarget {
    PathTarget::UnderHome { home: "/home/u".to_string(), rest: rest.to_string() }
}

#[test]
fn limits_are_one_and_ten_mebibytes() {
    assert_eq!(MAX_READ_BYTES, 1024 * 1024);
    assert_eq!(MAX_WRITE_BYTES, 10 * 1024 * 1024);
}

#[test]
fn traversal_is_dots_or_nul() {
    assert!(has_traversal("../etc/passwd"));
    assert!(has_traversal("a/../b"));
    assert!(has_traversal("a..b"));
    assert!(has_traversal(".."));
    assert!(has_traversal("a\0b"));
    assert!(!has_traversal("a/./b"));
    assert!(!has_traversal(".hidden"));
    assert!(!has_traversal("a.b.c"));
    assert!(!has_traversal(""));
}

#[test]
fn expand_path_splits_off_the_home_directory() {
    assert_eq!(expand_path("/tmp/a.txt", None), Ok(plain("/tmp/a.txt")));
    assert_eq!(expand_path("/tmp/a.txt", home()), Ok(plain("/tmp/a.txt")));
    assert_eq!(expand_path("~/notes/a.txt", home()), Ok(under_home("notes/a.txt")));
    assert_eq!(expand_path("~/", home()), Ok(under_home("")));
    assert_eq!(expand_path("~", home()), Ok(plain("~")));
    assert_eq!(expand_path("~user/a", home()), Ok(plain("~user/a")));
    assert_eq!(expand_path("~/a", None), Err(FileError::NoHomeDirectory));
    assert_eq!(expand_path("~/../a", None), Err(FileError::PathTraversal));
    assert_eq!(expand_path("a\0", home()), Err(FileError::PathTraversal));
}

#[test]
fn read_is_allowed_up_to_the_limit() {
    assert_eq!(read_file("/tmp/a.txt", None, file(0)), Ok(plain("/tmp/a.txt")));
    assert_eq!(read_file("/tmp/a.txt", None, file(1048576)), Ok(plain("/tmp/a.txt")));
    assert_eq!(read_file("/tmp/a.txt", None, file(1048577)), Err(FileError::TooLargeToRead));
    assert_eq!(
        read_file("~/a.bin", home(), Some(FileProbe { exists: true, is_dir: false, size: None })),
        Ok(under_home("a.bin"))
    );
}

#[test]
fn read_refusals_come_in_order() {
    assert_eq!(read_file("../a", None, None), Err(FileError::PathTraversal));
    assert_eq!(read_file("~/a", None, None), Err(FileError::NoHomeDirectory));
    assert_eq!(read_file("/a", None, None), Err(FileError::InvalidPath));
    assert_eq!(
        read_file("/a", None, Some(FileProbe { exists: false, is_dir: false, size: Some(5) })),
        Err(FileError::MissingOrDirectory)
    );
    assert_eq!(
        read_file(
            "/a",
            None,
            Some(FileProbe { exists: true, is_dir: true, size: Some(99999999) })
        ),
        Err(FileError::MissingOrDirectory)
    );
}

#[test]
fn allowed_extensions_are_the_text_files() {
    let allowed = [
        "txt", "md", "json", "xml", "yaml", "yml", "js", "jsx", "ts", "tsx", "rs", "py", "java",
        "cpp", "c", "h", "css", "html", "toml", "cfg", "ini", "sh", "log",
    ];
    for extension in allowed {
        assert!(is_allowed_extension(extension), "{}", extension);
        assert!(is_text_extension(extension), "{}", extension);
    }
    for extension in ["exe", "", "tx", "txtx", "TXT", "png", "jsonl", "htm", "rss"] {
        assert!(!is_allowed_extension(extension), "{}", extension);
    }
}

#[test]
fn extensions_count_in_any_case() {
    assert!(is_text_extension("TXT"));
    assert!(is_text_extension("Md"));
    assert!(is_text_extension("JSON"));
    assert!(!is_text_extension("EXE"));
    assert!(!is_text_extension("JSONL"));
}

#[test]
fn write_is_allowed_up_to_the_limit() {
    let ext = |e: &str| Some(e.to_string());
    assert_eq!(
        write_file("/tmp/a.txt", None, ParentProbe::Resolved, ext("txt"), 0),
        Ok(plain("/tmp/a.txt"))
    );
    assert_eq!(
        write_file("~/a.RS", home(), ParentProbe::Resolved, ext("RS"), 10485760),
        Ok(under_home("a.RS"))
    );
    assert_eq!(
        write_file("a.md", None, ParentProbe::NoParent, ext("md"), 10),
        Ok(plain("a.md"))
    );
    assert_eq!(
        write_file("/tmp/a.txt", None, ParentProbe::Resolved, ext("txt"), 10485761),
        Err(FileError::ContentTooLarge)
    );
}

#[test]
fn write_refusals_come_in_order() {
    let ext = |e: &str| Some(e.to_string());
    let huge = 99999999;
    assert_eq!(
        write_file("../a.exe", None, ParentProbe::Missing, ext("exe"), huge),
        Err(FileError::PathTraversal)
    );
    assert_eq!(
        write_file("~/a.exe", None, ParentProbe::Missing, ext("exe"), huge),
        Err(FileError::NoHomeDirectory)
    );
    assert_eq!(
        write_file("/x/a.exe", None, ParentProbe::Missing, ext("exe"), huge),
        Err(FileError::NoParentDirectory)
    );
    assert_eq!(
        write_file("/x/a.exe", None, ParentProbe::Unresolvable, ext("exe"), huge),
        Err(FileError::InvalidParentDirectory)
    );
    assert_eq!(
        write_file("/x/a.exe", None, ParentProbe::Resolved, ext("exe"), huge),
        Err(FileError::NotATextFile)
    );
    assert_eq!(
        write_file("/x/Makefile", None, ParentProbe::Resolved, None, 1),
        Err(FileError::NotATextFile)
    );
    assert_eq!(
        write_file("/x/a.txt", None, ParentProbe::Resolved, ext("txt"), huge),
        Err(FileError::ContentTooLarge)
    );
}

#[test]
fn session_file_must_resolve_to_a_file() {
    assert_eq!(read_session_file("/s/a.jsonl", Some(true)), Ok(()));
    assert_eq!(read_session_file("/s/a.jsonl", Some(false)), Err(FileError::NotAFile));
    assert_eq!(read_session_file("/s/a.jsonl", None), Err(FileError::InvalidPath));
    assert_eq!(read_session_file("/s/../a.jsonl", Some(true)), Err(FileError::PathTraversal));
    assert_eq!(read_session_file("/s/a\0.jsonl", None), Err(FileError::PathTraversal));
}

#[test]
fn file_errors_have_their_texts() {
    assert_eq!(
        FileError::PathTraversal.message(),
        "Invalid file path: path traversal not allowed"
    );
    assert_eq!(FileError::NoHomeDirectory.message(), "Cannot find home directory");
    assert_eq!(FileError::InvalidPath.message(), "Invalid file path or file does not exist");
    assert_eq!(FileError::MissingOrDirectory.message(), "File does not exist or is a directory");
    assert_eq!(FileError::TooLargeToRead.message(), "File is too large to display");
    assert_eq!(FileError::NotAFile.message(), "Path is not a file");
    assert_eq!(FileError::NoParentDirectory.message(), "Parent directory does not exist");
    assert_eq!(FileError::InvalidParentDirectory.message(), "Invalid parent directory path");
    assert_eq!(FileError::NotATextFile.message(), "Only text files can be edited");
    assert_eq!(FileError::ContentTooLarge.message(), "File content too large (max 10MB)");
}

#[test]
fn locate_asks_for_the_home_directory() {
    assert_eq!(locate("/tmp/a.txt"), Ok(plain("/tmp/a.txt")));
    assert_eq!(locate("relative/a.txt"), Ok(plain("relative/a.txt")));
    assert_eq!(locate("../a"), Err(FileError::PathTraversal));
    assert_eq!(locate("~/../a"), Err(FileError::PathTraversal));
    let expected = match dirs::home_dir() {
        Some(home) => Ok(PathTarget::UnderHome {
            home: home.to_string_lossy().into_owned(),
            rest: "notes/a.txt".to_string(),
        }),
        None => Err(FileError::NoHomeDirectory),
    };
    assert_eq!(locate("~/notes/a.txt"), expected);
}

#[test]
fn disk_facts_decide_a_read() {
    assert_eq!(check_readable(None), Err(FileError::InvalidPath));
    assert_eq!(check_readable(file(1048576)), Ok(()));
    assert_eq!(check_readable(file(1048577)), Err(FileError::TooLargeToRead));
    assert_eq!(check_readable(file(u64::MAX)), Err(FileError::TooLargeToRead));
    assert_eq!(
        check_readable(Some(FileProbe { exists: true, is_dir: true, size: None })),
        Err(FileError::MissingOrDirectory)
    );
    assert_eq!(
        check_readable(Some(FileProbe { exists: false, is_dir: false, size: None })),
        Err(FileError::MissingOrDirectory)
    );
}

#[test]
fn disk_facts_decide_a_write() {
    let txt = || Some("Txt".to_string());
    assert_eq!(check_writable(ParentProbe::Resolved, txt(), 10485760), Ok(()));
    assert_eq!(check_writable(ParentProbe::NoParent, txt(), 0), Ok(()));
    assert_eq!(check_writable(ParentProbe::Missing, txt(), 0), Err(FileError::NoParentDirectory));
    assert_eq!(
        check_writable(ParentProbe::Unresolvable, txt(), 0),
        Err(FileError::InvalidParentDirectory)
    );
    assert_eq!(check_writable(ParentProbe::Resolved, None, 0), Err(FileError::NotATextFile));
    assert_eq!(
        check_writable(ParentProbe::Resolved, Some("bin".to_string()), 0),
        Err(FileError::NotATextFile)
    );
    assert_eq!(
        check_writable(ParentProbe::Resolved, txt(), usize::MAX),
        Err(FileError::ContentTooLarge)
    );
}
