use dojo::fstools::{
    change_extension, extension_of, get_extension, get_filename, grep_in_lines, is_absolute_path,
    has_separator, join_paths, lines_text, replace_all, take_chunk, total_size, EntryInfo, FileInfo,
    WalkState,
};
use std::path::PathBuf;

#[test]
fn test_get_filename() {
    assert_eq!(
        get_filename("/home/user/file.txt"),
        Some("file.txt".to_string())
    );
    assert_eq!(
        get_filename("document.pdf"),
        Some("document.pdf".to_string())
    );
    assert_eq!(get_filename("/"), None);
}

#[test]
fn test_get_extension() {
    assert_eq!(get_extension("file.txt"), Some("txt".to_string()));
    assert_eq!(get_extension("archive.tar.gz"), Some("gz".to_string()));
    assert_eq!(get_extension("no_extension"), None);
    assert_eq!(get_extension(".gitignore"), None);
}

#[test]
fn test_change_extension() {
    let new_path = change_extension("document.txt", "pdf");
    assert_eq!(new_path, PathBuf::from("document.pdf"));

    let new_path = change_extension("/home/user/file.rs", "exe");
    assert!(new_path.to_str().unwrap().ends_with("file.exe"));
}

#[test]
fn test_join_paths() {
    let joined = join_paths("/home/user", "documents");
    assert_eq!(joined, PathBuf::from("/home/user/documents"));

    let joined = join_paths("base", "sub/dir");
    assert_eq!(joined, PathBuf::from("base/sub/dir"));
}

#[test]
fn test_is_absolute_path() {
    assert!(is_absolute_path("/home/user"));
    assert!(is_absolute_path("/"));
    assert!(!is_absolute_path("relative/path"));
    assert!(!is_absolute_path("./current"));
}

#[test]
fn extension_is_what_follows_the_last_dot() {
    assert_eq!(extension_of("file.txt"), Some("txt".to_string()));
    assert_eq!(extension_of("archive.tar.gz"), Some("gz".to_string()));
    assert_eq!(extension_of("no_extension"), None);
    assert_eq!(extension_of(".gitignore"), None);
    assert_eq!(extension_of(".hidden.cfg"), Some("cfg".to_string()));
    assert_eq!(extension_of("trailing."), Some(String::new()));
    assert_eq!(extension_of(""), None);
    assert_eq!(extension_of("파일.텍스트"), Some("텍스트".to_string()));
    assert_eq!(get_extension("/tmp/x.d/readme"), None);
    assert_eq!(get_extension("/tmp/x.d/readme.md"), Some("md".to_string()));
}

#[test]
fn grep_numbers_lines_from_one() {
    let lines = vec![
        "1".to_string(),
        "25".to_string(),
        "3".to_string(),
        "5".to_string(),
        "15".to_string(),
    ];
    assert_eq!(
        grep_in_lines(&lines, "5"),
        vec![(2, "25".to_string()), (4, "5".to_string()), (5, "15".to_string())]
    );
    assert!(grep_in_lines(&lines, "xyz123").is_empty());
    assert_eq!(grep_in_lines(&lines, "").len(), 5);
    assert!(grep_in_lines(&Vec::new(), "5").is_empty());
}

#[test]
fn chunks_follow_the_reads() {
    let data = b"0123456789";
    let mut chunks: Vec<Vec<u8>> = Vec::new();
    assert!(take_chunk(&mut chunks, &data[0..5], 5));
    assert!(take_chunk(&mut chunks, &data[5..10], 5));
    assert!(!take_chunk(&mut chunks, &data[0..5], 0));
    assert_eq!(chunks.len(), 2);
    assert_eq!(chunks[0], b"01234");
    assert_eq!(chunks[1], b"56789");

    let mut short: Vec<Vec<u8>> = Vec::new();
    let mut buffer = vec![0u8; 100];
    buffer[..5].copy_from_slice(b"small");
    assert!(take_chunk(&mut short, &buffer, 5));
    assert_eq!(short.len(), 1);
    assert_eq!(short[0], b"small");
}

#[test]
fn lines_text_ends_every_line() {
    let lines = ["Line 1", "Line 2", "Line 3"];
    assert_eq!(lines_text(&lines), "Line 1\nLine 2\nLine 3\n");
    let none: [&str; 0] = [];
    assert_eq!(lines_text(&none), "");
    assert_eq!(lines_text(&[""]), "\n");
}

#[test]
fn replace_all_counts_the_matches() {
    let (count, text) = replace_all("Hello World! Hello Rust! Hello Everyone!", "Hello", "Hi");
    assert_eq!(count, 3);
    assert_eq!(text, "Hi World! Hi Rust! Hi Everyone!");

    let (count, text) = replace_all("Nothing to replace here", "XYZ", "ABC");
    assert_eq!(count, 0);
    assert_eq!(text, "Nothing to replace here");
}

#[test]
fn total_size_adds_up_or_gives_none() {
    assert_eq!(total_size(&[5, 5, 3]), Some(13));
    assert_eq!(total_size(&[]), Some(0));
    assert_eq!(total_size(&[u64::MAX]), Some(u64::MAX));
    assert_eq!(total_size(&[u64::MAX, 0]), Some(u64::MAX));
    assert_eq!(total_size(&[u64::MAX, 1]), None);
    assert_eq!(total_size(&[1, u64::MAX, 0, 0]), None);
}

#[test]
fn walk_lists_files_where_their_directory_stands() {
    let mut walk = WalkState::start("top".to_string());
    assert_eq!(walk.next_directory(), Some("top".to_string()));
    walk.absorb(vec![
        EntryInfo { path: "top/a.txt".to_string(), is_dir: false },
        EntryInfo { path: "top/sub".to_string(), is_dir: true },
        EntryInfo { path: "top/b.txt".to_string(), is_dir: false },
        EntryInfo { path: "top/other".to_string(), is_dir: true },
        EntryInfo { path: "top/c.txt".to_string(), is_dir: false },
    ]);
    assert_eq!(walk.next_directory(), Some("top/sub".to_string()));
    assert_eq!(walk.files, vec!["top/a.txt".to_string()]);
    walk.absorb(vec![
        EntryInfo { path: "top/sub/deep".to_string(), is_dir: true },
        EntryInfo { path: "top/sub/sub.txt".to_string(), is_dir: false },
    ]);
    assert_eq!(walk.next_directory(), Some("top/sub/deep".to_string()));
    walk.absorb(vec![EntryInfo { path: "top/sub/deep/deep.txt".to_string(), is_dir: false }]);
    assert_eq!(walk.next_directory(), Some("top/other".to_string()));
    walk.absorb(Vec::new());
    assert_eq!(walk.next_directory(), None);
    assert_eq!(walk.next_directory(), None);
    assert_eq!(
        walk.files,
        vec![
            "top/a.txt".to_string(),
            "top/sub/deep/deep.txt".to_string(),
            "top/sub/sub.txt".to_string(),
            "top/b.txt".to_string(),
            "top/c.txt".to_string(),
        ]
    );
    assert!(walk.pending.is_empty());
}

#[test]
fn separators_are_found_in_an_extension() {
    assert!(!has_separator("pdf"));
    assert!(!has_separator(""));
    assert!(!has_separator("tar.gz"));
    assert!(has_separator("x/y"));
    assert!(has_separator("x\\y"));
    assert!(has_separator("/"));
    assert!(has_separator("한/글"));
    assert!(!has_separator("한글"));
}

#[test]
fn file_info_is_copied_field_by_field() {
    let info = FileInfo {
        path: "a/b.txt".to_string(),
        size: 5,
        is_file: true,
        is_dir: false,
        is_readonly: true,
    };
    let copy = info.clone();
    assert_eq!(copy.path, "a/b.txt");
    assert_eq!(copy.size, 5);
    assert!(copy.is_file);
    assert!(!copy.is_dir);
    assert!(copy.is_readonly);
}

#[test]
fn file_name_and_extension_are_parts_of_the_path() {
    let paths = [
        "/home/user/file.txt",
        "archive.tar.gz",
        "tmp/foo.txt/.",
        "a/b/../c.d/",
        "./.hidden.cfg",
        "파일/이름.텍스트",
    ];
    for path in paths {
        let name = get_filename(path).unwrap();
        assert!(path.contains(name.as_str()));
        let ext = get_extension(path).unwrap();
        assert!(!ext.contains('.'));
        assert!(path.contains(format!(".{}", ext).as_str()));
        assert_eq!(extension_of(&name), Some(ext));
    }
    for path in ["", "/", "..", "a/..", "no_dot", "dir/no_dot"] {
        assert_eq!(get_extension(path), None);
    }
    assert_eq!(get_filename(""), None);
    assert_eq!(get_filename("a/.."), None);
}
