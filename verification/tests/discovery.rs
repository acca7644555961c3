use mechatyper::discovery::{classify_entry, is_listed, Entry, EntryAction, Walk};
use mechatyper::lang::ProgLanguage;

fn entry(path: &str, is_dir: bool) -> Entry {
    let name = path.rsplit('/').next().unwrap_or("").to_string();
    let extension = match name.rfind('.') {
        Some(dot) if dot > 0 => Some(name[dot + 1..].to_string()),
        _ => None,
    };
    Entry { path: path.to_string(), name, extension, is_dir }
}

#[test]
fn hidden_and_excluded_directories_are_skipped() {
    let extensions = ProgLanguage::Python.file_extensions();
    let excluded = ProgLanguage::Python.get_excluded_directories();
    for path in ["r/.git", "r/venv", "r/__pycache__", "r/site-packages", "r/.pytest_cache", "r/."] {
        assert_eq!(classify_entry(&entry(path, true), &extensions, &excluded), EntryAction::Skip);
    }
    for path in ["r/src", "r/Venv", "r/venv2", "r/a.py", "r/target"] {
        assert_eq!(
            classify_entry(&entry(path, true), &extensions, &excluded),
            EntryAction::Descend
        );
    }
    let unnamed = Entry { path: "r/x".to_string(), name: String::new(), extension: None, is_dir: true };
    assert_eq!(classify_entry(&unnamed, &extensions, &excluded), EntryAction::Descend);
}

#[test]
fn files_are_taken_by_their_extension_letter_for_letter() {
    let extensions = vec!["py", "pyi"];
    let excluded = vec!["venv"];
    for path in ["r/a.py", "r/b.pyi", "r/.hidden.py", "r/venv.py", "r/x.tar.py"] {
        assert_eq!(
            classify_entry(&entry(path, false), &extensions, &excluded),
            EntryAction::Collect,
            "{}",
            path
        );
    }
    for path in ["r/a.PY", "r/a.pyc", "r/py", "r/a.p", "r/venv", "r/a.py.txt"] {
        assert_eq!(
            classify_entry(&entry(path, false), &extensions, &excluded),
            EntryAction::Skip,
            "{}",
            path
        );
    }
}

#[test]
fn a_name_is_listed_if_it_is_one_of_the_names() {
    assert!(is_listed("rs", &vec!["py", "rs"]));
    assert!(!is_listed("r", &vec!["py", "rs"]));
    assert!(!is_listed("rs", &Vec::new()));
    assert!(is_listed("", &vec![""]));
}

#[test]
fn a_walk_goes_depth_first_and_lists_the_sources_as_it_meets_them() {
    let extensions = ProgLanguage::Rust.file_extensions();
    let excluded = ProgLanguage::Rust.get_excluded_directories();
    let mut walk = Walk::begin("r".to_string(), true);
    assert_eq!(walk.next_directory(&extensions, &excluded), Some("r".to_string()));
    walk.take_entries(vec![
        entry("r/main.rs", false),
        entry("r/target", true),
        entry("r/src", true),
        entry("r/README.md", false),
        entry("r/.cargo", true),
        entry("r/build.rs", false),
        entry("r/tests", true),
        entry("r/z.rs", false),
    ]);
    assert_eq!(walk.next_directory(&extensions, &excluded), Some("r/src".to_string()));
    walk.take_entries(vec![
        entry("r/src/lib.rs", false),
        entry("r/src/.git", true),
        entry("r/src/deep", true),
        entry("r/src/last.rs", false),
    ]);
    assert_eq!(walk.next_directory(&extensions, &excluded), Some("r/src/deep".to_string()));
    walk.take_entries(vec![entry("r/src/deep/d.rs", false), entry("r/src/deep/d.py", false)]);
    assert_eq!(walk.next_directory(&extensions, &excluded), Some("r/tests".to_string()));
    walk.take_entries(Vec::new());
    assert_eq!(walk.next_directory(&extensions, &excluded), None);
    assert_eq!(walk.next_directory(&extensions, &excluded), None);
    assert_eq!(
        walk.into_files(),
        vec![
            "r/main.rs",
            "r/src/lib.rs",
            "r/src/deep/d.rs",
            "r/src/last.rs",
            "r/build.rs",
            "r/z.rs",
        ]
    );
}

#[test]
fn the_root_is_read_whatever_its_name() {
    let extensions = vec!["py"];
    let excluded = vec!["venv"];
    let mut walk = Walk::begin("/home/u/.hidden/venv".to_string(), true);
    assert_eq!(
        walk.next_directory(&extensions, &excluded),
        Some("/home/u/.hidden/venv".to_string())
    );
    walk.take_entries(vec![entry("/home/u/.hidden/venv/a.py", false)]);
    assert_eq!(walk.next_directory(&extensions, &excluded), None);
    assert_eq!(walk.into_files(), vec!["/home/u/.hidden/venv/a.py"]);
}

#[test]
fn a_walk_from_a_file_reads_nothing() {
    let mut walk = Walk::begin("r/a.rs".to_string(), false);
    assert_eq!(walk.next_directory(&vec!["rs"], &Vec::new()), None);
    assert!(walk.into_files().is_empty());
}
