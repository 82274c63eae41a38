use media_sorter::scan::{
    descend_into, extension_pattern, has_wanted_extension, is_hidden, is_skipped_dir, lies_below,
    scan_entries, select_entries, EntryKind, ScanError, WalkEntry,
};
use std::path::Path;
use tempfile::{tempdir, Builder, NamedTempFile, TempDir};
use walkdir::WalkDir;

/// Makes the empty file `name` in `dir`; it lasts as long as the handle.
fn make_file(dir: &Path, name: &str) -> NamedTempFile {
    Builder::new().prefix(name).rand_bytes(0).tempfile_in(dir).unwrap()
}

/// Makes the directory `name` in `dir`; it lasts as long as the handle.
fn make_dir(dir: &Path, name: &str) -> TempDir {
    Builder::new().prefix(name).rand_bytes(0).tempdir_in(dir).unwrap()
}

fn entry(path: &str, kind: EntryKind) -> WalkEntry {
    let name = path.rsplit('/').next().unwrap().to_string();
    WalkEntry { path: path.to_string(), name, kind }
}

/// Lists every entry below `root`, without following links.
fn walk(root: &std::path::Path) -> Vec<WalkEntry> {
    let mut out = Vec::new();
    for e in WalkDir::new(root).min_depth(1).into_iter().filter_map(|e| e.ok()) {
        let kind = if e.file_type().is_dir() {
            EntryKind::Dir
        } else if e.file_type().is_file() {
            EntryKind::File
        } else {
            EntryKind::Other
        };
        out.push(WalkEntry {
            path: e.path().to_str().unwrap().to_string(),
            name: e.file_name().to_str().unwrap().to_string(),
            kind,
        });
    }
    out
}

#[test]
fn test_is_hidden() {
    let dir = tempdir().unwrap();
    let hidden_file_path = dir.path().join(".hidden_file");
    let normal_file_path = dir.path().join("normal_file");
    let _hidden = make_file(dir.path(), ".hidden_file");
    let _normal = make_file(dir.path(), "normal_file");

    let hidden_file = WalkDir::new(&hidden_file_path).into_iter().next().unwrap().unwrap();
    let normal_file = WalkDir::new(&normal_file_path).into_iter().next().unwrap().unwrap();

    assert!(is_hidden(hidden_file.file_name().to_str().unwrap()));
    assert!(!is_hidden(normal_file.file_name().to_str().unwrap()));
}

#[test]
fn test_is_skipped_dir() {
    let dir = tempdir().unwrap();
    let skip_dir_path = dir.path().join("temp");
    let normal_dir_path = dir.path().join("documents");
    let _skip = make_dir(dir.path(), "temp");
    let _normal = make_dir(dir.path(), "documents");

    let skip_dir = WalkDir::new(&skip_dir_path).into_iter().next().unwrap().unwrap();
    let normal_dir = WalkDir::new(&normal_dir_path).into_iter().next().unwrap().unwrap();

    let skipped_dirs = vec!["temp"];
    assert!(is_skipped_dir(
        skip_dir.path().to_str().unwrap(),
        skip_dir.file_type().is_dir(),
        &skipped_dirs
    ));
    assert!(!is_skipped_dir(
        normal_dir.path().to_str().unwrap(),
        normal_dir.file_type().is_dir(),
        &skipped_dirs
    ));
}

#[test]
fn test_collect_files_with_extension() {
    let dir = tempdir().unwrap();
    let subdir = make_dir(dir.path(), "subdir");
    let subdir_path = subdir.path().to_path_buf();

    let jpg_file = subdir_path.join("image.jpg");
    let _txt = make_file(dir.path(), "test_file.txt");
    let _jpg = make_file(&subdir_path, "image.jpg");
    let _skip = make_file(dir.path(), ".hidden.jpg");

    let extensions = vec!["jpg"];
    let skipped_dirs = vec!["hidden_dir"];

    let entries = walk(dir.path());
    let files = scan_entries(&entries, &extensions, &skipped_dirs).unwrap();

    assert_eq!(files.len(), 1);
    assert_eq!(entries[files[0]].path, jpg_file.to_str().unwrap());
}

#[test]
fn hidden_names_start_with_a_dot_but_are_not_dot_or_dot_dot() {
    assert!(!is_hidden("."));
    assert!(!is_hidden(".."));
    assert!(!is_hidden(""));
    assert!(!is_hidden("photos"));
    assert!(!is_hidden("a.jpg"));
    assert!(is_hidden(".thumbnails"));
    assert!(is_hidden("..cache"));
}

#[test]
fn skip_fragments_match_anywhere_in_a_directory_path() {
    let skipped = vec!["Android/Data", "WhatsApp/.Shared"];
    assert!(is_skipped_dir("/sd/Android/Data", true, &skipped));
    assert!(is_skipped_dir("/sd/Android/Data/com.app/cache", true, &skipped));
    assert!(is_skipped_dir("/sd/MyAndroid/Database", true, &skipped));
    assert!(!is_skipped_dir("/sd/Android/Media", true, &skipped));
    assert!(!is_skipped_dir("/sd/Android/Data", false, &skipped));
    assert!(!is_skipped_dir("/sd/Android/Data", true, &[]));
}

#[test]
fn a_walk_descends_only_into_visible_directories_outside_skip_fragments() {
    let skipped = vec!["temp"];
    assert!(descend_into("photos", "/root/photos", &skipped));
    assert!(!descend_into(".hidden", "/root/.hidden", &skipped));
    assert!(!descend_into("temp", "/root/temp", &skipped));
    assert!(!descend_into("x", "/root/attempt/x", &skipped));
}

#[test]
fn the_extension_pattern_is_an_anchored_alternation() {
    assert_eq!(extension_pattern(&["png", "jpeg", "jpg", "gif"]), "\\.(png|jpeg|jpg|gif)$");
    assert_eq!(extension_pattern(&["jpg"]), "\\.(jpg)$");
    assert_eq!(extension_pattern(&[]), "\\.()$");
    assert_eq!(extension_pattern(&["c++", "a|b"]), "\\.(c\\+\\+|a\\|b)$");
}

#[test]
fn extensions_match_at_the_end_only_and_by_case() {
    let exts = vec!["jpg", "png"];
    assert_eq!(has_wanted_extension(&exts, "/a/b.jpg"), Ok(true));
    assert_eq!(has_wanted_extension(&exts, "/a/b.png"), Ok(true));
    assert_eq!(has_wanted_extension(&exts, "/a/b.JPG"), Ok(false));
    assert_eq!(has_wanted_extension(&exts, "/a/b.jpg.txt"), Ok(false));
    assert_eq!(has_wanted_extension(&exts, "/a/bjpg"), Ok(false));
    assert_eq!(has_wanted_extension(&exts, "/a/b.jpgx"), Ok(false));
    assert_eq!(has_wanted_extension(&[], "/a/b.jpg"), Ok(false));
    assert_eq!(has_wanted_extension(&[], "/a/b."), Ok(false));
}

#[test]
fn extensions_are_taken_literally() {
    assert_eq!(has_wanted_extension(&["jp(g"], "/a/b.jp(g"), Ok(true));
    assert_eq!(has_wanted_extension(&["jp(g"], "/a/b.jpg"), Ok(false));
    assert_eq!(has_wanted_extension(&["c++"], "/a/b.c++"), Ok(true));
    assert_eq!(has_wanted_extension(&["c++"], "/a/b.cc"), Ok(false));
    assert_eq!(has_wanted_extension(&["j.g"], "/a/b.jpg"), Ok(false));
    let entries = vec![entry("/r/b.jp(g", EntryKind::File), entry("/r/c.jpg", EntryKind::File)];
    assert_eq!(scan_entries(&entries, &["jp(g"], &[]), Ok(vec![0]));
}

#[test]
fn a_pattern_over_the_engine_size_limit_is_an_error() {
    let huge = "x".repeat(1_500_000);
    let exts = [huge.as_str()];
    assert_eq!(has_wanted_extension(&exts, "/a/b.x"), Err(ScanError::InvalidPattern));
    let entries = vec![entry("/r/b.jpg", EntryKind::File)];
    assert_eq!(scan_entries(&entries, &exts, &[]), Err(ScanError::InvalidPattern));
}

#[test]
fn below_means_inside_the_directory_not_a_name_prefix() {
    assert!(lies_below("/r/a/b.jpg", "/r/a"));
    assert!(lies_below("/r/a/x/y/b.jpg", "/r/a"));
    assert!(!lies_below("/r/ab/b.jpg", "/r/a"));
    assert!(!lies_below("/r/a", "/r/a"));
}

#[test]
fn contents_of_hidden_directories_are_never_recorded_at_any_depth() {
    let entries = vec![
        entry("/r/.hidden", EntryKind::Dir),
        entry("/r/.hidden/deep", EntryKind::Dir),
        entry("/r/.hidden/deep/x.jpg", EntryKind::File),
        entry("/r/.hidden/y.jpg", EntryKind::File),
        entry("/r/.hiddenx.jpg", EntryKind::File),
        entry("/r/shown/z.jpg", EntryKind::File),
    ];
    let matched = vec![false, false, true, true, true, true];
    assert_eq!(select_entries(&entries, &matched, &[]), vec![5]);
}

#[test]
fn contents_of_skipped_directories_are_never_recorded_at_any_depth() {
    let entries = vec![
        entry("/r/temp", EntryKind::Dir),
        entry("/r/temp/a", EntryKind::Dir),
        entry("/r/temp/a/b", EntryKind::Dir),
        entry("/r/temp/a/b/x.jpg", EntryKind::File),
        entry("/r/temporary.jpg", EntryKind::File),
        entry("/r/keep/y.jpg", EntryKind::File),
    ];
    let matched = vec![false, false, false, true, true, true];
    // A skip fragment prunes directories only: the file whose own name holds it stays.
    assert_eq!(select_entries(&entries, &matched, &["temp"]), vec![4, 5]);
}

#[test]
fn only_matched_visible_files_are_recorded_each_once_in_order() {
    let entries = vec![
        entry("/r/a.jpg", EntryKind::File),
        entry("/r/link.jpg", EntryKind::Other),
        entry("/r/sub", EntryKind::Dir),
        entry("/r/sub/b.jpg", EntryKind::File),
        entry("/r/sub/c.txt", EntryKind::File),
    ];
    let matched = vec![true, true, true, true, false];
    assert_eq!(select_entries(&entries, &matched, &[]), vec![0, 3]);
    assert_eq!(select_entries(&Vec::new(), &Vec::new(), &[]), Vec::<usize>::new());
}

#[test]
fn scan_of_the_mixed_source_tree_keeps_only_the_visible_image() {
    let entries = vec![
        entry("/root/a.jpg", EntryKind::File),
        entry("/root/.hidden", EntryKind::Dir),
        entry("/root/.hidden/b.png", EntryKind::File),
        entry("/root/temp", EntryKind::Dir),
        entry("/root/temp/c.gif", EntryKind::File),
        entry("/root/notes.txt", EntryKind::File),
    ];
    let found = scan_entries(&entries, &["jpg", "jpeg", "png", "gif"], &["temp"]).unwrap();
    assert_eq!(found, vec![0]);
}

#[test]
fn a_scan_of_a_real_tree_prunes_hidden_and_skipped_directories() {
    let dir = tempdir().unwrap();
    let root = dir.path();
    let hidden = make_dir(root, ".hidden");
    let temp = make_dir(root, "temp");
    let deeper = make_dir(temp.path(), "deeper");
    let album = make_dir(root, "album");
    let year = make_dir(album.path(), "2020");
    let _files = [
        make_file(root, "a.jpg"),
        make_file(root, "notes.txt"),
        make_file(hidden.path(), "b.png"),
        make_file(deeper.path(), "c.gif"),
        make_file(year.path(), "d.jpeg"),
        make_file(album.path(), "e.PNG"),
    ];
    let entries = walk(root);
    let found = scan_entries(&entries, &["jpg", "jpeg", "png", "gif"], &["temp"]).unwrap();
    let mut paths: Vec<String> = found.iter().map(|&i| entries[i].path.clone()).collect();
    paths.sort();
    let mut expected = vec![
        root.join("a.jpg").to_str().unwrap().to_string(),
        root.join("album/2020/d.jpeg").to_str().unwrap().to_string(),
    ];
    expected.sort();
    assert_eq!(paths, expected);
}
