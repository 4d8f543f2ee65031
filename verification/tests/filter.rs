use emergency_backup::filter::{is_file_accepted, is_file_type_accepted};

fn types(list: &[&str]) -> Vec<String> {
    list.iter().map(|s| s.to_string()).collect()
}

#[test]
fn extension_listed_is_accepted() {
    assert!(is_file_type_accepted("notes.txt", &types(&[".txt"])));
    assert!(is_file_type_accepted("/data/docs/notes.txt", &types(&[".jpg", ".txt"])));
}

#[test]
fn extension_not_listed_is_rejected() {
    assert!(!is_file_type_accepted("photo.jpg", &types(&[".txt"])));
    assert!(!is_file_type_accepted("photo.jpg", &types(&[])));
}

#[test]
fn extension_is_compared_with_its_dot() {
    assert!(!is_file_type_accepted("notes.txt", &types(&["txt"])));
}

#[test]
fn extension_is_case_sensitive() {
    assert!(!is_file_type_accepted("NOTES.TXT", &types(&[".txt"])));
    assert!(is_file_type_accepted("NOTES.TXT", &types(&[".TXT"])));
}

#[test]
fn only_the_last_extension_counts() {
    assert!(is_file_type_accepted("archive.tar.gz", &types(&[".gz"])));
    assert!(!is_file_type_accepted("archive.tar.gz", &types(&[".tar"])));
    assert!(!is_file_type_accepted("archive.tar.gz", &types(&[".tar.gz"])));
}

#[test]
fn name_without_dot_has_no_extension() {
    assert!(!is_file_type_accepted("Makefile", &types(&[".txt", "."])));
    assert!(!is_file_type_accepted("", &types(&[".txt", ""])));
}

#[test]
fn hidden_file_has_no_extension() {
    assert!(!is_file_type_accepted(".bashrc", &types(&[".bashrc"])));
    assert!(!is_file_type_accepted("/home/user/.bashrc", &types(&[".bashrc"])));
    assert!(is_file_type_accepted(".config.yaml", &types(&[".yaml"])));
}

#[test]
fn parent_directory_name_has_no_extension() {
    assert!(!is_file_type_accepted("..", &types(&["."])));
    assert!(!is_file_type_accepted("a/..", &types(&["."])));
    assert!(is_file_type_accepted("...", &types(&["."])));
}

#[test]
fn trailing_dot_gives_empty_extension() {
    assert!(is_file_type_accepted("report.", &types(&["."])));
    assert!(!is_file_type_accepted("report.", &types(&[".txt"])));
}

#[test]
fn dot_in_directory_does_not_count() {
    assert!(!is_file_type_accepted("backup.d/readme", &types(&[".d", ".d/readme"])));
    assert!(is_file_type_accepted("backup.d/readme.md", &types(&[".md"])));
}

#[test]
fn names_beyond_ascii() {
    assert!(is_file_type_accepted("żółć.tęcza", &types(&[".tęcza"])));
    assert!(!is_file_type_accepted("żółć.tęcza", &types(&[".tecza"])));
}

#[test]
fn empty_filter_accepts_everything() {
    assert!(is_file_accepted("photo.jpg", &types(&[])));
    assert!(is_file_accepted("Makefile", &types(&[])));
    assert!(is_file_accepted(".bashrc", &types(&[])));
}

#[test]
fn filter_that_is_not_empty_goes_by_extension() {
    assert!(is_file_accepted("notes.txt", &types(&[".txt"])));
    assert!(!is_file_accepted("photo.jpg", &types(&[".txt"])));
    assert!(!is_file_accepted("Makefile", &types(&[".txt"])));
}

#[test]
fn separators_at_the_end_are_passed_over() {
    assert!(is_file_type_accepted("a.txt/", &types(&[".txt"])));
    assert!(is_file_type_accepted("a.txt//", &types(&[".txt"])));
    assert!(is_file_type_accepted("/data/a.txt///", &types(&[".txt"])));
    assert!(!is_file_type_accepted("dir/", &types(&[".txt", "."])));
    assert!(!is_file_type_accepted("/", &types(&[".", ""])));
    assert!(!is_file_type_accepted("//", &types(&[".", ""])));
}

#[test]
fn dot_components_at_the_end_are_passed_over() {
    assert!(is_file_type_accepted("a.txt/.", &types(&[".txt"])));
    assert!(is_file_type_accepted("a.txt/./", &types(&[".txt"])));
    assert!(is_file_type_accepted("a.txt/././/.", &types(&[".txt"])));
    assert!(!is_file_type_accepted("dir/.", &types(&[".txt", "."])));
    assert!(!is_file_type_accepted(".", &types(&[".", ""])));
    assert!(!is_file_type_accepted("./", &types(&[".", ""])));
    assert!(!is_file_type_accepted("./.", &types(&[".", ""])));
    assert!(!is_file_type_accepted("/.", &types(&[".", ""])));
}

#[test]
fn parent_component_at_the_end_leaves_no_file_name() {
    assert!(!is_file_type_accepted("a.txt/..", &types(&[".txt", "."])));
    assert!(!is_file_type_accepted("a.txt/../", &types(&[".txt", "."])));
    assert!(!is_file_type_accepted("a.txt/../.", &types(&[".txt", "."])));
    assert!(is_file_type_accepted("../a.txt", &types(&[".txt"])));
}

#[test]
fn extension_is_that_of_the_standard_path() {
    let alphabet = ['a', '.', '/'];
    let mut paths = vec![String::new()];
    let mut from = 0;
    for _ in 0..7 {
        let upto = paths.len();
        for i in from..upto {
            for c in alphabet {
                let mut longer = paths[i].clone();
                longer.push(c);
                paths.push(longer);
            }
        }
        from = upto;
    }
    assert_eq!(paths.len(), 3280);
    let candidates = types(&[".", ".a", "..", ".aa", ".a.", "..a", ".aaa", "a", "", ".a/", "./a", ".a/."]);
    for path in &paths {
        let expected = std::path::Path::new(path).extension().map(|e| format!(".{}", e.to_str().unwrap()));
        for candidate in &candidates {
            assert_eq!(
                is_file_type_accepted(path, &vec![candidate.clone()]),
                expected.as_ref() == Some(candidate),
                "{:?} with {:?}",
                path,
                candidate
            );
        }
        if let Some(dotted) = expected {
            assert!(is_file_type_accepted(path, &vec![dotted]), "{:?}", path);
        }
        assert!(is_file_accepted(path, &types(&[])));
    }
}
