use fit_fixer::paths::{file_name, parent, path_within};
use std::path::Path;

fn texts_up_to(len: usize, letters: &[char]) -> Vec<String> {
    let mut all = vec![String::new()];
    let mut last = vec![String::new()];
    for _ in 0..len {
        let mut next = Vec::new();
        for text in &last {
            for c in letters {
                let mut longer = text.clone();
                longer.push(*c);
                next.push(longer);
            }
        }
        all.extend(next.iter().cloned());
        last = next;
    }
    all
}

#[test]
fn parent_of_common_paths() {
    assert_eq!(parent("/input/file/path/file.fit"), Some("/input/file/path".to_string()));
    assert_eq!(parent("rides/ride.fit"), Some("rides".to_string()));
    assert_eq!(parent("ride.fit"), Some(String::new()));
    assert_eq!(parent("/ride.fit"), Some("/".to_string()));
    assert_eq!(parent("./ride.fit"), Some(".".to_string()));
    assert_eq!(parent("../ride.fit"), Some("..".to_string()));
}

#[test]
fn parent_passes_over_separators_and_dots() {
    assert_eq!(parent("a/b/"), Some("a".to_string()));
    assert_eq!(parent("a//b"), Some("a".to_string()));
    assert_eq!(parent("a/./b"), Some("a".to_string()));
    assert_eq!(parent("a/b/."), Some("a".to_string()));
    assert_eq!(parent("a/."), Some(String::new()));
    assert_eq!(parent("//a"), Some("/".to_string()));
    assert_eq!(parent("a/.."), Some("a".to_string()));
}

#[test]
fn parent_of_paths_without_one() {
    assert_eq!(parent(""), None);
    assert_eq!(parent("/"), None);
    assert_eq!(parent("//"), None);
    assert_eq!(parent("/."), None);
}

#[test]
fn parent_of_single_components() {
    assert_eq!(parent("."), Some(String::new()));
    assert_eq!(parent("./"), Some(String::new()));
    assert_eq!(parent(".."), Some(String::new()));
    assert_eq!(parent("a"), Some(String::new()));
}

#[test]
fn file_name_of_common_paths() {
    assert_eq!(file_name("/input/file/path/file.fit"), Some("file.fit".to_string()));
    assert_eq!(file_name("ride.fit"), Some("ride.fit".to_string()));
    assert_eq!(file_name("rides/ride.fit/"), Some("ride.fit".to_string()));
    assert_eq!(file_name("rides/ride.fit/."), Some("ride.fit".to_string()));
    assert_eq!(file_name("rides/ride.fit//"), Some("ride.fit".to_string()));
    assert_eq!(file_name("rides/.hidden"), Some(".hidden".to_string()));
    assert_eq!(file_name("rides/..."), Some("...".to_string()));
}

#[test]
fn file_name_of_paths_without_one() {
    assert_eq!(file_name(""), None);
    assert_eq!(file_name("/"), None);
    assert_eq!(file_name("."), None);
    assert_eq!(file_name(".."), None);
    assert_eq!(file_name("rides/.."), None);
    assert_eq!(file_name("rides/../"), None);
}

#[test]
fn path_within_puts_one_separator() {
    assert_eq!(path_within("/out", "ride.fit"), "/out/ride.fit");
    assert_eq!(path_within("/out/", "ride.fit"), "/out/ride.fit");
    assert_eq!(path_within("/out//", "ride.fit"), "/out//ride.fit");
    assert_eq!(path_within("", "ride.fit"), "ride.fit");
    assert_eq!(path_within("/", "ride.fit"), "/ride.fit");
    assert_eq!(path_within("out", ""), "out/");
    assert_eq!(path_within("", ""), "");
}

#[test]
fn path_within_stays_in_the_directory() {
    assert_eq!(path_within("/out", "/tmp/ride.fit"), "/out//tmp/ride.fit");
    assert_eq!(path_within("/out/", "/tmp/ride.fit"), "/out//tmp/ride.fit");
    assert_eq!(path_within("", "/"), "/");
}

#[test]
fn paths_with_wide_characters() {
    assert_eq!(parent("übung/läufe/mörgen.fit"), Some("übung/läufe".to_string()));
    assert_eq!(file_name("übung/läufe/mörgen.fit"), Some("mörgen.fit".to_string()));
    assert_eq!(path_within("übung", "läufe"), "übung/läufe");
    assert_eq!(parent("日本/走る.fit"), Some("日本".to_string()));
    assert_eq!(file_name("日本/走る.fit/"), Some("走る.fit".to_string()));
}

#[test]
fn parent_agrees_with_std_on_short_paths() {
    for text in texts_up_to(7, &['/', '.', 'a']) {
        let expected = Path::new(&text).parent().map(|p| p.to_str().unwrap().to_string());
        assert_eq!(parent(&text), expected, "parent of {text:?}");
    }
}

#[test]
fn file_name_agrees_with_std_on_short_paths() {
    for text in texts_up_to(7, &['/', '.', 'a']) {
        let expected = Path::new(&text).file_name().map(|p| p.to_str().unwrap().to_string());
        assert_eq!(file_name(&text), expected, "file name of {text:?}");
    }
}

#[test]
fn path_within_agrees_with_std_on_entries_without_root() {
    let texts = texts_up_to(4, &['/', '.', 'a']);
    for dir in &texts {
        for name in &texts {
            if name.starts_with('/') {
                continue;
            }
            let expected = Path::new(dir).join(name);
            assert_eq!(path_within(dir, name), expected.to_str().unwrap(), "{dir:?} with {name:?}");
        }
    }
}

#[test]
fn path_within_starts_with_dir_and_ends_with_name() {
    let texts = texts_up_to(4, &['/', '.', 'a']);
    for dir in &texts {
        for name in &texts {
            let path = path_within(dir, name);
            assert!(path.starts_with(dir.as_str()), "{dir:?} with {name:?}");
            assert!(path.ends_with(name.as_str()), "{dir:?} with {name:?}");
            assert!(path.len() <= dir.len() + 1 + name.len());
        }
    }
}

#[test]
fn parent_and_file_name_give_the_path_back() {
    for text in texts_up_to(6, &['/', '.', 'a']) {
        if let (Some(dir), Some(name)) = (parent(&text), file_name(&text)) {
            assert_eq!(
                Path::new(&path_within(&dir, &name)),
                Path::new(&text),
                "the parts of {text:?}"
            );
        }
    }
}

#[test]
fn parent_and_file_name_agree_with_std_on_mixed_paths() {
    for text in texts_up_to(5, &['/', '.', 'b', 'é', '_']) {
        let path = Path::new(&text);
        assert_eq!(
            parent(&text),
            path.parent().map(|p| p.to_str().unwrap().to_string()),
            "parent of {text:?}"
        );
        assert_eq!(
            file_name(&text),
            path.file_name().map(|p| p.to_str().unwrap().to_string()),
            "file name of {text:?}"
        );
    }
}
