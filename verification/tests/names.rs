use dsorter::moves::{
    find_unique_path, move_target, unique_path_in, NameParts, NoUniquePath, Target,
};
use std::path::PathBuf;

fn path(text: &str) -> PathBuf {
    PathBuf::from(text)
}

fn read_as<T: serde::de::DeserializeOwned>(_: T, json: &str) -> T {
    serde_json::from_str(json).unwrap()
}

/// The path with the given bytes.
fn bytes(raw: &[u8]) -> PathBuf {
    let json = format!("{{\"Unix\":{raw:?}}}");
    PathBuf::from(read_as(PathBuf::new().into_os_string(), &json))
}

fn parts(stem: &str, extension: Option<&str>) -> NameParts {
    NameParts { stem: stem.to_string(), extension: extension.map(|e| e.to_string()) }
}

fn none(_: &PathBuf) -> bool {
    false
}

#[test]
fn number_stands_before_the_last_dot() {
    for (name, expected) in [
        ("a", "a(1)"),
        ("a.b", "a(1).b"),
        ("a.tar.gz", "a.tar(1).gz"),
        (".bashrc", ".bashrc(1)"),
        (".a.b", ".a(1).b"),
        ("a.", "a(1)."),
        ("..a", ".(1).a"),
        ("...", "..(1)."),
        ("report.PDF", "report(1).PDF"),
        ("é.ü", "é(1).ü"),
    ] {
        let free = find_unique_path(&path("/d").join(name), &none);
        assert_eq!(free, Ok(path("/d").join(expected)), "{name}");
    }
}

#[test]
fn taken_name_gets_a_number() {
    let taken = [path("/d/report.pdf")];
    let is_taken = |p: &PathBuf| taken.contains(p);
    match move_target(&path("/in/report.pdf"), &path("/d"), &is_taken) {
        Ok(Target::Renamed(p)) => assert_eq!(p, path("/d/report(1).pdf")),
        _ => panic!("expected a numbered name"),
    }
}

#[test]
fn free_name_is_kept() {
    match move_target(&path("/in/report.pdf"), &path("/d"), &none) {
        Ok(Target::Own(p)) => assert_eq!(p, path("/d/report.pdf")),
        _ => panic!("expected the file's own name"),
    }
}

#[test]
fn moved_file_lies_in_the_folder_under_a_name_made_from_its_own() {
    let taken = [path("a/b/x.tar.gz"), path("a/b/x.tar(1).gz")];
    for folder in ["a/b", "a/b/", "a//b", "a/./b"] {
        let is_taken = |p: &PathBuf| taken.contains(p);
        match move_target(&path("/in/x.tar.gz"), &path(folder), &is_taken) {
            Ok(Target::Renamed(p)) => {
                assert_eq!(p.file_name().unwrap(), "x.tar(2).gz");
                assert_eq!(p.parent().unwrap(), path(folder));
            }
            _ => panic!("expected a numbered name"),
        }
    }
}

#[test]
fn first_free_number_is_taken() {
    let taken = ["/d/a.tar.gz", "/d/a.tar(1).gz", "/d/a.tar(2).gz", "/d/a.tar(4).gz"].map(path);
    let is_taken = |p: &PathBuf| taken.contains(p);
    assert_eq!(find_unique_path(&path("/d/a.tar.gz"), &is_taken), Ok(path("/d/a.tar(3).gz")));
}

#[test]
fn numbers_go_on_past_nine() {
    let is_taken = |p: &PathBuf| p.to_str().unwrap().len() < "/d/notes(10)".len();
    assert_eq!(find_unique_path(&path("/d/notes"), &is_taken), Ok(path("/d/notes(10)")));
}

#[test]
fn path_without_a_file_name() {
    assert_eq!(find_unique_path(&path("/"), &none), Err(NoUniquePath::NoFileName));
    assert_eq!(find_unique_path(&path("/a/.."), &none), Err(NoUniquePath::NoFileName));
    assert!(matches!(
        move_target(&path("/in/.."), &path("/d"), &none),
        Err(NoUniquePath::NoFileName)
    ));
}

#[test]
fn relative_path_stays_relative() {
    assert_eq!(find_unique_path(&path("a.txt"), &none), Ok(path("a(1).txt")));
    assert_eq!(
        unique_path_in(&path("x/y"), &parts("a", Some("txt")), &none),
        Some(path("x/y/a(1).txt"))
    );
    assert_eq!(unique_path_in(&path("x"), &parts("a", None), &none), Some(path("x/a(1)")));
}

#[test]
fn numbered_names_differ_and_keep_the_extension() {
    let seen: std::cell::RefCell<Vec<PathBuf>> = std::cell::RefCell::new(Vec::new());
    let is_taken = |p: &PathBuf| {
        seen.borrow_mut().push(p.clone());
        seen.borrow().len() < 200
    };
    let free = find_unique_path(&path("/d/photo.jpg"), &is_taken).unwrap();
    assert_eq!(free, path("/d/photo(200).jpg"));
    let mut all = seen.borrow().clone();
    assert!(all.iter().all(|p| p.extension().unwrap() == "jpg" && *p != path("/d/photo.jpg")));
    all.sort();
    all.dedup();
    assert_eq!(all.len(), 200);
}

#[test]
fn two_moves_of_one_name_do_not_collide() {
    let mut taken = vec![path("/d/a.txt"), path("/d/a(2).txt")];
    for expected in ["/d/a(1).txt", "/d/a(3).txt"] {
        let target = move_target(&path("/in/a.txt"), &path("/d"), &|p: &PathBuf| taken.contains(p));
        match target {
            Ok(Target::Renamed(p)) => {
                assert_eq!(p, path(expected));
                taken.push(p);
            }
            _ => panic!("expected a numbered name"),
        }
    }
}

#[test]
fn name_that_is_no_text_is_kept_where_it_is_free() {
    match move_target(&bytes(b"/in/a\xff.jpg"), &bytes(b"/d\xfe"), &none) {
        Ok(Target::Own(p)) => assert_eq!(p, bytes(b"/d\xfe/a\xff.jpg")),
        _ => panic!("expected the file's own name"),
    }
}

#[test]
fn name_that_is_no_text_is_replaced_where_it_is_numbered() {
    let taken = [bytes(b"/d\xfe/a\xff.j\xff"), bytes(b"/d\xfe/a\xef\xbf\xbd(1).j\xef\xbf\xbd")];
    let is_taken = |p: &PathBuf| taken.contains(p);
    match move_target(&bytes(b"/in/a\xff.j\xff"), &bytes(b"/d\xfe"), &is_taken) {
        Ok(Target::Renamed(p)) => {
            assert_eq!(p, bytes(b"/d\xfe").join("a\u{fffd}(2).j\u{fffd}"));
        }
        _ => panic!("expected a numbered name"),
    }
}
