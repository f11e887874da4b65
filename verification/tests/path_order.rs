use ghciwatch::canonicalized_path::CanonicalizedUtf8PathBuf;
use ghciwatch::ghci::loaded_module::LoadedModule;
use ghciwatch::ghci::module_set::ModuleSet;
use ghciwatch::path_order::{compare_paths, relative_path_to};
use std::cmp::Ordering;

#[test]
fn paths_compare_by_components() {
    assert_eq!(compare_paths("a/b", "a/b"), 0);
    assert_eq!(compare_paths("a//b/", "a/b"), 0);
    assert_eq!(compare_paths("a/./b/.", "a/b"), 0);
    // Component order, not text order: `a` comes before `a.b`.
    assert_eq!(compare_paths("a/b", "a.b"), -1);
    assert_eq!(compare_paths("a.b", "a/b"), 1);
    assert_eq!(compare_paths("a", "a/b"), -1);
    // A root comes before anything else; a leading `.` before `..` and normal pieces.
    assert_eq!(compare_paths("/z", "a"), -1);
    assert_eq!(compare_paths("./z", "+"), -1);
    assert_eq!(compare_paths("./a", "a"), -1);
    assert_eq!(compare_paths("../a", "+"), -1);
    assert_eq!(compare_paths("/a/.", "/a"), 0);
    assert_eq!(compare_paths("", "."), -1);
}

#[test]
fn modules_compare_by_path() {
    let named = LoadedModule::with_name("src/A.hs".to_owned(), "A".to_owned());
    let by_path = LoadedModule::new("src//A.hs".to_owned());
    assert_eq!(named, by_path);
    assert_eq!(named.partial_cmp(&by_path), Some(Ordering::Equal));
    let b = LoadedModule::new("src/B.hs".to_owned());
    assert!(named < b);
    assert!(LoadedModule::new("a/b.hs".to_owned()) < LoadedModule::new("a.b/c.hs".to_owned()));
}

#[test]
fn canonical_paths_compare_by_canonical_form() {
    let a = CanonicalizedUtf8PathBuf::new("./src".to_owned(), "/w/src".to_owned());
    let b = CanonicalizedUtf8PathBuf::new("src/".to_owned(), "/w/src/".to_owned());
    let c = CanonicalizedUtf8PathBuf::new("lib".to_owned(), "/w/lib".to_owned());
    assert_eq!(a, b);
    assert_eq!(a.partial_cmp(&b), Some(Ordering::Equal));
    assert_ne!(a, c);
    assert!(c < a);
    assert_eq!(a.to_string(), "./src");
}

#[test]
fn module_sets_keep_path_order() {
    let mut set = ModuleSet::new();
    assert!(set.insert_module(LoadedModule::new("src/B.hs".to_owned())));
    assert!(set.insert_module(LoadedModule::new("src/A.hs".to_owned())));
    assert!(set.insert_module(LoadedModule::new("src/A/B.hs".to_owned())));
    assert!(!set.insert_module(LoadedModule::new("src//A.hs".to_owned())));
    let paths: Vec<&str> = set.iter().iter().map(|m| m.path().as_str()).collect();
    assert_eq!(paths, vec!["src/A/B.hs", "src/A.hs", "src/B.hs"]);
    assert!(set.contains_source_path("./src/A.hs") == false);
    assert!(set.contains_source_path("src/A.hs/"));
    assert!(set.remove_source_path("src/./B.hs"));
    assert_eq!(set.len(), 2);
}

#[test]
fn paths_relative_to_a_directory() {
    use_relative("/w/src/A.hs", "/w", "src/A.hs");
    use_relative("/w/src/A.hs", "/w/", "src/A.hs");
    use_relative("/ws/A.hs", "/w", "/ws/A.hs");
    use_relative("src/A.hs", "/w", "src/A.hs");
    use_relative("/w", "/w", "/w");
    use_relative("/w/A.hs", "", "/w/A.hs");
    use_relative("/a", "/", "a");
}

fn use_relative(path: &str, cwd: &str, expected: &str) {
    assert_eq!(relative_path_to(path, cwd), expected);
}

#[test]
fn removing_many_paths() {
    let mut set = ModuleSet::new();
    for p in ["src/A.hs", "src/B.hs", "src/C.hs"] {
        set.insert_module(LoadedModule::new(p.to_owned()));
    }
    set.remove_source_paths(&vec!["src//B.hs".to_owned(), "src/Z.hs".to_owned(), "src/A.hs".to_owned()]);
    let paths: Vec<&str> = set.iter().iter().map(|m| m.path().as_str()).collect();
    assert_eq!(paths, vec!["src/C.hs"]);
}
