use jvm::class_loader::ClassLoader;
use jvm::class_path_manager::{class_file_name, ClassPathEntry, ClassPathManager};
use std::collections::HashMap;
use std::sync::Arc;

fn u16be(v: u16) -> [u8; 2] {
    v.to_be_bytes()
}

fn utf8(s: &str) -> Vec<u8> {
    let mut v = vec![1u8];
    v.extend_from_slice(&u16be(s.len() as u16));
    v.extend_from_slice(s.as_bytes());
    v
}

/// A class named `name` with `minor` as its minor version.
fn class_named(name: &str, minor: u16) -> Vec<u8> {
    let mut v = vec![0xCA, 0xFE, 0xBA, 0xBE];
    v.extend_from_slice(&u16be(minor));
    v.extend_from_slice(&u16be(52));
    v.extend_from_slice(&u16be(5));
    v.extend_from_slice(&utf8(name));
    v.extend_from_slice(&[7, 0, 1]);
    v.extend_from_slice(&utf8("java/lang/Object"));
    v.extend_from_slice(&[7, 0, 3]);
    v.extend_from_slice(&[0, 0x21, 0, 2, 0, 4, 0, 0, 0, 0, 0, 0, 0, 0]);
    v
}

/// Files by location, as a directory tree or an archive would answer.
fn reader(files: HashMap<String, Vec<u8>>) -> impl Fn(&ClassPathEntry, &String) -> Option<Vec<u8>> {
    move |_entry: &ClassPathEntry, location: &String| files.get(location).cloned()
}

#[test]
fn test_class_path_manager_and_class_loader() {
    let cp = format!("{}{}{}", "resource", "/", "test");
    let mut files = HashMap::new();
    files.insert(format!("{}/HelloWorld.class", cp), class_named("HelloWorld", 0));
    let read = reader(files);

    let mut cpm = ClassPathManager::new();
    cpm.add_class_path(ClassPathEntry::Dir(cp.clone()));

    let hello_world = "HelloWorld";
    let hello_world2 = "HelloWorld2";

    assert!(cpm.search_class(hello_world, &read).is_ok());
    assert!(cpm.search_class(hello_world2, &read).is_err());

    let cpm_ref = Arc::new(cpm);
    let mut cl = ClassLoader::new(cpm_ref, None);
    assert!(cl.load_class(hello_world, &read).unwrap().is_some());
    assert!(cl.load_class(hello_world2, &read).unwrap().is_none());
}

#[test]
fn class_names_become_member_names() {
    assert_eq!(class_file_name("java.lang.Object"), "java/lang/Object.class");
    assert_eq!(class_file_name("Main"), "Main.class");
}

#[test]
fn first_entry_shadows_later_ones() {
    let mut files = HashMap::new();
    files.insert("a/p/C.class".to_string(), vec![1u8]);
    files.insert("b/p/C.class".to_string(), vec![2u8]);
    files.insert("p/C.class".to_string(), vec![3u8]);
    let read = reader(files);
    let mut cpm = ClassPathManager::new();
    cpm.add_class_path(ClassPathEntry::Dir("a".to_string()));
    cpm.add_class_path(ClassPathEntry::Dir("b".to_string()));
    cpm.add_class_path(ClassPathEntry::Jar("lib.jar".to_string()));
    assert_eq!(cpm.size(), 3);
    let found = cpm.search_class("p.C", &read).unwrap();
    assert_eq!(found.0, "a/p/C.class");
    assert_eq!(found.1, vec![1u8]);

    let mut jar_first = ClassPathManager::new();
    jar_first.add_class_path(ClassPathEntry::Jar("lib.jar".to_string()));
    jar_first.add_class_path(ClassPathEntry::Dir("a".to_string()));
    let found = jar_first.search_class("p.C", &read).unwrap();
    assert_eq!(found.0, "lib.jar");
    assert_eq!(found.1, vec![3u8]);
}

#[test]
fn missing_class_reports_searched_name() {
    let read = reader(HashMap::new());
    let mut cpm = ClassPathManager::new();
    cpm.add_class_path(ClassPathEntry::Dir("classes".to_string()));
    let missing = cpm.search_class("p.Missing", &read).unwrap_err();
    assert_eq!(missing.name, "p/Missing.class");
    let empty = ClassPathManager::new();
    assert!(empty.search_class("A", &read).is_err());
}

#[test]
fn loading_twice_gives_the_same_instance() {
    let mut files = HashMap::new();
    files.insert("d/A.class".to_string(), class_named("A", 0));
    let read = reader(files);
    let mut cpm = ClassPathManager::new();
    cpm.add_class_path(ClassPathEntry::Dir("d".to_string()));
    let mut cl = ClassLoader::new(Arc::new(cpm), None);
    let first = cl.load_class("A", &read).unwrap().unwrap();
    let second = cl.load_class("A", &read).unwrap().unwrap();
    assert!(Arc::ptr_eq(&first, &second));
}

#[test]
fn parent_answers_before_the_child() {
    let mut parent_files = HashMap::new();
    parent_files.insert("p/X.class".to_string(), class_named("X", 1));
    let mut pcpm = ClassPathManager::new();
    pcpm.add_class_path(ClassPathEntry::Dir("p".to_string()));
    let mut parent = ClassLoader::new(Arc::new(pcpm), None);
    let from_parent = parent.load_class("X", &reader(parent_files)).unwrap().unwrap();

    // the child's class path also holds X, with another version
    let mut child_files = HashMap::new();
    child_files.insert("c/X.class".to_string(), class_named("X", 2));
    let mut ccpm = ClassPathManager::new();
    ccpm.add_class_path(ClassPathEntry::Dir("c".to_string()));
    let mut child = ClassLoader::new(Arc::new(ccpm), Some(Box::new(parent)));
    let got = child.load_class("X", &reader(child_files)).unwrap().unwrap();
    assert!(Arc::ptr_eq(&got, &from_parent));
    assert_eq!(got.version.minor, 1);
}

#[test]
fn child_loads_what_the_parent_lacks_and_keeps_it() {
    let mut files = HashMap::new();
    files.insert("c/Y.class".to_string(), class_named("Y", 0));
    let read = reader(files);
    let mut pcpm = ClassPathManager::new();
    pcpm.add_class_path(ClassPathEntry::Dir("p".to_string()));
    let parent = ClassLoader::new(Arc::new(pcpm), None);
    let mut ccpm = ClassPathManager::new();
    ccpm.add_class_path(ClassPathEntry::Dir("c".to_string()));
    let mut child = ClassLoader::new(Arc::new(ccpm), Some(Box::new(parent)));
    let first = child.load_class("Y", &read).unwrap().unwrap();
    let second = child.load_class("Y", &read).unwrap().unwrap();
    assert!(Arc::ptr_eq(&first, &second));
}

#[test]
fn undecodable_class_is_an_error_not_absence() {
    let mut files = HashMap::new();
    files.insert("d/Bad.class".to_string(), vec![0xCA, 0xFE, 0xBA, 0xBE, 0]);
    let read = reader(files);
    let mut cpm = ClassPathManager::new();
    cpm.add_class_path(ClassPathEntry::Dir("d".to_string()));
    let mut cl = ClassLoader::new(Arc::new(cpm), None);
    let err = cl.load_class("Bad", &read).unwrap_err();
    assert_eq!(err.name, "Bad");
    assert!(cl.load_class("Absent", &read).unwrap().is_none());
}
