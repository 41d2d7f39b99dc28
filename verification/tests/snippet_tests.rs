use std::rc::Rc;

use hello_rust::chain::Node;
use hello_rust::door::{Door, Openable};
use hello_rust::naming::FileName;
use hello_rust::search::find;
use hello_rust::text::{is_whitespace, sanitize, trim};

#[test]
fn macros_test1() {
    let filename = FileName {
        name: Rc::new("/tmp/not/a/file".to_string()),
        ext: Rc::new("file".to_string()),
    };
    println!("{:?}", filename);
}

#[test]
fn open_door() {
    let mut door = Door::new(false);
    door.open();
    assert!(door.is_open);
}

#[test]
fn errors_test1() {
    match find(2, vec![1, 3, 4, 5]) {
        Some(_) => println!("Found!"),
        None => println!("Not found :("),
    }

    if let Some(_result) = find(2, vec![1, 3, 4, 5]) {
        println!("Found!");
    }
}

#[test]
fn find_miss_and_hit() {
    assert_eq!(find(2, vec![1, 3, 4, 5]), None);
    assert_eq!(find(3, vec![1, 3, 4, 5]), Some(1));
}

#[test]
fn find_first_occurrence() {
    assert_eq!(find(4, vec![4, 4, 4]), Some(0));
    assert_eq!(find(9, vec![]), None);
}

#[test]
fn sanitize_trims_and_underscores() {
    assert_eq!(sanitize("  hello world ".to_string()), "hello_world");
    assert_eq!(sanitize("a b".to_string()), "a_b");
}

#[test]
fn sanitize_keeps_inner_text() {
    assert_eq!(sanitize("\t one two  three\n".to_string()), "one_two__three");
    assert_eq!(sanitize("   ".to_string()), "");
    assert_eq!(sanitize("".to_string()), "");
}

#[test]
fn trim_strips_surrounding_whitespace_only() {
    assert_eq!(trim("  x y\t"), "x y");
    assert_eq!(trim("xy"), "xy");
    assert_eq!(trim(" \n "), "");
}

#[test]
fn whitespace_classification() {
    assert!(is_whitespace(' '));
    assert!(is_whitespace('\t'));
    assert!(is_whitespace('\u{3000}'));
    assert!(!is_whitespace('a'));
    assert!(!is_whitespace('_'));
}

#[test]
fn append_leaves_node_unchanged() {
    let mut node = Node { value: "head".to_string() };
    node.append("tail".to_string());
    assert_eq!(node.value, "head");
}
