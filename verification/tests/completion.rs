use rsh::completion::{command_complete, sort_names, starts_with, PathCompleter};
use rsh::text::str_less;

fn strings(words: &[&str]) -> Vec<String> {
    words.iter().map(|w| w.to_string()).collect()
}

#[test]
fn the_order_of_a_dictionary() {
    assert!(str_less("", "a"));
    assert!(!str_less("", ""));
    assert!(!str_less("a", ""));
    assert!(str_less("a", "b"));
    assert!(!str_less("b", "a"));
    assert!(!str_less("abc", "abc"));
    assert!(str_less("ab", "abc"));
    assert!(!str_less("abc", "ab"));
    assert!(str_less("abd", "abe"));
    assert!(str_less("B", "a"));
    assert!(str_less("a10", "a2"));
    assert!(str_less("z", "\u{e9}"));
    let words = ["", "A", "Z", "a", "ab", "abc", "b", "z", "\u{e9}", "\u{1f600}"];
    for (i, a) in words.iter().enumerate() {
        for (j, b) in words.iter().enumerate() {
            assert_eq!(str_less(a, b), i < j, "{:?} {:?}", a, b);
            assert_eq!(str_less(a, b), a < b);
        }
    }
}

#[test]
fn a_name_starts_with_the_typed_text() {
    assert!(starts_with("ls", ""));
    assert!(starts_with("ls", "l"));
    assert!(starts_with("ls", "ls"));
    assert!(!starts_with("ls", "lsof"));
    assert!(!starts_with("ls", "s"));
    assert!(!starts_with("", "l"));
    assert!(starts_with("", ""));
}

#[test]
fn candidates_keep_their_order_until_sorted() {
    let entries = strings(&["ls", "cat", "lsof", "less", "cp", "ls", "l"]);
    assert_eq!(command_complete("l", &entries), strings(&["ls", "lsof", "less", "ls", "l"]));
    assert_eq!(command_complete("ls", &entries), strings(&["ls", "lsof", "ls"]));
    assert_eq!(command_complete("x", &entries), Vec::<String>::new());
    assert_eq!(command_complete("", &entries), entries);
    assert_eq!(command_complete("l", &Vec::new()), Vec::<String>::new());
    let completer = PathCompleter::new();
    assert_eq!(
        completer.complete_cmd_unsorted("l", 1, &entries),
        (0, strings(&["ls", "lsof", "less", "ls", "l"]))
    );
    assert_eq!(
        completer.complete_cmd("l", 1, &entries),
        (0, strings(&["l", "less", "ls", "ls", "lsof"]))
    );
    assert_eq!(completer.complete_cmd("c", 0, &entries), (0, strings(&["cat", "cp"])));
    assert_eq!(completer.complete_cmd("q", 0, &entries), (0, Vec::new()));
}

#[test]
fn names_are_sorted_with_their_repetitions() {
    assert_eq!(sort_names(&Vec::new()), Vec::<String>::new());
    assert_eq!(sort_names(&strings(&["b"])), strings(&["b"]));
    assert_eq!(
        sort_names(&strings(&["b", "a", "c", "a", "", "B", "ab"])),
        strings(&["", "B", "a", "a", "ab", "b", "c"])
    );
    let mut expected = strings(&["pear", "Apple", "fig", "apple", "fig", "Fig", "banana"]);
    let sorted = sort_names(&expected);
    expected.sort();
    assert_eq!(sorted, expected);
}
