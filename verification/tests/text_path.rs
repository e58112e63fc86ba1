use vacuum::order::sorted_positions;
use vacuum::path::{
    file_name_of, has_component_of, is_within, join_of, parent_of, path_key_of, relative_of,
};
use vacuum::sizes::size_text;
use vacuum::text::{contains_chars, lowercase_chars, match_starts};
use vacuum::interactive::types::{keybindings, Action, SortDir};

fn c(s: &str) -> Vec<char> {
    s.chars().collect()
}

fn st(v: &[char]) -> String {
    v.iter().collect()
}

#[test]
fn match_starts_finds_matches_left_to_right_without_overlap() {
    assert_eq!(match_starts(&c("aaaa"), &c("aa")), vec![0, 2]);
    assert_eq!(match_starts(&c("abcabc"), &c("bc")), vec![1, 4]);
    assert_eq!(match_starts(&c("abc"), &c("x")), Vec::<usize>::new());
    assert_eq!(match_starts(&c("abc"), &c("")), Vec::<usize>::new());
    assert_eq!(match_starts(&c("ab"), &c("abc")), Vec::<usize>::new());
}

#[test]
fn contains_chars_cases() {
    assert!(contains_chars(&c("node_modules"), &c("mod")));
    assert!(contains_chars(&c("x"), &c("")));
    assert!(!contains_chars(&c("node"), &c("nodes")));
}

#[test]
fn lowercase_handles_unicode() {
    assert_eq!(st(&lowercase_chars("ÄbC")), "äbc");
    assert_eq!(st(&lowercase_chars("")), "");
}

#[test]
fn path_pieces() {
    assert_eq!(st(&file_name_of(&c("/r/a/target"))), "target");
    assert_eq!(st(&file_name_of(&c("target"))), "target");
    assert_eq!(parent_of(&c("/r/a/target")).map(|p| st(&p)), Some("/r/a".to_string()));
    assert_eq!(parent_of(&c("/target")).map(|p| st(&p)), Some("/".to_string()));
    assert_eq!(parent_of(&c("/")), None);
    assert_eq!(st(&join_of(&c("/r"), &c("x"))), "/r/x");
    assert_eq!(st(&join_of(&c("/"), &c("x"))), "/x");
}

#[test]
fn within_and_relative() {
    assert!(is_within(&c("/r/a/b"), &c("/r/a")));
    assert!(is_within(&c("/r/a"), &c("/r/a")));
    assert!(!is_within(&c("/r/ab"), &c("/r/a")));
    assert!(is_within(&c("/x"), &c("/")));
    assert_eq!(st(&relative_of(&c("/r/a/b"), &c("/r"))), "a/b");
    assert_eq!(st(&relative_of(&c("/r"), &c("/r"))), "");
    assert_eq!(st(&relative_of(&c("/x/y"), &c("/r"))), "/x/y");
    assert_eq!(st(&relative_of(&c("/x/y"), &c("/"))), "x/y");
}

#[test]
fn components() {
    assert!(has_component_of(&c("/r/.git/objects"), &c(".git")));
    assert!(!has_component_of(&c("/r/.github/x"), &c(".git")));
    assert!(has_component_of(&c(".git"), &c(".git")));
}

#[test]
fn path_keys_order_by_component() {
    let keys = vec![
        path_key_of(&c("a-b")),
        path_key_of(&c("a/b")),
        path_key_of(&c("a")),
    ];
    assert_eq!(sorted_positions(&keys, false), vec![2, 1, 0]);
    assert_eq!(sorted_positions(&keys, true), vec![0, 1, 2]);
}

#[test]
fn sorted_positions_is_stable() {
    let keys = vec![vec![2u64], vec![1], vec![2], vec![1]];
    assert_eq!(sorted_positions(&keys, false), vec![1, 3, 0, 2]);
    assert_eq!(sorted_positions(&keys, true), vec![0, 2, 1, 3]);
    assert_eq!(sorted_positions(&Vec::new(), false), Vec::<usize>::new());
}

#[test]
fn sort_dir_toggle_and_indicator() {
    assert_eq!(SortDir::Asc.toggle(), SortDir::Desc);
    assert_eq!(SortDir::Desc.toggle(), SortDir::Asc);
    assert_eq!(SortDir::Asc.indicator(), " ↑");
    assert_eq!(SortDir::Desc.indicator(), " ↓");
}

#[test]
fn key_binding_table() {
    let kbs = keybindings();
    assert_eq!(kbs.len(), 21);
    assert_eq!(kbs[0].key, "↑ / k");
    assert_eq!(kbs[0].action, Action::MoveUp);
    assert_eq!(kbs[20].desc, "Quit without deleting");
    assert_eq!(kbs[20].action, Action::Quit);
}

#[test]
fn sizes_as_shown() {
    assert_eq!(size_text(0), "0 B");
    assert_eq!(size_text(999), "999 B");
    assert_eq!(size_text(1500), "1.5 KB");
    assert_eq!(size_text(2_000_000), "2.0 MB");
}
