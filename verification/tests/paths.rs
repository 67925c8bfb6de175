use cargo_gui::paths::told_apart;

#[test]
fn paths_that_read_alike_are_told_apart() {
    let taken = |list: &[&str]| list.iter().map(|t| t.to_string()).collect::<Vec<String>>();
    assert_eq!(told_apart("a.rs", &taken(&[])), "a.rs");
    assert_eq!(told_apart("a.rs", &taken(&["b.rs"])), "a.rs");
    assert_eq!(told_apart("a.rs", &taken(&["a.rs"])), "a.rs'");
    assert_eq!(told_apart("a.rs", &taken(&["a.rs'", "a.rs", "a.rs'''"])), "a.rs''");
}
