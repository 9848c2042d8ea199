use kron::domain::context::walk::{child_rel_path, child_step, order_children, walk_enters, ChildStep, DirChild, MAX_ENTRIES};

fn child(name: &str, is_dir: bool) -> DirChild {
    DirChild { name: name.to_string(), is_dir }
}

#[test]
fn children_list_directories_first_then_by_lower_cased_name() {
    let ordered = order_children(vec![
        child("b.txt", false),
        child("Zeta", true),
        child("A.md", false),
        child("alpha", true),
        child("a.md", false),
    ]);
    let names: Vec<&str> = ordered.iter().map(|c| c.name.as_str()).collect();
    // `A.md` and `a.md` compare equal and keep their order.
    assert_eq!(names, vec!["alpha", "Zeta", "A.md", "a.md", "b.txt"]);
}

#[test]
fn walk_stops_at_the_entry_cap_and_depth_limit() {
    assert!(walk_enters(0, 3, 3));
    assert!(!walk_enters(0, 4, 3));
    assert!(!walk_enters(MAX_ENTRIES, 0, 3));
    assert_eq!(child_step("target", 0), ChildStep::Skip);
    assert_eq!(child_step("x.pyc", 0), ChildStep::Skip);
    assert_eq!(child_step("src", MAX_ENTRIES - 1), ChildStep::Take);
    assert_eq!(child_step("src", MAX_ENTRIES), ChildStep::Stop);
}

#[test]
fn child_paths_nest_under_their_parent() {
    assert_eq!(child_rel_path("", "src"), "src");
    assert_eq!(child_rel_path("src", "main.rs"), "src/main.rs");
}
