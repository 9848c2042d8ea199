use kron::commands::task::{
    apply_tag_action, back_target, check_target, cross_vertex_guard, describe_update, parse_move_target,
    parse_pairs, resolve_target_vertex, select_tasks, validate_add, GuardKind, TagAction,
};
use kron::domain::task::{
    check_move_target, extract_block, find_task, list_task_files, next_task_id, normalize_description,
    render_task_md, retarget, split_front_matter, task_from_parts, validate_description, validate_vertex_name,
    vertex_public_dir, vertex_state_file, DirEntry, Task, TaskFront, TaskProbe, VertexState,
};
use kron::error::KronError;
use kron::model::{parse_state, TaskState};

const NOW: &str = "2026-09-05T00:00:00+00:00";

fn make_task(id: &str, title: &str, state: &str) -> Task {
    Task {
        id: id.into(),
        title: title.into(),
        description: format!("desc for {id}"),
        body: String::new(),
        state: state.into(),
        tags: vec!["smoke".into()],
        created_at: NOW.into(),
        updated_at: NOW.into(),
        source_file: None,
    }
}

#[test]
fn validate_vertex_name_accepts_valid_slugs() {
    assert!(validate_vertex_name("todo").is_ok());
    assert!(validate_vertex_name("doing").is_ok());
    assert!(validate_vertex_name("task_42").is_ok());
    assert!(validate_vertex_name("v-1").is_ok());
    assert!(validate_vertex_name("a").is_ok());
    assert!(validate_vertex_name("abc123").is_ok());
}

#[test]
fn validate_vertex_name_rejects_invalid_slugs() {
    assert!(validate_vertex_name("").is_err());
    assert!(validate_vertex_name("Todo").is_err());
    assert!(validate_vertex_name("-leading-dash").is_err());
    assert!(validate_vertex_name("has space").is_err());
    assert!(validate_vertex_name("has/slash").is_err());
    assert!(validate_vertex_name("中文").is_err());
}

#[test]
fn normalize_description_truncates_over_200_chars() {
    let long = "x".repeat(250);
    let (s, truncated) = normalize_description(&long);
    assert_eq!(s.len(), 200);
    assert!(truncated);
    let (s, truncated) = normalize_description("short");
    assert_eq!(s, "short");
    assert!(!truncated);
    let wide = "é".repeat(201);
    let (s, truncated) = normalize_description(&wide);
    assert_eq!(s.chars().count(), 200);
    assert!(truncated);
    let (_, truncated) = normalize_description(&"é".repeat(200));
    assert!(!truncated);
}

#[test]
fn validate_description_rejects_long_input() {
    let long = "x".repeat(201);
    assert!(validate_description(&long).is_err(), "201-char description must be rejected");
    let exactly = "x".repeat(200);
    assert!(validate_description(&exactly).is_ok(), "200-char description must pass");
}

#[test]
fn write_and_read_task_roundtrip() {
    let task = Task {
        id: "T1".into(),
        title: "Roundtrip test".into(),
        description: "short desc".into(),
        body: "Long body\nspans\nmultiple lines".into(),
        state: "todo".into(),
        tags: vec!["alpha".into(), "beta".into()],
        created_at: NOW.into(),
        updated_at: NOW.into(),
        source_file: None,
    };
    let yaml = "id: T1\ntitle: Roundtrip test\nstate: todo\ntags:\n- alpha\n- beta\n";
    let raw = render_task_md(yaml, &task);
    let (front_text, rest) = split_front_matter(&raw).unwrap();
    assert_eq!(front_text, yaml.trim_end_matches('\n'));
    let front = TaskFront {
        id: "T1".into(),
        title: "Roundtrip test".into(),
        state: "todo".into(),
        tags: vec!["alpha".into(), "beta".into()],
        created_at: NOW.into(),
        updated_at: NOW.into(),
    };
    let read_back = task_from_parts(front, &rest);
    assert_eq!(read_back.id, "T1");
    assert_eq!(read_back.title, "Roundtrip test");
    assert_eq!(read_back.description, "short desc");
    assert_eq!(read_back.body, "Long body\nspans\nmultiple lines");
    assert_eq!(read_back.state, "todo");
    assert_eq!(read_back.tags, vec!["alpha", "beta"]);
}

#[test]
fn missing_frame_is_invalid_front_matter() {
    assert!(matches!(split_front_matter("no front"), Err(KronError::InvalidFrontmatter { .. })));
    assert!(matches!(split_front_matter("---\nid: T1\n"), Err(KronError::InvalidFrontmatter { .. })));
    assert!(matches!(split_front_matter("---"), Err(KronError::InvalidFrontmatter { reason, .. }) if reason == "missing closing '---'"));
    assert!(matches!(split_front_matter("---é"), Err(KronError::InvalidFrontmatter { .. })));
    let (y, r) = split_front_matter("---éid: T1\n---rest").unwrap();
    assert_eq!((y.as_str(), r.as_str()), ("id: T1", "rest"));
    assert_eq!(extract_block("<!-- body -->\n  x  \n<!-- /body -->", "body").as_deref(), Some("x"));
    assert_eq!(extract_block("nothing", "body"), None);
}

#[test]
fn next_task_id_increments_within_vertex() {
    assert_eq!(next_task_id(&[]), "T1");
    let files = vec!["/p/KRON/VERTEX/todo/T1.md".to_string(), "/p/KRON/VERTEX/todo/T2.md".to_string()];
    assert_eq!(next_task_id(&files), "T3");
    let gappy = vec!["/x/T9.md".to_string(), "/x/notes.md".to_string(), "/x/T4.md".to_string()];
    assert_eq!(next_task_id(&gappy), "T10");
}

#[test]
fn append_to_vertex_state_writes_id() {
    let mut state = VertexState::new();
    state.add_task_id("T1");
    state.add_task_id("T2");
    state.add_task_id("T1");
    assert_eq!(state.tasks, vec!["T1", "T2"]);
    assert_eq!(vertex_state_file("/p", "todo"), "/p/kron-internal/states/todo.json");
}

#[test]
fn list_task_files_returns_md_in_sorted_order() {
    let entries = vec![
        DirEntry { path: "/p/KRON/VERTEX/todo/T3.md".into(), is_file: true },
        DirEntry { path: "/p/KRON/VERTEX/todo/T1.md".into(), is_file: true },
        DirEntry { path: "/p/KRON/VERTEX/todo/notes.txt".into(), is_file: true },
        DirEntry { path: "/p/KRON/VERTEX/todo/sub.md".into(), is_file: false },
        DirEntry { path: "/p/KRON/VERTEX/todo/T2.md".into(), is_file: true },
    ];
    let files = list_task_files("/p/KRON/VERTEX/todo", true, &entries).unwrap();
    let names: Vec<String> = files.iter().map(|p| p.rsplit('/').next().unwrap().to_string()).collect();
    assert_eq!(names, vec!["T1.md", "T2.md", "T3.md"]);
    assert!(matches!(list_task_files("/gone", false, &[]), Err(KronError::NotFound(p)) if p == "/gone"));
}

#[test]
fn add_task_requires_title_and_some_content() {
    assert!(validate_add("x", None, None).is_err());
    assert!(validate_add("x", Some(""), Some("")).is_err());
    assert!(validate_add("", Some("d"), Some("b")).is_err());
    assert!(validate_add("x", Some("d"), None).is_ok());
    assert!(validate_add("x", None, Some("b")).is_ok());
    assert!(validate_add("x", Some("d"), Some("b")).is_ok());
}

#[test]
fn parse_state_strict_only_accepts_todo_doing_done() {
    assert_eq!(parse_state("todo").unwrap(), TaskState::Todo);
    assert_eq!(parse_state("DOING").unwrap(), TaskState::Doing);
    assert_eq!(parse_state("Done").unwrap(), TaskState::Done);
    for bad in ["foo", "backlog", "review", "todo ", " todo"] {
        assert!(parse_state(bad).is_err(), "{bad:?} must be rejected");
    }
    assert!(parse_state("").is_err());
}

#[test]
fn task_add_writes_state_todo_regardless_of_vertex() {
    for vertex in ["dev", "review"] {
        let st = TaskState::default_for_new();
        assert_eq!(st.as_str(), "todo", "new tasks in {vertex} start as todo");
    }
}

#[test]
fn move_task_with_non_canonical_state_is_rejected_at_command_layer() {
    let direct: Result<TaskState, String> = "foo".parse();
    assert!(direct.is_err(), "TaskState::from_str must reject 'foo'");
    assert!(direct.unwrap_err().contains("todo"));
    match parse_move_target("foo") {
        Err(KronError::Cli(m)) => assert!(m.starts_with("invalid target state 'foo': ")),
        other => panic!("expected Cli, got {other:?}"),
    }
    assert_eq!(parse_move_target("DONE").unwrap(), TaskState::Done);
}

#[test]
fn move_targets_must_be_slugs() {
    assert!(check_move_target("Has Space").is_err());
    assert!(check_move_target("-leading").is_err());
    assert!(check_move_target("doing").is_ok());
    let moved = retarget(make_task("T1", "x", "todo"), "doing", "t2");
    assert_eq!(moved.state, "doing");
    assert_eq!(moved.updated_at, "t2");
    assert_eq!(moved.title, "x");
}

#[test]
fn move_task_to_missing_id_returns_error() {
    let probes = vec![TaskProbe { vertex: "todo".into(), has_task: false }];
    let err = find_task("/p", "T99", &probes).unwrap_err();
    assert!(err.message().contains("path not found"), "got: {}", err.message());
    let probes = vec![
        TaskProbe { vertex: "todo".into(), has_task: false },
        TaskProbe { vertex: "doing".into(), has_task: true },
    ];
    let (path, vertex) = find_task("/p", "T1", &probes).unwrap();
    assert_eq!(vertex, "doing");
    assert_eq!(path, "/p/KRON/VERTEX/doing/T1.md");
    assert_eq!(vertex_public_dir("/p", "doing"), "/p/KRON/VERTEX/doing");
}

#[test]
fn back_and_check_use_canonical_chain() {
    assert_eq!(TaskState::Done.prev_in_chain(), Some(TaskState::Doing));
    assert_eq!(TaskState::Doing.prev_in_chain(), Some(TaskState::Todo));
    assert_eq!(TaskState::Todo.prev_in_chain(), None);
    assert_eq!(TaskState::Todo.next_in_chain(), Some(TaskState::Doing));
    assert_eq!(TaskState::Doing.next_in_chain(), Some(TaskState::Done));
    assert_eq!(TaskState::Done.next_in_chain(), None);
    assert_eq!(TaskState::default_for_new(), TaskState::Todo);
}

#[test]
fn task_back_moves_to_previous_state() {
    assert_eq!(back_target("T3", "doing").unwrap(), TaskState::Todo);
    assert_eq!(back_target("T3", "done").unwrap(), TaskState::Doing);
    match back_target("T3", "todo") {
        Err(KronError::Cli(m)) => assert_eq!(m, "task T3 is already in 'todo' (terminal state of back chain)"),
        other => panic!("expected Cli, got {other:?}"),
    }
    assert!(matches!(back_target("T3", "backlog"), Err(KronError::Cli(m)) if m.contains("legacy state 'backlog'")));
}

#[test]
fn task_check_toggles_done_to_todo() {
    assert_eq!(check_target("T4", "done").unwrap(), TaskState::Todo);
    assert_eq!(check_target("T4", "todo").unwrap(), TaskState::Done);
    assert_eq!(check_target("T4", "doing").unwrap(), TaskState::Done);
    assert!(check_target("T4", "review").is_err());
}

#[test]
fn task_tag_add_remove_list_clear() {
    let mut t = make_task("T1", "First", "todo");
    t.tags.clear();
    assert!(apply_tag_action(&mut t, &TagAction::Add { name: "urgent".into() }, "t1").unwrap());
    assert_eq!(t.tags, vec!["urgent".to_string()]);
    assert!(apply_tag_action(&mut t, &TagAction::Add { name: "urgent".into() }, "t2").unwrap());
    assert_eq!(t.tags, vec!["urgent".to_string()]);
    assert!(!apply_tag_action(&mut t, &TagAction::List, "t3").unwrap());
    assert!(apply_tag_action(&mut t, &TagAction::Remove { name: "urgent".into() }, "t4").unwrap());
    assert!(t.tags.is_empty());
    assert!(!apply_tag_action(&mut t, &TagAction::Remove { name: "urgent".into() }, "t5").unwrap());
    assert_eq!(t.updated_at, "t4");
    t.tags = vec!["a".into(), "b".into()];
    assert!(apply_tag_action(&mut t, &TagAction::Clear, "t6").unwrap());
    assert!(t.tags.is_empty());
    assert!(matches!(apply_tag_action(&mut t, &TagAction::Add { name: String::new() }, "t7"), Err(KronError::Cli(_))));
}

#[test]
fn task_attach_writes_metadata_into_body() {
    let pairs = vec!["priority=high".to_string(), " estimate =3".to_string(), "url=a=b".to_string()];
    let parsed = parse_pairs(&pairs).unwrap();
    assert_eq!(
        parsed,
        vec![
            ("priority".to_string(), "high".to_string()),
            ("estimate".to_string(), "3".to_string()),
            ("url".to_string(), "a=b".to_string()),
        ]
    );
    match parse_pairs(&["novalue".to_string()]) {
        Err(KronError::Cli(m)) => assert_eq!(m, "expected key=value, got \"novalue\""),
        other => panic!("expected Cli, got {other:?}"),
    }
    match parse_pairs(&[" =x".to_string()]) {
        Err(KronError::Cli(m)) => assert_eq!(m, "empty key in pair \" =x\""),
        other => panic!("expected Cli, got {other:?}"),
    }
}

#[test]
fn describe_task_updates_description_only() {
    let mut t = make_task("T1", "x", "todo");
    describe_update(&mut t, "new short", "t9").unwrap();
    assert_eq!(t.description, "new short");
    assert_eq!(t.title, "x");
    assert_eq!(t.state, "todo");
    assert_eq!(t.tags, vec!["smoke"]);
    assert!(describe_update(&mut t, "", "t9").is_err());
    assert!(describe_update(&mut t, &"y".repeat(201), "t9").is_err());
    assert_eq!(t.description, "new short");
}

#[test]
fn cross_vertex_guard_rejects_when_current_mismatch() {
    let err = cross_vertex_guard(GuardKind::Operate, "T1", None, Some("doing"), "todo").unwrap_err();
    match err {
        KronError::Cli(m) => assert_eq!(
            m,
            "task T1 is in vertex 'todo', not the current 'doing'; pass --vertex todo to operate across vertices"
        ),
        other => panic!("expected Cli, got {other:?}"),
    }
    assert!(cross_vertex_guard(GuardKind::Show, "T1", None, Some("todo"), "todo").is_ok());
    assert!(cross_vertex_guard(GuardKind::Show, "T1", None, None, "todo").is_ok());
    assert!(cross_vertex_guard(GuardKind::Edit, "T1", Some("doing"), Some("todo"), "todo").is_err());
}

#[test]
fn target_vertex_resolution_order() {
    assert_eq!(resolve_target_vertex(Some("a"), Some("b")).unwrap(), "a");
    assert_eq!(resolve_target_vertex(None, Some("b")).unwrap(), "b");
    assert!(matches!(resolve_target_vertex(None, None), Err(KronError::Cli(_))));
}

#[test]
fn list_filters_by_state_and_all_tags() {
    let mut a = make_task("T1", "a", "todo");
    a.tags = vec!["x".into(), "y".into()];
    let mut b = make_task("T2", "b", "doing");
    b.tags = vec!["x".into()];
    let tasks = vec![a, b];
    assert_eq!(select_tasks(&tasks, None, &[]), vec![0, 1]);
    assert_eq!(select_tasks(&tasks, Some("doing"), &[]), vec![1]);
    assert_eq!(select_tasks(&tasks, None, &["x".to_string(), "y".to_string()]), vec![0]);
}
