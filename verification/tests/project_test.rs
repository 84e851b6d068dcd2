use base64::Engine;
use ola::{Context, Goal, Project, ProjectFile};

#[test]
fn test_project_creation() {
    let project = Project::new("Test Project".to_string());

    assert_eq!(project.name, "Test Project");
    assert!(!project.id.is_empty());
    assert_eq!(project.files.len(), 0);
    assert_eq!(project.goals.len(), 0);
    assert_eq!(project.contexts.len(), 0);
}

#[test]
fn test_project_add_goal() {
    let mut project = Project::new("Test Project".to_string());
    let goal = Goal::new("Test Goal".to_string(), 0);

    project.add_goal(goal);

    assert_eq!(project.goals.len(), 1);
    assert_eq!(project.goals[0].text, "Test Goal");
    assert_eq!(project.goals[0].order, 0);
}

#[test]
fn test_project_add_context() {
    let mut project = Project::new("Test Project".to_string());
    let context = Context::new("Test Context".to_string(), 0);

    project.add_context(context);

    assert_eq!(project.contexts.len(), 1);
    assert_eq!(project.contexts[0].text, "Test Context");
    assert_eq!(project.contexts[0].order, 0);
}

#[test]
fn test_project_add_file() {
    let mut project = Project::new("Test Project".to_string());
    let file = ProjectFile::new("test.rs".to_string(), 100, Some("text/rust".to_string()));

    project.add_file(file);

    assert_eq!(project.files.len(), 1);
    assert_eq!(project.files[0].filename, "test.rs");
    assert_eq!(project.files[0].size, 100);
}

#[test]
fn test_project_remove_goal() {
    let mut project = Project::new("P".to_string());
    let goal = Goal::new("first".to_string(), 0);
    let goal_id = goal.id.clone();
    project.add_goal(goal);
    project.add_goal(Goal::new("second".to_string(), 1));

    assert!(project.remove_goal(&goal_id));
    assert_eq!(project.goals.len(), 1);
    assert_eq!(project.goals[0].text, "second");
    assert!(!project.remove_goal(&goal_id));
}

#[test]
fn test_project_remove_missing_file() {
    let mut project = Project::new("P".to_string());
    assert!(!project.remove_file("no-such-id"));
    assert_eq!(project.files.len(), 0);
}

#[test]
fn test_project_reorder_goals() {
    let mut project = Project::new("P".to_string());
    let a = Goal::new("a".to_string(), 0);
    let b = Goal::new("b".to_string(), 1);
    let a_id = a.id.clone();
    let b_id = b.id.clone();
    project.add_goal(a);
    project.add_goal(b);

    project.reorder_goals(vec![(a_id, 5u32), (b_id, 2u32)]);

    assert_eq!(project.goals.len(), 2);
    assert_eq!(project.goals[0].text, "b");
    assert_eq!(project.goals[0].order, 2);
    assert_eq!(project.goals[1].text, "a");
    assert_eq!(project.goals[1].order, 5);
}

#[test]
fn test_guess_mime_type() {
    let mime = ola::ProjectManager::guess_mime_type("main.rs");
    assert_eq!(mime.unwrap(), "text/rust");
    let mime = ola::ProjectManager::guess_mime_type("notes.MD");
    assert_eq!(mime.unwrap(), "text/markdown");
    let mime = ola::ProjectManager::guess_mime_type("archive.bin");
    assert_eq!(mime.unwrap(), "application/octet-stream");
    let mime = ola::ProjectManager::guess_mime_type("no_extension");
    assert_eq!(mime.unwrap(), "application/octet-stream");
    let mime = ola::ProjectManager::guess_mime_type(".hidden");
    assert_eq!(mime.unwrap(), "application/octet-stream");
    let mime = ola::ProjectManager::guess_mime_type("style.css");
    assert_eq!(mime.unwrap(), "text/css");
}

#[test]
fn test_project_paths() {
    let manager = ola::ProjectManager::new("/home/u");
    assert_eq!(manager.base_path, "/home/u/.ola/data/projects");
    assert_eq!(manager.project_dir("abc"), "/home/u/.ola/data/projects/abc");
    assert_eq!(
        manager.project_file_path("abc"),
        "/home/u/.ola/data/projects/abc/project.json"
    );
    assert_eq!(manager.file_path("abc", "f1"), "/home/u/.ola/data/projects/abc/files/f1");
}

#[test]
fn test_sort_projects_by_updated() {
    let mut older = Project::new("older".to_string());
    let mut newer = Project::new("newer".to_string());
    older.updated_at = 100;
    newer.updated_at = 200;
    let sorted = ola::project::sort_projects_by_updated(vec![older, newer]);
    assert_eq!(sorted[0].name, "newer");
    assert_eq!(sorted[1].name, "older");
}

#[test]
fn test_find_project_by_name() {
    let mut p1 = Project::new("Alpha".to_string());
    let p2 = Project::new("Beta".to_string());
    p1.updated_at = 1;
    let projects = vec![p1, p2];
    assert_eq!(ola::project::find_project_by_name(&projects, "beta"), Some(1));
    assert_eq!(ola::project::find_project_by_name(&projects, "ALPHA"), Some(0));
    assert_eq!(ola::project::find_project_by_name(&projects, "gamma"), None);
}

#[test]
fn test_text_of_file_bytes() {
    let text = ola::project::text_of_file_bytes(&b"hello world".to_vec());
    assert_eq!(text, "hello world");

    let binary: Vec<u8> = vec![0xff, 0xfe, 0x00, 0x41];
    let rendered = ola::project::text_of_file_bytes(&binary);
    let expected = format!(
        "[Binary file - base64 encoded: {}]",
        base64::engine::general_purpose::STANDARD.encode(&binary)
    );
    assert_eq!(rendered, expected);
}

#[test]
fn test_fresh_ids_are_hyphenated_uuids() {
    let project = Project::new("P".to_string());
    assert_eq!(project.id.chars().count(), 36);
    let goal = Goal::new("g".to_string(), 0);
    assert_eq!(goal.id.chars().count(), 36);
    assert_eq!(goal.id.chars().filter(|c| *c == '-').count(), 4);
    let other = Goal::new("g".to_string(), 0);
    assert_ne!(goal.id, other.id);
}

#[test]
fn test_reorder_keeps_relative_order_of_ties() {
    let mut project = Project::new("P".to_string());
    project.add_goal(Goal::new("first".to_string(), 7));
    project.add_goal(Goal::new("second".to_string(), 7));
    project.add_goal(Goal::new("third".to_string(), 1));

    project.reorder_goals(Vec::new());

    assert_eq!(project.goals[0].text, "third");
    assert_eq!(project.goals[1].text, "first");
    assert_eq!(project.goals[2].text, "second");
}

#[test]
fn test_sort_projects_keeps_relative_order_of_ties() {
    let mut a = Project::new("a".to_string());
    let mut b = Project::new("b".to_string());
    let mut c = Project::new("c".to_string());
    a.updated_at = 5;
    b.updated_at = 9;
    c.updated_at = 5;
    let sorted = ola::project::sort_projects_by_updated(vec![a, b, c]);
    assert_eq!(sorted[0].name, "b");
    assert_eq!(sorted[1].name, "a");
    assert_eq!(sorted[2].name, "c");
}
