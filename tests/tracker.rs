use task_tracker::cli::{Cli, EnumSubCommands};
use task_tracker::decimal::{parse_u32, u32_to_text};
use task_tracker::error::TrackerError;
use task_tracker::ops::{add_task, delete, largest_id, list, set_status, update};
use task_tracker::stamp::Stamp;
use task_tracker::store::{decode_records, encode_records, load_tasks, tasks_to_text};
use task_tracker::task::{Task, TaskStatus};

fn epoch() -> Stamp {
    Stamp { secs: 0, nanos: 0, offset: 0 }
}

fn task(id: u32, description: &str, status: TaskStatus) -> Task {
    Task {
        id,
        description: description.to_string(),
        status,
        created_at: epoch(),
        updated_at: epoch(),
    }
}

fn args(words: &[&str]) -> Vec<String> {
    let mut v = vec!["task-tracker".to_string()];
    for w in words {
        v.push(w.to_string());
    }
    v
}

fn ids(tasks: &[Task]) -> Vec<u32> {
    tasks.iter().map(|t| t.id).collect()
}

#[test]
fn add_to_empty_store() {
    let mut tasks: Vec<Task> = Vec::new();
    let now = Stamp { secs: 1_700_000_000, nanos: 5, offset: 3600 };
    assert_eq!(add_task(&mut tasks, "buy milk".to_string(), now), Ok(1));
    assert_eq!(tasks.len(), 1);
    assert_eq!(tasks[0].id, 1);
    assert_eq!(tasks[0].description, "buy milk");
    assert_eq!(tasks[0].status, TaskStatus::Todo);
    assert_eq!(tasks[0].created_at, now);
    assert_eq!(tasks[0].updated_at, now);
}

#[test]
fn delete_then_add_uses_largest_id() {
    let mut tasks = vec![task(1, "a", TaskStatus::Todo), task(2, "b", TaskStatus::Todo)];
    delete(&mut tasks, 1);
    assert_eq!(ids(&tasks), vec![2]);
    assert_eq!(add_task(&mut tasks, "new".to_string(), epoch()), Ok(3));
    assert_eq!(ids(&tasks), vec![2, 3]);
}

#[test]
fn mark_done_then_list() {
    let mut tasks = vec![task(5, "five", TaskStatus::Todo)];
    set_status(&mut tasks, 5, TaskStatus::Done);
    let done = list(&tasks, TaskStatus::Done);
    assert_eq!(ids(&done), vec![5]);
    assert!(list(&tasks, TaskStatus::Todo).is_empty());
}

#[test]
fn update_missing_id_is_no_op() {
    let mut tasks = vec![task(1, "a", TaskStatus::Todo), task(2, "b", TaskStatus::Done)];
    let before = vec![task(1, "a", TaskStatus::Todo), task(2, "b", TaskStatus::Done)];
    update(&mut tasks, 99, "x");
    assert_eq!(tasks, before);
    delete(&mut tasks, 99);
    assert_eq!(tasks, before);
    set_status(&mut tasks, 99, TaskStatus::InProgress);
    assert_eq!(tasks, before);
}

#[test]
fn update_changes_only_the_description() {
    let mut tasks = vec![task(1, "a", TaskStatus::Todo), task(2, "b", TaskStatus::Done)];
    update(&mut tasks, 2, "changed");
    assert_eq!(tasks[1].description, "changed");
    assert_eq!(tasks[1].status, TaskStatus::Done);
    assert_eq!(tasks[1].updated_at, epoch());
    assert_eq!(tasks[0], task(1, "a", TaskStatus::Todo));
}

#[test]
fn record_missing_description_is_dropped() {
    let text = r#"[{"id":"1","status":"todo","createdAt":"2024-01-01 00:00:00 +00:00","updatedAt":"2024-01-01 00:00:00 +00:00"},
        {"id":"2","description":"kept","status":"done","createdAt":"2024-01-01 00:00:00 +00:00","updatedAt":"2024-01-01 00:00:00 +00:00"}]"#;
    let tasks = load_tasks(Some(text)).unwrap();
    assert_eq!(ids(&tasks), vec![2]);
    assert_eq!(tasks[0].description, "kept");
    assert_eq!(tasks[0].status, TaskStatus::Done);
}

#[test]
fn record_with_bogus_status_is_fatal() {
    let text = r#"[{"id":"1","description":"x","status":"bogus","createdAt":"2024-01-01 00:00:00 +00:00","updatedAt":"2024-01-01 00:00:00 +00:00"}]"#;
    assert_eq!(load_tasks(Some(text)), Err(TrackerError::CorruptStatus));
}

#[test]
fn record_with_bad_timestamp_is_fatal() {
    let text = r#"[{"id":"1","description":"x","status":"todo","createdAt":"yesterday","updatedAt":"2024-01-01 00:00:00 +00:00"}]"#;
    assert_eq!(load_tasks(Some(text)), Err(TrackerError::CorruptTimestamp));
}

#[test]
fn record_with_unreadable_id_is_dropped() {
    let text = r#"[{"id":"one","description":"x","status":"todo","createdAt":"2024-01-01 00:00:00 +00:00","updatedAt":"2024-01-01 00:00:00 +00:00"},
        {"id":7,"description":"y","status":"todo","createdAt":"2024-01-01 00:00:00 +00:00","updatedAt":"2024-01-01 00:00:00 +00:00"}]"#;
    assert_eq!(load_tasks(Some(text)), Ok(Vec::new()));
}

#[test]
fn record_round_trip() {
    let t = Task {
        id: 42,
        description: "write \"report\"".to_string(),
        status: TaskStatus::InProgress,
        created_at: Stamp { secs: 1_700_000_000, nanos: 250_000_000, offset: 7200 },
        updated_at: Stamp { secs: -86_401, nanos: 0, offset: -18_000 },
    };
    let value = t.to_json();
    assert_eq!(value["id"].as_str(), Some("42"));
    assert_eq!(value["status"].as_str(), Some("in-progress"));
    assert_eq!(Task::from_json(&value), Ok(Some(t)));
}

#[test]
fn collection_round_trip_through_text() {
    let tasks = vec![
        task(1, "a", TaskStatus::Todo),
        task(3, "b", TaskStatus::Done),
        task(4, "c", TaskStatus::InProgress),
    ];
    let text = tasks_to_text(&tasks);
    assert_eq!(load_tasks(Some(&text)), Ok(tasks));
}

#[test]
fn encode_then_decode_records() {
    let tasks = vec![task(9, "z", TaskStatus::Done)];
    let values = encode_records(&tasks);
    assert_eq!(values.len(), 1);
    assert_eq!(values[0]["description"].as_str(), Some("z"));
    assert_eq!(decode_records(&values), Ok(tasks));
}

#[test]
fn load_without_file_or_text_is_empty() {
    assert_eq!(load_tasks(None), Ok(Vec::new()));
    assert_eq!(load_tasks(Some("")), Ok(Vec::new()));
}

#[test]
fn load_of_malformed_text_fails() {
    assert_eq!(load_tasks(Some("[{")), Err(TrackerError::MalformedFile));
}

#[test]
fn load_of_non_array_is_empty() {
    assert_eq!(load_tasks(Some("{\"id\":\"1\"}")), Ok(Vec::new()));
}

#[test]
fn adds_number_without_gaps() {
    let mut tasks: Vec<Task> = Vec::new();
    for i in 1..=5u32 {
        assert_eq!(add_task(&mut tasks, format!("t{i}"), epoch()), Ok(i));
    }
    assert_eq!(ids(&tasks), vec![1, 2, 3, 4, 5]);
    delete(&mut tasks, 5);
    assert_eq!(add_task(&mut tasks, "again".to_string(), epoch()), Ok(5));
}

#[test]
fn add_follows_largest_id_not_last() {
    let mut tasks = vec![task(8, "a", TaskStatus::Todo), task(3, "b", TaskStatus::Todo)];
    assert_eq!(largest_id(&tasks), 8);
    assert_eq!(add_task(&mut tasks, "c".to_string(), epoch()), Ok(9));
}

#[test]
fn add_fails_when_ids_are_exhausted() {
    let mut tasks = vec![task(u32::MAX, "a", TaskStatus::Todo)];
    assert_eq!(add_task(&mut tasks, "b".to_string(), epoch()), Err(TrackerError::IdsExhausted));
    assert_eq!(tasks.len(), 1);
}

#[test]
fn mark_done_twice_is_mark_done_once() {
    let mut once = vec![task(1, "a", TaskStatus::Todo), task(2, "b", TaskStatus::InProgress)];
    let mut twice = vec![task(1, "a", TaskStatus::Todo), task(2, "b", TaskStatus::InProgress)];
    set_status(&mut once, 2, TaskStatus::Done);
    set_status(&mut twice, 2, TaskStatus::Done);
    set_status(&mut twice, 2, TaskStatus::Done);
    assert_eq!(once, twice);
    assert_eq!(once[1].status, TaskStatus::Done);
}

#[test]
fn list_keeps_collection_order() {
    let tasks = vec![
        task(4, "a", TaskStatus::Done),
        task(1, "b", TaskStatus::Todo),
        task(7, "c", TaskStatus::Done),
        task(2, "d", TaskStatus::InProgress),
    ];
    assert_eq!(ids(&list(&tasks, TaskStatus::Done)), vec![4, 7]);
    assert_eq!(ids(&list(&tasks, TaskStatus::InProgress)), vec![2]);
    assert_eq!(ids(&list(&tasks, TaskStatus::Todo)), vec![1]);
}

#[test]
fn decimal_text_of_ids() {
    assert_eq!(u32_to_text(0), "0");
    assert_eq!(u32_to_text(305), "305");
    assert_eq!(u32_to_text(u32::MAX), "4294967295");
    assert_eq!(parse_u32("4294967295"), Some(u32::MAX));
    assert_eq!(parse_u32("4294967296"), None);
    assert_eq!(parse_u32("007"), Some(7));
    assert_eq!(parse_u32(""), None);
    assert_eq!(parse_u32("12a"), None);
    assert_eq!(parse_u32("-1"), None);
    assert_eq!(parse_u32("+12"), Some(12));
    assert_eq!(parse_u32("+"), None);
    assert_eq!(parse_u32("++1"), None);
}

#[test]
fn stamp_text_is_chrono_display() {
    let s = Stamp { secs: 0, nanos: 0, offset: 0 };
    assert_eq!(s.to_text(), "1970-01-01 00:00:00 +00:00");
    let t = Stamp { secs: 1_431_648_000, nanos: 250_000_000, offset: 3600 };
    assert_eq!(t.to_text(), "2015-05-15 01:00:00.250 +01:00");
    assert_eq!(Stamp::from_text(&t.to_text()), Some(t));
    assert_eq!(Stamp::from_text("2015-05-15T01:00:00+01:00"), Some(Stamp { secs: 1_431_648_000, nanos: 0, offset: 3600 }));
    assert_eq!(Stamp::from_text("not a time"), None);
}

#[test]
fn stamp_validity() {
    assert!(epoch().is_valid());
    assert!(!Stamp { secs: 0, nanos: 1_000_000_000, offset: 0 }.is_valid());
    assert!(!Stamp { secs: 0, nanos: 0, offset: 86_400 }.is_valid());
}

#[test]
fn status_tokens() {
    assert_eq!(TaskStatus::InProgress.token(), "in-progress");
    assert_eq!(TaskStatus::from_token("done"), Some(TaskStatus::Done));
    assert_eq!(TaskStatus::from_token("Done"), None);
}

#[test]
fn build_reads_each_command() {
    assert!(matches!(Cli::build(&args(&["add", "buy milk"])).unwrap().subcommand, EnumSubCommands::Add(c) if c.description == "buy milk"));
    assert!(matches!(Cli::build(&args(&["update", "3", "x"])).unwrap().subcommand, EnumSubCommands::Update(c) if c.id == 3 && c.description == "x"));
    assert!(matches!(Cli::build(&args(&["delete", "4"])).unwrap().subcommand, EnumSubCommands::Delete(c) if c.id == 4));
    assert!(matches!(Cli::build(&args(&["mark-in-progress", "5"])).unwrap().subcommand, EnumSubCommands::MarkInProgress(c) if c.id == 5));
    assert!(matches!(Cli::build(&args(&["mark-done", "6"])).unwrap().subcommand, EnumSubCommands::MarkDone(c) if c.id == 6));
    assert!(matches!(Cli::build(&args(&["list", "in-progress"])).unwrap().subcommand, EnumSubCommands::List(c) if c.status == TaskStatus::InProgress));
}

#[test]
fn build_errors() {
    assert!(matches!(Cli::build(&args(&[])), Err(TrackerError::UnknownCommand)));
    assert!(matches!(Cli::build(&args(&["remove", "1"])), Err(TrackerError::UnknownCommand)));
    assert!(matches!(Cli::build(&args(&["add"])), Err(TrackerError::MissingArgument)));
    assert!(matches!(Cli::build(&args(&["update", "1"])), Err(TrackerError::MissingArgument)));
    assert!(matches!(Cli::build(&args(&["update", "x", "y"])), Err(TrackerError::BadId)));
    assert!(matches!(Cli::build(&args(&["delete"])), Err(TrackerError::MissingArgument)));
    assert!(matches!(Cli::build(&args(&["mark-done", "two"])), Err(TrackerError::BadId)));
    assert!(matches!(Cli::build(&args(&["list", "finished"])), Err(TrackerError::BadStatus)));
}

#[test]
fn run_applies_commands() {
    let mut tasks: Vec<Task> = Vec::new();
    let add = Cli::build(&args(&["add", "first"])).unwrap();
    assert!(add.saves());
    assert_eq!(add.run(&mut tasks, epoch()), Ok(Vec::new()));
    let done = Cli::build(&args(&["mark-done", "1"])).unwrap();
    assert_eq!(done.run(&mut tasks, epoch()), Ok(Vec::new()));
    let listing = Cli::build(&args(&["list", "done"])).unwrap();
    assert!(!listing.saves());
    let shown = listing.run(&mut tasks, epoch()).unwrap();
    assert_eq!(ids(&shown), vec![1]);
    assert_eq!(tasks.len(), 1);
    let del = Cli::build(&args(&["delete", "1"])).unwrap();
    assert_eq!(del.run(&mut tasks, epoch()), Ok(Vec::new()));
    assert!(tasks.is_empty());
}

#[test]
fn leap_second_stamp_is_read() {
    let s = Stamp::from_text("2016-12-31 23:59:60.500 +00:00").unwrap();
    assert_eq!(s, Stamp { secs: 1_483_228_799, nanos: 1_500_000_000, offset: 0 });
    assert!(s.is_valid());
    assert_eq!(Stamp::from_text(&s.to_text()), Some(s));
    assert!(Stamp { secs: -1, nanos: 1_500_000_000, offset: 0 }.is_valid());
    assert!(!Stamp { secs: 58, nanos: 1_500_000_000, offset: 0 }.is_valid());
}

#[test]
fn record_missing_field_is_gone_after_rewrite() {
    let text = r#"[{"id":"1","description":"a","status":"todo","createdAt":"2024-01-01 00:00:00 +00:00"},
        {"id":"2","description":"b","status":"todo","createdAt":"2024-01-01 00:00:00 +00:00","updatedAt":"2024-01-01 00:00:00 +00:00"}]"#;
    let mut tasks = load_tasks(Some(text)).unwrap();
    update(&mut tasks, 2, "b2");
    let saved = tasks_to_text(&tasks);
    let stored = json::parse(&saved).unwrap();
    assert_eq!(stored.len(), 1);
    assert_eq!(stored[0]["id"].as_str(), Some("2"));
    assert_eq!(stored[0]["description"].as_str(), Some("b2"));
    assert_eq!(load_tasks(Some(&saved)).unwrap(), tasks);
}

#[test]
fn empty_collection_saves_as_empty_array() {
    let saved = tasks_to_text(&Vec::new());
    assert_eq!(saved, "[]");
    assert_eq!(load_tasks(Some(&saved)), Ok(Vec::new()));
}

#[test]
fn saved_text_keeps_escaped_characters() {
    let tasks = vec![task(1, "tab\there \"quoted\" back\\slash\nline \u{1} ünï 日本", TaskStatus::Todo)];
    let saved = tasks_to_text(&tasks);
    assert_eq!(load_tasks(Some(&saved)), Ok(tasks));
}
