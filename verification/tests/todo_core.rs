use workpool::clock::Utc;
use workpool::todo::{Priority, Task};
use workpool::todo_app::TodoApp;

#[test]
fn priority_keywords_read_case_insensitively() {
    assert_eq!(Priority::from_str("low"), Some(Priority::Low));
    assert_eq!(Priority::from_str("L"), Some(Priority::Low));
    assert_eq!(Priority::from_str("Medium"), Some(Priority::Medium));
    assert_eq!(Priority::from_str("MED"), Some(Priority::Medium));
    assert_eq!(Priority::from_str("m"), Some(Priority::Medium));
    assert_eq!(Priority::from_str("HIGH"), Some(Priority::High));
    assert_eq!(Priority::from_str("h"), Some(Priority::High));
    assert_eq!(Priority::from_str("urgent"), None);
    assert_eq!(Priority::from_str(""), None);
}

#[test]
fn priority_labels_and_glyphs() {
    assert_eq!(Priority::Low.to_string(), "Low");
    assert_eq!(Priority::Medium.to_string(), "Medium");
    assert_eq!(Priority::High.to_string(), "High");
    assert_eq!(Priority::Low.emoji(), "\u{1F7E2}");
    assert_eq!(Priority::Medium.emoji(), "\u{1F7E1}");
    assert_eq!(Priority::High.emoji(), "\u{1F534}");
    assert!(Priority::High.rank() < Priority::Medium.rank());
    assert!(Priority::Medium.rank() < Priority::Low.rank());
}

#[test]
fn the_clock_reports_the_fixed_timestamp() {
    let stamp = Utc::now().format("%Y-%m-%d %H:%M:%S").to_string();
    assert_eq!(stamp, "2024-01-01 12:00:00");
}

#[test]
fn a_fresh_task_is_pending_and_timestamped() {
    let t = Task::new(1, "Buy milk".to_string(), Priority::Medium);
    assert_eq!(t.id, 1);
    assert_eq!(t.title, "Buy milk");
    assert!(t.description.is_none());
    assert!(!t.completed);
    assert_eq!(t.priority, Priority::Medium);
    assert_eq!(t.created_at, "2024-01-01 12:00:00");
}

#[test]
fn task_line_round_trip() {
    let mut t = Task::new(7, "Write report".to_string(), Priority::High);
    t.set_description("quarterly numbers".to_string());
    t.toggle_completed();
    let line = t.to_file_format();
    assert_eq!(line, "7|Write report|quarterly numbers|true|High|2024-01-01 12:00:00");
    let back = Task::from_file_format(&line).expect("the line must read back");
    assert_eq!(back.id, 7);
    assert_eq!(back.title, "Write report");
    assert_eq!(back.description.as_deref(), Some("quarterly numbers"));
    assert!(back.completed);
    assert_eq!(back.priority, Priority::High);
    assert_eq!(back.created_at, "2024-01-01 12:00:00");
}

#[test]
fn task_line_without_description() {
    let t = Task::new(2, "Rest".to_string(), Priority::Low);
    let line = t.to_file_format();
    assert_eq!(line, "2|Rest||false|Low|2024-01-01 12:00:00");
    let back = Task::from_file_format(&line).unwrap();
    assert!(back.description.is_none());
}

#[test]
fn malformed_task_lines_are_refused() {
    assert!(Task::from_file_format("").is_none());
    assert!(Task::from_file_format("1|only|four|fields").is_none());
    assert!(Task::from_file_format("x|t||false|Low|now").is_none());
    assert!(Task::from_file_format("1|t||maybe|Low|now").is_none());
    assert!(Task::from_file_format("1|t||false|urgent|now").is_none());
    assert!(Task::from_file_format("1|t||false|Low|now|extra").is_none());
    assert!(Task::from_file_format("4294967296|t||false|Low|now").is_none());
}

#[test]
fn adding_and_removing_tasks() {
    let mut app = TodoApp::new("todos.txt".to_string());
    let a = app.add_task("first".to_string(), Priority::Medium);
    let b = app.add_task("second".to_string(), Priority::High);
    assert_eq!(a, 1);
    assert_eq!(b, 2);
    assert_eq!(app.len(), 2);
    assert!(app.remove_task(a));
    assert!(!app.remove_task(a));
    assert_eq!(app.len(), 1);
    let c = app.add_task("third".to_string(), Priority::Low);
    assert_eq!(c, 3);
}

#[test]
fn toggling_and_describing_tasks() {
    let mut app = TodoApp::new("todos.txt".to_string());
    let id = app.add_task("laundry".to_string(), Priority::Low);
    assert!(app.toggle_task(id));
    assert!(!app.toggle_task(99));
    assert!(app.update_description(id, "whites only".to_string()));
    assert!(!app.update_description(99, "nobody".to_string()));
    let (total, completed, pending) = app.get_stats();
    assert_eq!((total, completed, pending), (1, 1, 0));
    assert!(app.toggle_task(id));
    let (total, completed, pending) = app.get_stats();
    assert_eq!((total, completed, pending), (1, 0, 1));
}

#[test]
fn listing_sorts_by_priority_then_id() {
    let mut app = TodoApp::new("todos.txt".to_string());
    app.add_task("a-low".to_string(), Priority::Low);
    app.add_task("b-high".to_string(), Priority::High);
    app.add_task("c-medium".to_string(), Priority::Medium);
    app.add_task("d-high".to_string(), Priority::High);
    let listing = app.list_tasks(None);
    let titles: Vec<&str> = listing.iter().map(|t| t.title.as_str()).collect();
    assert_eq!(titles, vec!["b-high", "d-high", "c-medium", "a-low"]);
}

#[test]
fn listing_filters_by_keyword() {
    let mut app = TodoApp::new("todos.txt".to_string());
    let low = app.add_task("a".to_string(), Priority::Low);
    app.add_task("b".to_string(), Priority::High);
    app.toggle_task(low);
    assert_eq!(app.list_tasks(Some("completed")).len(), 1);
    assert_eq!(app.list_tasks(Some("pending")).len(), 1);
    assert_eq!(app.list_tasks(Some("high")).len(), 1);
    assert_eq!(app.list_tasks(Some("medium")).len(), 0);
    assert_eq!(app.list_tasks(Some("low")).len(), 1);
    assert_eq!(app.list_tasks(Some("everything")).len(), 2);
}

#[test]
fn file_contents_round_trip() {
    let mut app = TodoApp::new("todos.txt".to_string());
    app.add_task("first".to_string(), Priority::Medium);
    let second = app.add_task("second".to_string(), Priority::High);
    app.toggle_task(second);
    app.update_description(second, "soon".to_string());
    let contents = app.to_file_contents();
    assert_eq!(
        contents,
        "1|first||false|Medium|2024-01-01 12:00:00\n2|second|soon|true|High|2024-01-01 12:00:00"
    );

    let mut copy = TodoApp::new("todos.txt".to_string());
    copy.load_from_lines(&contents);
    assert_eq!(copy.len(), 2);
    let (total, completed, pending) = copy.get_stats();
    assert_eq!((total, completed, pending), (2, 1, 1));
    let next = copy.add_task("third".to_string(), Priority::Low);
    assert_eq!(next, 3);
}

#[test]
fn loading_replaces_tasks_with_the_same_identifier() {
    let mut app = TodoApp::new("todos.txt".to_string());
    app.add_task("original".to_string(), Priority::Low);
    app.load_from_lines("1|replacement||true|High|2024-01-01 12:00:00\nnot a task line");
    assert_eq!(app.len(), 1);
    let listing = app.list_tasks(None);
    assert_eq!(listing[0].title, "replacement");
    assert!(listing[0].completed);
    assert_eq!(listing[0].priority, Priority::High);
}
