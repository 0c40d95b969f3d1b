use dir_crawler::app_state::{search, MyApp};
use dir_crawler::message::AppMessage;
use dir_crawler::session::{WalkAction, WalkEvent};
use dir_crawler::text::{clipboard_text, decimal_text, repeat_text};

fn strings(list: &[&str]) -> Vec<String> {
    list.iter().map(|p| p.to_string()).collect()
}

fn blank() -> MyApp {
    let mut app = MyApp::new();
    app.root_dirs.clear();
    app.subdirs.clear();
    app.ignore_patterns.clear();
    app
}

#[test]
fn the_start_up_state() {
    let app = MyApp::new();
    assert_eq!(app.root_dirs, strings(&["D:\\Repos", "G:\\ml", "G:\\Repos"]));
    assert_eq!(app.ignore_patterns, strings(&[".git"]));
    assert_eq!(app.search_text, "");
    assert_eq!(app.new_pattern_input, "");
    assert_eq!(app.search_results, None);
    assert!(!app.indexing_in_progress);
    assert_eq!(app.subdirs.len(), 1999);
    for (i, row) in app.subdirs.iter().enumerate() {
        assert_eq!(*row, format!("Subdir {} - {}", i + 1, "asd".repeat(45)));
    }
}

#[test]
fn decimal_numerals() {
    assert_eq!(decimal_text(0), "0");
    assert_eq!(decimal_text(7), "7");
    assert_eq!(decimal_text(10), "10");
    assert_eq!(decimal_text(1999), "1999");
    assert_eq!(decimal_text(4294967295), "4294967295");
}

#[test]
fn repeated_text() {
    assert_eq!(repeat_text("asd", 0), "");
    assert_eq!(repeat_text("asd", 3), "asdasdasd");
    assert_eq!(repeat_text("", 5), "");
}

#[test]
fn a_refresh_clears_and_hands_out_a_session() {
    let mut app = blank();
    app.root_dirs = strings(&["/tmp/a", "/tmp/b"]);
    app.ignore_patterns = strings(&[".git"]);
    app.subdirs = strings(&["/old/one", "/old/two"]);
    app.search_results = Some(("old".to_string(), strings(&["/old/one"])));
    let mut session = app.refresh_subdirs();
    assert!(app.subdirs.is_empty());
    assert_eq!(app.search_results, None);
    assert!(app.indexing_in_progress);
    assert_eq!(app.root_dirs, strings(&["/tmp/a", "/tmp/b"]));
    assert_eq!(app.ignore_patterns, strings(&[".git"]));
    assert_eq!(session.pending(), WalkAction::Open("/tmp/a".to_string()));

    app.ignore_patterns.clear();
    app.root_dirs.clear();
    let pruned = WalkEvent::Entry { path: "/tmp/a/.git".to_string(), is_dir: true };
    assert_eq!(session.step(pruned), Some(WalkAction::SkipSubtree));
    assert_eq!(session.step(WalkEvent::Exhausted), Some(WalkAction::Open("/tmp/b".to_string())));
}

#[test]
fn messages_are_applied_in_order() {
    let mut app = blank();
    app.indexing_in_progress = true;
    app.apply_messages(vec![
        AppMessage::Subdir("/tmp/a".to_string()),
        AppMessage::Subdir("/tmp/a/x".to_string()),
    ]);
    assert_eq!(app.subdirs, strings(&["/tmp/a", "/tmp/a/x"]));
    assert!(app.indexing_in_progress);
    app.apply_messages(vec![]);
    assert_eq!(app.subdirs, strings(&["/tmp/a", "/tmp/a/x"]));
    assert!(app.indexing_in_progress);
    app.apply_messages(vec![AppMessage::Subdir("/tmp/b".to_string()), AppMessage::Done]);
    assert_eq!(app.subdirs, strings(&["/tmp/a", "/tmp/a/x", "/tmp/b"]));
    assert!(!app.indexing_in_progress);
}

#[test]
fn one_message_at_a_time() {
    let mut app = blank();
    app.indexing_in_progress = true;
    app.apply_message(AppMessage::Subdir("/x".to_string()));
    assert_eq!(app.subdirs, strings(&["/x"]));
    assert!(app.indexing_in_progress);
    app.apply_message(AppMessage::Done);
    assert_eq!(app.subdirs, strings(&["/x"]));
    assert!(!app.indexing_in_progress);
    app.apply_message(AppMessage::Subdir("/y".to_string()));
    assert!(!app.indexing_in_progress);
    assert_eq!(app.subdirs, strings(&["/x", "/y"]));
}

#[test]
fn search_keeps_matching_lines_in_order() {
    let lines = strings(&["/a/git", "/b", "/c/digital", "/GIT", "/git/x"]);
    assert_eq!(search(&lines, "git"), strings(&["/a/git", "/c/digital", "/git/x"]));
    assert_eq!(search(&lines, "zzz"), Vec::<String>::new());
    assert_eq!(search(&lines, ""), lines);
    assert_eq!(search(&[], "git"), Vec::<String>::new());
}

#[test]
fn run_search_trims_and_lowers_the_needle() {
    let mut app = blank();
    app.subdirs = strings(&["/a/git", "/b", "/c/GIT", "/d/git  "]);
    app.search_text = "  GiT \n".to_string();
    app.run_search();
    assert_eq!(
        app.search_results,
        Some(("git".to_string(), strings(&["/a/git", "/d/git  "])))
    );
    assert_eq!(app.search_text, "  GiT \n");
    assert_eq!(app.subdirs.len(), 4);
}

#[test]
fn run_search_with_an_empty_box_matches_everything() {
    let mut app = blank();
    app.subdirs = strings(&["/a", "/b"]);
    app.search_text = "   ".to_string();
    app.run_search();
    assert_eq!(app.search_results, Some((String::new(), strings(&["/a", "/b"]))));
}

#[test]
fn search_for_keeps_the_needle_as_given() {
    let mut app = blank();
    app.subdirs = strings(&["/a/Git", "/b/git"]);
    app.search_for("Git".to_string());
    assert_eq!(app.search_results, Some(("Git".to_string(), strings(&["/a/Git"]))));
}

#[test]
fn add_pattern_takes_the_trimmed_input() {
    let mut app = blank();
    app.ignore_patterns = strings(&[".git"]);
    app.new_pattern_input = "  target \t".to_string();
    assert!(app.add_pattern());
    assert_eq!(app.ignore_patterns, strings(&[".git", "target"]));
    assert_eq!(app.new_pattern_input, "");
}

#[test]
fn add_pattern_leaves_a_blank_input_alone() {
    let mut app = blank();
    app.ignore_patterns = strings(&[".git"]);
    app.new_pattern_input = "  \t ".to_string();
    assert!(!app.add_pattern());
    assert_eq!(app.ignore_patterns, strings(&[".git"]));
    assert_eq!(app.new_pattern_input, "  \t ");
    assert!(!app.accept_pattern(""));
    assert!(app.accept_pattern(" x "));
    assert_eq!(app.ignore_patterns, strings(&[".git", " x "]));
}

#[test]
fn remove_pattern_closes_the_gap() {
    let mut app = blank();
    app.ignore_patterns = strings(&["a", "b", "c"]);
    app.remove_pattern(1);
    assert_eq!(app.ignore_patterns, strings(&["a", "c"]));
    app.remove_pattern(0);
    assert_eq!(app.ignore_patterns, strings(&["c"]));
    app.remove_pattern(0);
    assert!(app.ignore_patterns.is_empty());
}

#[test]
fn clipboard_text_puts_a_line_feed_between_lines() {
    assert_eq!(clipboard_text(&strings(&["/a", "/b", "/c"])), "/a\n/b\n/c");
    assert_eq!(clipboard_text(&strings(&["/a"])), "/a");
    assert_eq!(clipboard_text(&[]), "");
    assert_eq!(clipboard_text(&strings(&["", ""])), "\n");
}

#[test]
fn two_polls_leave_the_same_state_as_one() {
    let messages = vec![
        AppMessage::Subdir("/a".to_string()),
        AppMessage::Subdir("/a/x".to_string()),
        AppMessage::Done,
        AppMessage::Subdir("/late".to_string()),
    ];
    for cut in 0..=messages.len() {
        let mut one = blank();
        one.indexing_in_progress = true;
        one.apply_messages(messages.clone());
        let mut two = blank();
        two.indexing_in_progress = true;
        two.apply_messages(messages[..cut].to_vec());
        two.apply_messages(messages[cut..].to_vec());
        assert_eq!(one.subdirs, two.subdirs);
        assert_eq!(one.indexing_in_progress, two.indexing_in_progress);
        assert_eq!(one.subdirs, strings(&["/a", "/a/x", "/late"]));
        assert!(!one.indexing_in_progress);
    }
}

#[test]
fn a_crawl_fills_the_list_with_what_the_patterns_allow() {
    let mut app = blank();
    app.root_dirs = strings(&["/r"]);
    app.ignore_patterns = strings(&["skip"]);
    let mut session = app.refresh_subdirs();
    let reports = vec![
        WalkEvent::Entry { path: "/r".to_string(), is_dir: true },
        WalkEvent::Entry { path: "/r/skip".to_string(), is_dir: true },
        WalkEvent::Entry { path: "/r/keep".to_string(), is_dir: true },
        WalkEvent::Exhausted,
    ];
    let mut inbox = vec![];
    let mut action = session.pending();
    let mut next_report = reports.into_iter();
    loop {
        action = match action {
            WalkAction::Stop => break,
            WalkAction::Send(message) => {
                inbox.push(message);
                session.step(WalkEvent::Delivered).unwrap()
            }
            _ => session.step(next_report.next().unwrap()).unwrap(),
        };
    }
    assert!(app.indexing_in_progress);
    app.apply_messages(inbox);
    assert_eq!(app.subdirs, strings(&["/r", "/r/keep"]));
    assert!(!app.indexing_in_progress);
}
