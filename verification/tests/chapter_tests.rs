use encoder::chapter::{
    consider, modify_or_push_chapter, Chapter, Decision, LiveStatus, LiveStatusType,
};
use encoder::time::Time;

fn seen(secs: u64, title: &str, category: Option<&str>) -> Chapter {
    Chapter(
        Time::from_secs(secs),
        LiveStatus {
            status: LiveStatusType::Open,
            live_title: title.to_owned(),
            live_category: category.map(|c| c.to_owned()),
        },
    )
}

fn record(inputs: &[(u64, &str, &str)]) -> Vec<Chapter> {
    let mut chapters = Vec::new();
    for (secs, title, category) in inputs {
        modify_or_push_chapter(&mut chapters, seen(*secs, title, Some(category)));
    }
    chapters
}

#[test]
fn first_status_is_appended() {
    let mut chapters = Vec::new();
    assert!(modify_or_push_chapter(&mut chapters, seen(0, "A", Some("x"))));
    assert_eq!(chapters, vec![seen(0, "A", Some("x"))]);
}

#[test]
fn closed_status_is_ignored() {
    let mut closed = seen(5, "B", Some("y"));
    closed.1.status = LiveStatusType::Close;
    let mut chapters = Vec::new();
    assert!(!modify_or_push_chapter(&mut chapters, closed.clone()));
    assert!(chapters.is_empty());
    let mut chapters = vec![seen(0, "A", Some("x"))];
    assert_eq!(consider(&chapters, &closed), Decision::Ignore);
    assert!(!modify_or_push_chapter(&mut chapters, closed));
    assert_eq!(chapters, vec![seen(0, "A", Some("x"))]);
}

#[test]
fn repeats_within_the_window_keep_one_chapter() {
    let chapters = record(&[(10, "A", "x"), (15, "A", "x"), (40, "A", "x"), (70, "A", "x")]);
    assert_eq!(chapters, vec![seen(10, "A", Some("x"))]);
}

#[test]
fn category_is_corrected_in_place() {
    let chapters = record(&[(100, "A", "cat1"), (130, "A", "cat2")]);
    assert_eq!(chapters, vec![seen(100, "A", Some("cat2"))]);
}

#[test]
fn category_correction_reports_a_change() {
    let mut chapters = vec![seen(100, "A", Some("cat1"))];
    let next = seen(130, "A", None);
    assert_eq!(consider(&chapters, &next), Decision::RewriteCategoryOf(0));
    assert!(modify_or_push_chapter(&mut chapters, next));
    assert_eq!(chapters, vec![seen(100, "A", None)]);
}

#[test]
fn title_change_appends_within_the_window() {
    let chapters = record(&[(0, "A", "x"), (5, "B", "x")]);
    assert_eq!(chapters, vec![seen(0, "A", Some("x")), seen(5, "B", Some("x"))]);
}

#[test]
fn window_includes_sixty_seconds() {
    let chapters = vec![seen(0, "A", Some("x")), seen(10, "B", Some("x"))];
    assert_eq!(consider(&chapters, &seen(60, "A", Some("y"))), Decision::RewriteCategoryOf(0));
    assert_eq!(consider(&chapters, &seen(60, "A", Some("x"))), Decision::Ignore);
}

#[test]
fn repeat_after_the_window_is_appended_when_it_differs_from_the_latest() {
    let chapters = record(&[(0, "A", "x"), (30, "B", "x"), (61, "A", "x")]);
    assert_eq!(
        chapters,
        vec![seen(0, "A", Some("x")), seen(30, "B", Some("x")), seen(61, "A", Some("x"))]
    );
    let chapters = record(&[(0, "A", "x"), (61, "A", "y")]);
    assert_eq!(chapters, vec![seen(0, "A", Some("x")), seen(61, "A", Some("y"))]);
}

#[test]
fn repeat_of_the_latest_chapter_after_the_window_is_ignored() {
    let mut chapters = vec![seen(0, "A", Some("x"))];
    assert_eq!(consider(&chapters, &seen(61, "A", Some("x"))), Decision::Ignore);
    assert!(!modify_or_push_chapter(&mut chapters, seen(61, "A", Some("x"))));
    assert_eq!(chapters, vec![seen(0, "A", Some("x"))]);
}

#[test]
fn oldest_match_in_the_window_is_rewritten() {
    let chapters = vec![
        seen(0, "A", Some("x")),
        seen(50, "A", Some("y")),
        seen(55, "B", Some("y")),
        seen(70, "A", Some("z")),
    ];
    assert_eq!(consider(&chapters, &seen(100, "A", Some("w"))), Decision::RewriteCategoryOf(1));
    assert_eq!(consider(&chapters, &seen(100, "A", Some("y"))), Decision::Ignore);
}

#[test]
fn first_of_equal_offsets_is_rewritten() {
    let chapters = vec![seen(20, "A", Some("x")), seen(20, "A", Some("y"))];
    assert_eq!(consider(&chapters, &seen(30, "A", Some("y"))), Decision::RewriteCategoryOf(0));
}

#[test]
fn later_entries_count_as_inside_the_window() {
    let chapters = vec![seen(500, "A", Some("x"))];
    assert_eq!(consider(&chapters, &seen(100, "A", Some("y"))), Decision::RewriteCategoryOf(0));
}

#[test]
fn category_change_alone_appends_after_the_window() {
    let chapters = record(&[(0, "A", "x"), (100, "A", "y")]);
    assert_eq!(chapters, vec![seen(0, "A", Some("x")), seen(100, "A", Some("y"))]);
}
