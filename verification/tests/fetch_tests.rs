use rust_svc::error::AppError;
use rust_svc::fetch::{FetchAction, NewsFetch, MAX_SCANNED_STORIES};
use rust_svc::news::{is_devops, HnItem, NewsItem};

/// Plays the part of the Hacker News API: answers each action of the
/// collection with the ids or with the item that `item` gives for an id.
/// Returns the stories and the ids of the items that were requested.
fn drive(
    start: (NewsFetch, FetchAction),
    ids: Vec<u32>,
    item: &dyn Fn(u32) -> HnItem,
) -> (Vec<NewsItem>, Vec<u32>) {
    let (mut fetch, mut action) = start;
    let mut stories = Some(ids);
    let mut requested = Vec::new();
    loop {
        match action {
            FetchAction::GetStories => {
                let got = stories.take().expect("stories requested twice");
                let next = fetch.on_stories(got);
                fetch = next.0;
                action = next.1;
            }
            FetchAction::GetItem(id) => {
                requested.push(id);
                let next = fetch.on_item(item(id));
                fetch = next.0;
                action = next.1;
            }
            FetchAction::Done(items) => return (items, requested),
        }
    }
}

fn titled(id: u32, title: &str, by: &str, score: u32) -> HnItem {
    HnItem {
        id,
        title: Some(title.to_string()),
        by: Some(by.to_string()),
        url: None,
        score: Some(score),
    }
}

#[test]
fn fetch_returns_n_items() {
    let item = |id: u32| match id {
        101 => titled(101, "Test A", "alice", 42),
        102 => titled(102, "Test B", "bob", 10),
        _ => panic!("unexpected request for {}", id),
    };
    let (result, requested) = drive(NewsFetch::top(2), vec![101, 102, 103, 104], &item);
    assert_eq!(result.len(), 2);
    assert_eq!(requested, vec![101, 102]);
}

#[test]
fn fetch_maps_fields_correctly() {
    let item = |id: u32| HnItem {
        id,
        title: Some("Rust is great".to_string()),
        by: Some("ferris".to_string()),
        url: Some("https://rust-lang.org".to_string()),
        score: Some(999),
    };
    let (result, _) = drive(NewsFetch::top(1), vec![99], &item);
    let item = &result[0];
    assert_eq!(item.id, 99);
    assert_eq!(item.title, "Rust is great");
    assert_eq!(item.author, "ferris");
    assert_eq!(item.score, 999);
    assert_eq!(item.url.as_deref(), Some("https://rust-lang.org"));
}

#[test]
fn fetch_handles_missing_optional_fields() {
    let item = |id: u32| HnItem { id, title: None, by: None, url: None, score: None };
    let (result, _) = drive(NewsFetch::top(1), vec![55], &item);
    let item = &result[0];
    assert_eq!(item.id, 55);
    assert_eq!(item.title, "");
    assert_eq!(item.author, "");
    assert_eq!(item.score, 0);
    assert!(item.url.is_none());
}

#[test]
fn fetch_returns_empty_when_no_stories() {
    let item = |id: u32| -> HnItem { panic!("unexpected request for {}", id) };
    let (result, requested) = drive(NewsFetch::top(5), vec![], &item);
    assert!(result.is_empty());
    assert!(requested.is_empty());
}

#[test]
fn fetch_top_keeps_story_order() {
    let item = |id: u32| titled(id, &format!("story {}", id), "u", id);
    let (result, requested) = drive(NewsFetch::top(3), vec![7, 3, 9, 1], &item);
    let ids: Vec<u32> = result.iter().map(|n| n.id).collect();
    assert_eq!(ids, vec![7, 3, 9]);
    assert_eq!(requested, vec![7, 3, 9]);
}

#[test]
fn fetch_top_zero_requests_nothing() {
    let item = |id: u32| -> HnItem { panic!("unexpected request for {}", id) };
    let (result, requested) = drive(NewsFetch::top(0), vec![1, 2, 3], &item);
    assert!(result.is_empty());
    assert!(requested.is_empty());
}

#[test]
fn fetch_devops_returns_only_matching_items() {
    let item = |id: u32| match id {
        201 => titled(201, "Kubernetes 1.30 released", "ops", 80),
        202 => titled(202, "A new JS framework", "web", 10),
        203 => titled(203, "CI/CD pipelines with GitHub Actions", "dev", 55),
        _ => panic!("unexpected request for {}", id),
    };
    let (result, _) = drive(NewsFetch::devops(10), vec![201, 202, 203], &item);
    assert_eq!(result.len(), 2);
    assert!(result.iter().all(|i| is_devops(&i.title)));
}

#[test]
fn fetch_devops_respects_limit() {
    let item = |id: u32| match id {
        301 => titled(301, "DevOps 1", "u", 1),
        302 => titled(302, "DevOps 2", "u", 1),
        303 => titled(303, "DevOps 3", "u", 1),
        _ => panic!("unexpected request for {}", id),
    };
    let (result, requested) = drive(NewsFetch::devops(2), vec![301, 302, 303], &item);
    assert!(result.len() <= 2);
    assert_eq!(result.len(), 2);
    assert_eq!(requested, vec![301, 302]);
}

#[test]
fn fetch_devops_returns_empty_when_no_match() {
    let item = |id: u32| match id {
        401 => titled(401, "New Python release", "py", 5),
        _ => panic!("unexpected request for {}", id),
    };
    let (result, _) = drive(NewsFetch::devops(10), vec![401], &item);
    assert!(result.is_empty());
}

#[test]
fn fetch_devops_filters_non_devops_items() {
    let item = |id: u32| match id {
        601 => titled(601, "Ask HN: best recipes", "chef", 3),
        602 => titled(602, "CI/CD with GitHub Actions", "dev", 77),
        _ => panic!("unexpected request for {}", id),
    };
    let (result, _) = drive(NewsFetch::devops(20), vec![601, 602], &item);
    assert_eq!(result.len(), 1);
    assert!(result[0].title.to_lowercase().contains("ci/cd"));
}

#[test]
fn fetch_devops_scans_at_most_two_hundred_stories() {
    let ids: Vec<u32> = (1..=250).collect();
    let item = |id: u32| titled(id, if id == 230 { "Docker news" } else { "other" }, "u", 1);
    let (result, requested) = drive(NewsFetch::devops(20), ids, &item);
    assert_eq!(requested.len(), MAX_SCANNED_STORIES);
    assert_eq!(requested, (1..=200).collect::<Vec<u32>>());
    assert!(result.is_empty());
}

#[test]
fn fetch_devops_stops_after_limit_reached() {
    let item = |id: u32| titled(id, if id % 2 == 0 { "helm chart" } else { "gardening" }, "u", id);
    let (result, requested) = drive(NewsFetch::devops(2), vec![1, 2, 3, 4, 5, 6, 7, 8], &item);
    let ids: Vec<u32> = result.iter().map(|n| n.id).collect();
    assert_eq!(ids, vec![2, 4]);
    assert_eq!(requested, vec![1, 2, 3, 4]);
}

#[test]
fn fetch_devops_zero_limit_requests_nothing() {
    let item = |id: u32| -> HnItem { panic!("unexpected request for {}", id) };
    let (result, requested) = drive(NewsFetch::devops(0), vec![1, 2], &item);
    assert!(result.is_empty());
    assert!(requested.is_empty());
}

#[test]
fn fetch_failure_is_internal_error() {
    let (fetch, action) = NewsFetch::top(3);
    assert!(matches!(action, FetchAction::GetStories));
    let err = fetch.on_failure("connection refused".to_string());
    assert_eq!(err.status_code(), 500);
    assert!(matches!(&err, AppError::Internal(m) if m == "connection refused"));
}

#[test]
fn fetch_failure_during_items_is_internal_error() {
    let (fetch, _) = NewsFetch::devops(3);
    let (fetch, action) = fetch.on_stories(vec![5, 6]);
    assert!(matches!(action, FetchAction::GetItem(5)));
    let err = fetch.on_failure("timeout".to_string());
    assert_eq!(err.message(), "Error interno: timeout");
    assert_eq!(err.status_code(), 500);
}
