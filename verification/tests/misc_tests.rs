use rust_svc::error::AppError;
use rust_svc::plain_news::{keep_positive_ids, NewsItem};
use rust_svc::stats::summarize_scores;

#[test]
fn scores_summary_skips_zero_scores() {
    let s = summarize_scores(&vec![0, 3, 5, 0]).unwrap();
    assert_eq!(s.total, 2);
    assert_eq!(s.sum, 8);
}

#[test]
fn scores_summary_of_nothing() {
    let s = summarize_scores(&vec![]).unwrap();
    assert_eq!(s.total, 0);
    assert_eq!(s.sum, 0);
    let z = summarize_scores(&vec![0, 0]).unwrap();
    assert_eq!(z.total, 0);
}

#[test]
fn scores_summary_overflow_is_none() {
    assert!(summarize_scores(&vec![u32::MAX, 1]).is_none());
    let s = summarize_scores(&vec![u32::MAX, 0]).unwrap();
    assert_eq!(s.sum, u32::MAX);
}

#[test]
fn keep_positive_ids_drops_zero_ids_in_order() {
    let items = vec![
        NewsItem { id: 3, title: "c".to_string() },
        NewsItem { id: 0, title: "zero".to_string() },
        NewsItem { id: 1, title: "a".to_string() },
    ];
    let kept = keep_positive_ids(items);
    let ids: Vec<u32> = kept.iter().map(|n| n.id).collect();
    assert_eq!(ids, vec![3, 1]);
    assert_eq!(kept[1].title, "a");
}

#[test]
fn error_status_codes() {
    assert_eq!(AppError::Internal("x".to_string()).status_code(), 500);
    assert_eq!(AppError::NotFound.status_code(), 404);
    assert_eq!(AppError::NotFound.message(), "Recurso no encontrado");
    assert_eq!(AppError::Internal("x".to_string()).message(), "Error interno: x");
}

#[test]
fn score_text_is_parsed_then_summarized() {
    let s = rust_svc::stats::summarize_score_text("[0, 3, 5]").unwrap().unwrap();
    assert_eq!(s.total, 2);
    assert_eq!(s.sum, 8);
    let e = rust_svc::stats::summarize_score_text("[]").unwrap().unwrap();
    assert_eq!(e.total, 0);
}

#[test]
fn score_text_that_is_not_an_array_of_u32_is_none() {
    assert!(rust_svc::stats::summarize_score_text("not json").is_none());
    assert!(rust_svc::stats::summarize_score_text("[1, -2]").is_none());
    assert!(rust_svc::stats::summarize_score_text("{\"a\": 1}").is_none());
}

#[test]
fn score_text_overflow_is_some_none() {
    assert!(rust_svc::stats::summarize_score_text("[4294967295, 1]").unwrap().is_none());
}
