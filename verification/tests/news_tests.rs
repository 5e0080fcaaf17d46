use rust_svc::news::{contains_devops_keyword, devops_keyword_list, is_devops, HnItem, NewsItem};
use rust_svc::text::{chars_of, contains_chars};

#[test]
fn is_devops_matches_keyword() {
    assert!(is_devops("How Kubernetes changed our pipeline"));
    assert!(is_devops("DevOps for beginners"));
    assert!(is_devops("CI/CD best practices in 2025"));
    assert!(is_devops("Terraform 2.0 released"));
}

#[test]
fn is_devops_case_insensitive() {
    assert!(is_devops("KUBERNETES is here"));
    assert!(is_devops("Docker Tips & Tricks"));
}

#[test]
fn is_devops_rejects_unrelated() {
    assert!(!is_devops("New JavaScript framework released"));
    assert!(!is_devops("Python 4.0 roadmap"));
}

#[test]
fn is_devops_every_keyword_matches_in_upper_case() {
    for kw in devops_keyword_list() {
        let title = format!("News about {} today", kw.to_uppercase());
        assert!(is_devops(&title), "{}", title);
    }
}

#[test]
fn is_devops_sre_needs_leading_space() {
    assert!(is_devops("Hiring an SRE"));
    assert!(!is_devops("SRE first"));
    assert!(!is_devops("presreading"));
}

#[test]
fn is_devops_empty_title() {
    assert!(!is_devops(""));
}

#[test]
fn is_devops_keyword_split_across_words_is_not_a_match() {
    assert!(!is_devops("dev and ops"));
    assert!(is_devops("DEV OPS"));
}

#[test]
fn is_devops_non_ascii_title() {
    assert!(is_devops("ÉTÉ: Kubernetes für alle"));
    assert!(!is_devops("Ñandú über alles"));
}

#[test]
fn keyword_list_has_seventeen_lowercase_entries() {
    let kws = devops_keyword_list();
    assert_eq!(kws.len(), 17);
    for kw in kws {
        assert_eq!(kw, kw.to_lowercase());
    }
}

#[test]
fn from_hn_item_keeps_every_present_field() {
    let hn = HnItem {
        id: 99,
        title: Some("Rust is great".to_string()),
        by: Some("ferris".to_string()),
        url: Some("https://rust-lang.org".to_string()),
        score: Some(999),
    };
    let item = NewsItem::from_hn_item(hn);
    assert_eq!(item.id, 99);
    assert_eq!(item.title, "Rust is great");
    assert_eq!(item.author, "ferris");
    assert_eq!(item.score, 999);
    assert_eq!(item.url.as_deref(), Some("https://rust-lang.org"));
}

#[test]
fn from_hn_item_defaults_missing_fields() {
    let hn = HnItem { id: 55, title: None, by: None, url: None, score: None };
    let item = NewsItem::from_hn_item(hn);
    assert_eq!(item.id, 55);
    assert_eq!(item.title, "");
    assert_eq!(item.author, "");
    assert_eq!(item.score, 0);
    assert!(item.url.is_none());
}

#[test]
fn keyword_search_is_case_sensitive_on_lowercased_text() {
    assert!(contains_devops_keyword("kubernetes rocks"));
    assert!(contains_devops_keyword("we moved to gitlab ci"));
    assert!(!contains_devops_keyword("KUBERNETES ROCKS"));
    assert!(!contains_devops_keyword("python 4.0 roadmap"));
}

#[test]
fn substring_search_on_chars() {
    let hay = chars_of("ci/cd pipelines");
    assert!(contains_chars(&hay, &chars_of("ci/cd")));
    assert!(contains_chars(&hay, &chars_of("lines")));
    assert!(contains_chars(&hay, &chars_of("")));
    assert!(!contains_chars(&hay, &chars_of("pipelines!")));
    assert!(!contains_chars(&chars_of("ab"), &chars_of("abc")));
    assert_eq!(chars_of("añb"), vec!['a', 'ñ', 'b']);
}

#[test]
fn is_devops_ignores_ascii_case_changes() {
    for title in ["How Kubernetes changed our pipeline", "Hiring an SRE", "Python 4.0 roadmap", "ÉTÉ: k8s"] {
        assert_eq!(is_devops(title), is_devops(&title.to_ascii_uppercase()));
        assert_eq!(is_devops(title), is_devops(&title.to_ascii_lowercase()));
    }
}

#[test]
fn is_devops_match_survives_added_text() {
    let a = "Terraform 2.0 released";
    for b in ["", "Breaking: ", " (2025)", "xyz"] {
        assert!(is_devops(&format!("{a}{b}")));
        assert!(is_devops(&format!("{b}{a}")));
    }
}

#[test]
fn is_devops_match_survives_added_non_ascii_text() {
    let a = "ΣΟΦΙΑ runs Docker ΣΑΣ";
    assert!(is_devops(a));
    for b in ["ΟΣ", "Σ", "Ünïcödé — ", "İstanbul"] {
        assert!(is_devops(&format!("{a}{b}")));
        assert!(is_devops(&format!("{b}{a}")));
    }
}
