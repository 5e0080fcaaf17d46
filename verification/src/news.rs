use vstd::prelude::*;
use crate::text::{
    all_ascii, ascii_fold, chars_of, contains_chars, contains_seq, lowercase_of, occurs_at,
    sigma_blind, to_lowercase,
};

verus! {

/// A Hacker News story as the service hands it to its clients.
pub struct NewsItem {
    pub id: u32,
    pub title: String,
    pub author: String,
    pub url: Option<String>,
    pub score: u32,
}

/// A story as the Hacker News API describes it; every field but `id` may be absent.
pub struct HnItem {
    pub id: u32,
    pub title: Option<String>,
    pub by: Option<String>,
    pub url: Option<String>,
    pub score: Option<u32>,
}

/// The value of a `NewsItem`, with its strings as character sequences.
pub struct NewsItemView {
    pub id: u32,
    pub title: Seq<char>,
    pub author: Seq<char>,
    pub url: Option<Seq<char>>,
    pub score: u32,
}

/// The value of an `HnItem`, with its strings as character sequences.
pub struct HnItemView {
    pub id: u32,
    pub title: Option<Seq<char>>,
    pub by: Option<Seq<char>>,
    pub url: Option<Seq<char>>,
    pub score: Option<u32>,
}

pub open spec fn opt_string_view(s: Option<String>) -> Option<Seq<char>> {
    match s {
        Some(t) => Some(t@),
        None => None,
    }
}

impl View for NewsItem {
    type V = NewsItemView;

    open spec fn view(&self) -> NewsItemView {
        NewsItemView {
            id: self.id,
            title: self.title@,
            author: self.author@,
            url: opt_string_view(self.url),
            score: self.score,
        }
    }
}

impl View for HnItem {
    type V = HnItemView;

    open spec fn view(&self) -> HnItemView {
        HnItemView {
            id: self.id,
            title: opt_string_view(self.title),
            by: opt_string_view(self.by),
            url: opt_string_view(self.url),
            score: self.score,
        }
    }
}

/// The story that the service publishes for an API item: an absent title or
/// author becomes the empty string, an absent score becomes 0, the url is kept.
pub open spec fn to_news_view(h: HnItemView) -> NewsItemView {
    NewsItemView {
        id: h.id,
        title: match h.title {
            Some(t) => t,
            None => Seq::empty(),
        },
        author: match h.by {
            Some(a) => a,
            None => Seq::empty(),
        },
        url: h.url,
        score: match h.score {
            Some(s) => s,
            None => 0,
        },
    }
}

/// The views of a sequence of stories.
pub open spec fn news_views(items: Seq<NewsItem>) -> Seq<NewsItemView> {
    items.map_values(|n: NewsItem| n@)
}

impl NewsItem {
    /// The published story for an API item.
    pub fn from_hn_item(hn: HnItem) -> (r: NewsItem)
        ensures
            r@ == to_news_view(hn@),
    {
        let title = match hn.title {
            Some(t) => t,
            None => String::new(),
        };
        let author = match hn.by {
            Some(a) => a,
            None => String::new(),
        };
        let score: u32 = match hn.score {
            Some(s) => s,
            None => 0,
        };
        NewsItem { id: hn.id, title, author, url: hn.url, score }
    }
}

/// The lowercase keywords that mark a title as DevOps-related.
pub open spec fn devops_keywords() -> Seq<Seq<char>> {
    seq![
        "devops"@,
        "dev ops"@,
        "kubernetes"@,
        "k8s"@,
        "docker"@,
        "helm"@,
        "terraform"@,
        "ansible"@,
        "jenkins"@,
        "github actions"@,
        "gitlab ci"@,
        "ci/cd"@,
        "continuous delivery"@,
        "continuous integration"@,
        "infrastructure as code"@,
        "site reliability"@,
        " sre"@,
    ]
}

/// Some keyword occurs in the (already lowercased) text.
pub open spec fn has_devops_keyword(lower: Seq<char>) -> bool {
    exists|k: int|
        0 <= k < devops_keywords().len() && contains_seq(lower, #[trigger] devops_keywords()[k])
}

/// A title is DevOps-related when its lowercase form contains one of the keywords.
pub open spec fn is_devops_title(title: Seq<char>) -> bool {
    has_devops_keyword(lowercase_of(title))
}

/// The keyword list, in the order of `devops_keywords`.
pub fn devops_keyword_list() -> (r: Vec<&'static str>)
    ensures
        r@.map_values(|s: &str| s@) == devops_keywords(),
{
    let r: Vec<&'static str> = vec![
        "devops",
        "dev ops",
        "kubernetes",
        "k8s",
        "docker",
        "helm",
        "terraform",
        "ansible",
        "jenkins",
        "github actions",
        "gitlab ci",
        "ci/cd",
        "continuous delivery",
        "continuous integration",
        "infrastructure as code",
        "site reliability",
        " sre",
    ];
    assert(r@.map_values(|s: &str| s@) =~= devops_keywords());
    r
}

/// Whether the text contains one of the DevOps keywords, as written (the
/// keywords are lowercase).
pub fn contains_devops_keyword(lower: &str) -> (r: bool)
    ensures
        r == has_devops_keyword(lower@),
{
    let hay = chars_of(lower);
    let keywords = devops_keyword_list();
    let ghost kw_views = keywords@.map_values(|s: &str| s@);
    let n = keywords.len();
    for i in 0..n
        invariant
            n == keywords@.len(),
            kw_views == devops_keywords(),
            kw_views == keywords@.map_values(|s: &str| s@),
            hay@ == lower@,
            forall|k: int| 0 <= k < i ==> !contains_seq(lower@, #[trigger] devops_keywords()[k]),
    {
        let needle = chars_of(keywords[i]);
        assert(needle@ == kw_views[i as int]);
        if contains_chars(&hay, &needle) {
            return true;
        }
    }
    false
}

/// Whether the title contains, ignoring case, at least one DevOps keyword.
/// Changing the case of ASCII letters never changes the answer, and for an
/// all-ASCII title the answer is whether its ASCII-lowercased form holds a keyword.
pub fn is_devops(title: &str) -> (r: bool)
    ensures
        r == is_devops_title(title@),
        forall|t: Seq<char>| #[trigger] ascii_fold(t) == ascii_fold(title@) ==> is_devops_title(t) == r,
        all_ascii(title@) ==> r == has_devops_keyword(ascii_fold(title@)),
        r ==> forall|t: Seq<char>| #[trigger] is_devops_title(title@ + t),
        r ==> forall|t: Seq<char>| #[trigger] is_devops_title(t + title@),
{
    let lower = to_lowercase(title);
    let r = contains_devops_keyword(lower.as_str());
    proof {
        if r {
            lemma_keyword_ignores_sigma_form(lower@);
            assert forall|t: Seq<char>| #[trigger] is_devops_title(title@ + t) by {
                let lt = lowercase_of(title@ + t);
                assert(sigma_blind(lt) == sigma_blind(lower@) + sigma_blind(lowercase_of(t)));
                lemma_keyword_survives_added_text(sigma_blind(lower@), sigma_blind(lowercase_of(t)));
                lemma_keyword_ignores_sigma_form(lt);
            }
            assert forall|t: Seq<char>| #[trigger] is_devops_title(t + title@) by {
                let lt = lowercase_of(t + title@);
                assert(sigma_blind(lt) == sigma_blind(lowercase_of(t)) + sigma_blind(lower@));
                lemma_keyword_survives_added_text(sigma_blind(lower@), sigma_blind(lowercase_of(t)));
                lemma_keyword_ignores_sigma_form(lt);
            }
        }
    }
    r
}

/// Case does not matter: two titles with the same lowercase form are both
/// DevOps-related or both not.
pub proof fn lemma_is_devops_ignores_case(a: Seq<char>, b: Seq<char>)
    requires
        lowercase_of(a) == lowercase_of(b),
    ensures
        is_devops_title(a) == is_devops_title(b),
{
}

/// Publishing keeps the id and url, keeps the title, author and score of the
/// item whenever they are present, whatever the other fields are, and only
/// absent ones default: title and author to `""`, score to 0.
pub proof fn lemma_published_fields(h: HnItemView)
    ensures
        to_news_view(h).id == h.id,
        to_news_view(h).url == h.url,
        h.title matches Some(t) ==> to_news_view(h).title == t,
        h.title is None ==> to_news_view(h).title == Seq::<char>::empty(),
        h.by matches Some(a) ==> to_news_view(h).author == a,
        h.by is None ==> to_news_view(h).author == Seq::<char>::empty(),
        h.score matches Some(x) ==> to_news_view(h).score == x,
        h.score is None ==> to_news_view(h).score == 0,
{
}

/// A lowercase text holds a DevOps keyword exactly when it contains one of
/// these seventeen: "devops", "dev ops", "kubernetes", "k8s", "docker",
/// "helm", "terraform", "ansible", "jenkins", "github actions", "gitlab ci",
/// "ci/cd", "continuous delivery", "continuous integration",
/// "infrastructure as code", "site reliability", " sre".
pub proof fn lemma_keyword_list_exact(x: Seq<char>)
    ensures
        devops_keywords().len() == 17,
        has_devops_keyword(x) <==> {
            ||| contains_seq(x, "devops"@)
            ||| contains_seq(x, "dev ops"@)
            ||| contains_seq(x, "kubernetes"@)
            ||| contains_seq(x, "k8s"@)
            ||| contains_seq(x, "docker"@)
            ||| contains_seq(x, "helm"@)
            ||| contains_seq(x, "terraform"@)
            ||| contains_seq(x, "ansible"@)
            ||| contains_seq(x, "jenkins"@)
            ||| contains_seq(x, "github actions"@)
            ||| contains_seq(x, "gitlab ci"@)
            ||| contains_seq(x, "ci/cd"@)
            ||| contains_seq(x, "continuous delivery"@)
            ||| contains_seq(x, "continuous integration"@)
            ||| contains_seq(x, "infrastructure as code"@)
            ||| contains_seq(x, "site reliability"@)
            ||| contains_seq(x, " sre"@)
        },
{
    let kws = devops_keywords();
    assert(kws[0] == "devops"@);
    assert(kws[1] == "dev ops"@);
    assert(kws[2] == "kubernetes"@);
    assert(kws[3] == "k8s"@);
    assert(kws[4] == "docker"@);
    assert(kws[5] == "helm"@);
    assert(kws[6] == "terraform"@);
    assert(kws[7] == "ansible"@);
    assert(kws[8] == "jenkins"@);
    assert(kws[9] == "github actions"@);
    assert(kws[10] == "gitlab ci"@);
    assert(kws[11] == "ci/cd"@);
    assert(kws[12] == "continuous delivery"@);
    assert(kws[13] == "continuous integration"@);
    assert(kws[14] == "infrastructure as code"@);
    assert(kws[15] == "site reliability"@);
    assert(kws[16] == " sre"@);
    if has_devops_keyword(x) {
        let k = choose|k: int| 0 <= k < kws.len() && contains_seq(x, #[trigger] kws[k]);
        assert(0 <= k < 17);
    }
}

/// The view of an optional string keeps presence and the characters.
pub proof fn lemma_opt_string_view(s: Option<String>)
    ensures
        s matches Some(t) ==> opt_string_view(s) == Some(t@),
        s is None ==> opt_string_view(s) is None,
{
}

/// Every character of every keyword is ASCII.
pub proof fn lemma_keywords_are_ascii()
    ensures
        forall|k: int| 0 <= k < devops_keywords().len() ==> all_ascii(#[trigger] devops_keywords()[k]),
{
    reveal_strlit("devops");
    reveal_strlit("dev ops");
    reveal_strlit("kubernetes");
    reveal_strlit("k8s");
    reveal_strlit("docker");
    reveal_strlit("helm");
    reveal_strlit("terraform");
    reveal_strlit("ansible");
    reveal_strlit("jenkins");
    reveal_strlit("github actions");
    reveal_strlit("gitlab ci");
    reveal_strlit("ci/cd");
    reveal_strlit("continuous delivery");
    reveal_strlit("continuous integration");
    reveal_strlit("infrastructure as code");
    reveal_strlit("site reliability");
    reveal_strlit(" sre");
}

/// Whether a text holds a keyword does not depend on how its small sigmas are
/// written: keywords hold no sigma.
pub proof fn lemma_keyword_ignores_sigma_form(x: Seq<char>)
    ensures
        has_devops_keyword(sigma_blind(x)) == has_devops_keyword(x),
{
    lemma_keywords_are_ascii();
    let bx = sigma_blind(x);
    if has_devops_keyword(x) {
        let k = choose|k: int|
            0 <= k < devops_keywords().len() && contains_seq(x, #[trigger] devops_keywords()[k]);
        let kw = devops_keywords()[k];
        let i = choose|i: int| #[trigger] occurs_at(x, kw, i);
        assert(all_ascii(kw));
        assert(bx.subrange(i, i + kw.len()) =~= kw) by {
            assert forall|j: int| 0 <= j < kw.len() implies bx.subrange(i, i + kw.len())[j]
                == kw[j] by {
                assert(x[i + j] == x.subrange(i, i + kw.len())[j]);
                assert(kw[j] <= '\x7f');
            }
        }
        assert(occurs_at(bx, kw, i));
    }
    if has_devops_keyword(bx) {
        let k = choose|k: int|
            0 <= k < devops_keywords().len() && contains_seq(bx, #[trigger] devops_keywords()[k]);
        let kw = devops_keywords()[k];
        let i = choose|i: int| #[trigger] occurs_at(bx, kw, i);
        assert(all_ascii(kw));
        assert(x.subrange(i, i + kw.len()) =~= kw) by {
            assert forall|j: int| 0 <= j < kw.len() implies x.subrange(i, i + kw.len())[j]
                == kw[j] by {
                assert(bx[i + j] == bx.subrange(i, i + kw.len())[j]);
                assert(kw[j] <= '\x7f');
            }
        }
        assert(occurs_at(x, kw, i));
    }
}

/// A keyword occurrence in a text survives adding text before or after it.
pub proof fn lemma_keyword_survives_added_text(a: Seq<char>, b: Seq<char>)
    requires
        has_devops_keyword(a),
    ensures
        has_devops_keyword(a + b),
        has_devops_keyword(b + a),
{
    let k = choose|k: int|
        0 <= k < devops_keywords().len() && contains_seq(a, #[trigger] devops_keywords()[k]);
    let kw = devops_keywords()[k];
    let i = choose|i: int| #[trigger] occurs_at(a, kw, i);
    assert((a + b).subrange(i, i + kw.len()) =~= a.subrange(i, i + kw.len()));
    assert(occurs_at(a + b, kw, i));
    let j = i + b.len();
    assert((b + a).subrange(j, j + kw.len()) =~= a.subrange(i, i + kw.len()));
    assert(occurs_at(b + a, kw, j));
}

} // verus!
