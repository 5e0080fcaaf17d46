use vstd::prelude::*;

verus! {

/// What `str::to_lowercase` returns for a string with the given characters
/// (Unicode lowercase mapping; one character may map to several).
pub uninterp spec fn lowercase_of(s: Seq<char>) -> Seq<char>;

/// The character with ASCII letters `A`..`Z` turned into `a`..`z`; every
/// other character is unchanged.
pub open spec fn ascii_lower_char(c: char) -> char {
    if 'A' <= c && c <= 'Z' {
        ((c as u32) + 32) as char
    } else {
        c
    }
}

/// The character with ASCII letters `a`..`z` turned into `A`..`Z`; every
/// other character is unchanged.
pub open spec fn ascii_upper_char(c: char) -> char {
    if 'a' <= c && c <= 'z' {
        ((c as u32) - 32) as char
    } else {
        c
    }
}

/// The characters with every ASCII letter lowercased (what `str::to_ascii_lowercase` does).
pub open spec fn ascii_fold(s: Seq<char>) -> Seq<char> {
    s.map_values(|c: char| ascii_lower_char(c))
}

/// The characters with every ASCII letter uppercased (what `str::to_ascii_uppercase` does).
pub open spec fn ascii_upper(s: Seq<char>) -> Seq<char> {
    s.map_values(|c: char| ascii_upper_char(c))
}

/// Every character is ASCII.
pub open spec fn all_ascii(s: Seq<char>) -> bool {
    forall|i: int| 0 <= i < s.len() ==> (#[trigger] s[i]) <= '\x7f'
}

/// Two strings that differ only in the case of ASCII letters agree once
/// their ASCII letters are lowercased.
pub proof fn lemma_ascii_case_changes_keep_fold(s: Seq<char>)
    ensures
        ascii_fold(ascii_upper(s)) == ascii_fold(s),
        ascii_fold(ascii_fold(s)) == ascii_fold(s),
{
    assert(ascii_fold(ascii_upper(s)) =~= ascii_fold(s));
    assert(ascii_fold(ascii_fold(s)) =~= ascii_fold(s));
}

/// The character with the final sigma (U+03C2) written as the ordinary small
/// sigma (U+03C3); every other character is unchanged.
pub open spec fn sigma_blind_char(c: char) -> char {
    if c == '\u{3c2}' {
        '\u{3c3}'
    } else {
        c
    }
}

/// The characters with every final sigma written as an ordinary small sigma.
pub open spec fn sigma_blind(s: Seq<char>) -> Seq<char> {
    s.map_values(|c: char| sigma_blind_char(c))
}

/// Blinding a concatenation blinds each part.
pub proof fn lemma_sigma_blind_concat(x: Seq<char>, y: Seq<char>)
    ensures
        sigma_blind(x + y) == sigma_blind(x) + sigma_blind(y),
{
    assert(sigma_blind(x + y) =~= sigma_blind(x) + sigma_blind(y));
}

/// Wraps `str::to_lowercase`. Claimed of it:
/// - the result's characters are `lowercase_of` the argument's characters;
/// - on an all-ASCII string it lowercases the letters `A`..`Z` and changes
///   nothing else (the documentation of `str::to_ascii_lowercase` sends readers
///   to `to_lowercase` "to lowercase ASCII characters in addition to non-ASCII
///   characters"; Unicode maps `A`..`Z` to `a`..`z`);
/// - a string that differs from the argument only in the case of ASCII letters
///   has the same lowercase form: `A`..`Z` lowercase to `a`..`z`, and the one
///   context-dependent rule (final sigma) looks only at whether neighbours are
///   cased letters, which upper- and lowercase ASCII letters both are.
/// - the lowercase form of the argument joined with any other text is, up to
///   the choice between final and ordinary small sigma, the lowercase form of
///   the argument joined with that of the other text: every character is
///   lowercased on its own (Unicode's context-free mapping, which may expand
///   a character into several) except the capital sigma, which becomes a final
///   or an ordinary small sigma depending on its neighbours.
/// Nothing more of the Unicode mapping is stated.
#[verifier::external_body]
pub(crate) fn to_lowercase(s: &str) -> (r: String)
    ensures
        r@ == lowercase_of(s@),
        all_ascii(s@) ==> r@ == ascii_fold(s@),
        forall|t: Seq<char>| #[trigger] ascii_fold(t) == ascii_fold(s@) ==> lowercase_of(t) == r@,
        forall|t: Seq<char>|
            sigma_blind(#[trigger] lowercase_of(s@ + t)) == sigma_blind(r@) + sigma_blind(
                lowercase_of(t),
            ),
        forall|t: Seq<char>|
            sigma_blind(#[trigger] lowercase_of(t + s@)) == sigma_blind(lowercase_of(t))
                + sigma_blind(r@),
{
    s.to_lowercase()
}

/// `needle` occurs in `hay` starting at position `i`.
pub open spec fn occurs_at(hay: Seq<char>, needle: Seq<char>, i: int) -> bool {
    &&& 0 <= i
    &&& i + needle.len() <= hay.len()
    &&& hay.subrange(i, i + needle.len()) == needle
}

/// `needle` occurs as a contiguous block of `hay`.
pub open spec fn contains_seq(hay: Seq<char>, needle: Seq<char>) -> bool {
    exists|i: int| #[trigger] occurs_at(hay, needle, i)
}

/// `needle` occurs in `hay` exactly when `hay` is some text, then `needle`,
/// then some text.
pub proof fn lemma_contains_seq_exactly(hay: Seq<char>, needle: Seq<char>)
    ensures
        contains_seq(hay, needle) <==> exists|x: Seq<char>, y: Seq<char>| #![trigger (x + needle) + y] hay == (x + needle) + y,
{
    if contains_seq(hay, needle) {
        let i = choose|i: int| #[trigger] occurs_at(hay, needle, i);
        let x = hay.take(i);
        let y = hay.skip(i + needle.len());
        assert(hay =~= (x + needle) + y);
    }
    if exists|x: Seq<char>, y: Seq<char>| #![trigger (x + needle) + y] hay == (x + needle) + y {
        let (x, y) = choose|x: Seq<char>, y: Seq<char>| #![trigger (x + needle) + y] hay == (x + needle) + y;
        assert(hay.subrange(x.len() as int, (x.len() + needle.len()) as int) =~= needle);
        assert(occurs_at(hay, needle, x.len() as int));
    }
}

/// The characters of `s`, in order.
pub fn chars_of(s: &str) -> (r: Vec<char>)
    ensures
        r@ == s@,
{
    broadcast use vstd::string::group_string_axioms;
    let mut r: Vec<char> = Vec::new();
    for c in it: s.chars()
        invariant
            it.seq() == s@,
            r@ == it.seq().take(it.index() as int),
    {
        r.push(c);
    }
    r
}

/// Whether `needle` occurs at position `at` of `hay`.
fn matches_at(hay: &Vec<char>, needle: &Vec<char>, at: usize) -> (r: bool)
    requires
        at + needle.len() <= hay.len(),
    ensures
        r == (hay@.subrange(at as int, at + needle.len()) == needle@),
{
    let mut j: usize = 0;
    while j < needle.len()
        invariant
            at + needle.len() <= hay.len(),
            j <= needle.len(),
            forall|k: int| 0 <= k < j ==> hay@[at + k] == needle@[k],
        decreases needle.len() - j,
    {
        if hay[at + j] != needle[j] {
            assert(hay@.subrange(at as int, at + needle.len())[j as int] != needle@[j as int]);
            return false;
        }
        j = j + 1;
    }
    assert(hay@.subrange(at as int, at + needle.len()) =~= needle@);
    true
}

/// Substring search: whether `needle` occurs anywhere in `hay`.
pub fn contains_chars(hay: &Vec<char>, needle: &Vec<char>) -> (r: bool)
    ensures
        r == contains_seq(hay@, needle@),
{
    if needle.len() > hay.len() {
        return false;
    }
    let last: usize = hay.len() - needle.len();
    let mut i: usize = 0;
    loop
        invariant
            last + needle.len() == hay.len(),
            i <= last,
            forall|k: int| 0 <= k < i ==> !#[trigger] occurs_at(hay@, needle@, k),
        decreases last - i,
    {
        if matches_at(hay, needle, i) {
            assert(occurs_at(hay@, needle@, i as int));
            return true;
        }
        if i == last {
            return false;
        }
        i = i + 1;
    }
}

} // verus!
