//! Matching a text against many patterns at once with the `aho-corasick`
//! crate.
//!
//! The automaton is built and searched by the crate; the library states
//! what it holds (the patterns, as UTF-8 bytes, in order) and what a search
//! answers (whether any pattern occurs anywhere in the text).
use aho_corasick::AhoCorasick as Searcher;
use vstd::prelude::*;
use vstd::utf8::encode_utf8;

verus! {

/// An automaton of the `aho-corasick` crate.
#[verifier::external_type_specification]
#[verifier::external_body]
pub struct ExternalSearcher(Searcher);

/// The patterns that an automaton searches for, as bytes, in the order they
/// were given.
pub uninterp spec fn automaton_patterns(ac: Searcher) -> Seq<Seq<u8>>;

/// Whether an automaton with the default configuration can be built from
/// these patterns (the crate refuses patterns whose automaton would exceed
/// its internal size limits).
pub uninterp spec fn automaton_builds(patterns: Seq<Seq<u8>>) -> bool;

/// The text (`Display` of `BuildError`) of the reason why no automaton
/// with the default configuration can be built from these patterns.
pub uninterp spec fn automaton_build_error_text(patterns: Seq<Seq<u8>>) -> Seq<char>;

/// The UTF-8 bytes of each pattern.
pub open spec fn pattern_bytes(patterns: Seq<String>) -> Seq<Seq<u8>> {
    patterns.map_values(|p: String| encode_utf8(p@))
}

/// Whether `needle` occurs in `haystack` at some position.
pub open spec fn is_infix(needle: Seq<u8>, haystack: Seq<u8>) -> bool {
    exists|i: int|
        0 <= i && i + needle.len() <= haystack.len() && #[trigger] haystack.subrange(
            i,
            i + needle.len(),
        ) == needle
}

/// Whether one of `patterns` occurs in `haystack` at some position.
pub open spec fn matches_any(patterns: Seq<Seq<u8>>, haystack: Seq<u8>) -> bool {
    exists|k: int| 0 <= k < patterns.len() && is_infix(#[trigger] patterns[k], haystack)
}

/// Calls `aho_corasick::AhoCorasick::new`, the default configuration with
/// standard match semantics. It succeeds exactly when the patterns fit the
/// crate's limits, and the automaton then holds the patterns' bytes in the
/// order given; a failure is handed back as the text of the `BuildError`.
#[verifier::external_body]
fn build_automaton(patterns: Vec<String>) -> (r: Result<Searcher, String>)
    ensures
        r is Ok <==> automaton_builds(pattern_bytes(patterns@)),
        r matches Ok(ac) ==> automaton_patterns(ac) == pattern_bytes(patterns@),
        r matches Err(text) ==> text@ == automaton_build_error_text(pattern_bytes(patterns@)),
{
    match Searcher::new(patterns) {
        Ok(ac) => Ok(ac),
        Err(e) => Err(e.to_string()),
    }
}

/// Calls `aho_corasick::AhoCorasick::is_match`, which the crate documents as
/// returning true if and only if the automaton matches the haystack at any
/// position: with standard semantics, when one of its patterns occurs in
/// the haystack.
#[verifier::external_body]
fn automaton_is_match(ac: &Searcher, haystack: &[u8]) -> (r: bool)
    ensures
        r == matches_any(automaton_patterns(*ac), haystack@),
{
    ac.is_match(haystack)
}

/// The patterns could not be built into an automaton; the message says why.
#[derive(Debug, PartialEq, Eq)]
pub struct PatternError {
    pub message: String,
}

/// A multi-pattern matcher.
pub struct AhoCorasick {
    ac: Searcher,
}

impl View for AhoCorasick {
    type V = Seq<Seq<u8>>;

    /// The patterns searched for, as bytes, in order.
    closed spec fn view(&self) -> Seq<Seq<u8>> {
        automaton_patterns(self.ac)
    }
}

/// The matcher offered to JavaScript as `AhoCorasick`.
pub struct JsAhoCorasick {
    aho_corasick: AhoCorasick,
}

impl View for JsAhoCorasick {
    type V = Seq<Seq<u8>>;

    /// The patterns searched for, as bytes, in order.
    closed spec fn view(&self) -> Seq<Seq<u8>> {
        self.aho_corasick@
    }
}

/// A copy of `patterns`, string by string.
fn copy_patterns(patterns: &Vec<String>) -> (r: Vec<String>)
    ensures
        pattern_bytes(r@) == pattern_bytes(patterns@),
{
    let mut r: Vec<String> = Vec::new();
    let n = patterns.len();
    let mut i: usize = 0;
    while i < n
        invariant
            n == patterns@.len(),
            i <= n,
            r@.len() == i,
            forall|k: int| 0 <= k < i ==> #[trigger] r@[k]@ == patterns@[k]@,
        decreases n - i,
    {
        r.push(patterns[i].clone());
        i = i + 1;
    }
    assert(pattern_bytes(r@) =~= pattern_bytes(patterns@));
    r
}

impl JsAhoCorasick {
    /// A matcher for `patterns`. The patterns must fit the automaton's
    /// limits; building it from patterns that do not fit panics.
    pub fn with_patterns(patterns: Vec<String>) -> (r: JsAhoCorasick)
        requires
            automaton_builds(pattern_bytes(patterns@)),
        ensures
            r@ == pattern_bytes(patterns@),
    {
        let ac = build_automaton(patterns).unwrap();
        JsAhoCorasick { aho_corasick: AhoCorasick { ac } }
    }

    /// A matcher for `patterns` when they fit the automaton's limits, or the
    /// reason why they do not.
    pub fn try_with_patterns(patterns: Vec<String>) -> (r: Result<JsAhoCorasick, PatternError>)
        ensures
            r is Ok <==> automaton_builds(pattern_bytes(patterns@)),
            r matches Ok(m) ==> m@ == pattern_bytes(patterns@),
            r matches Err(e) ==> e.message@ == automaton_build_error_text(pattern_bytes(patterns@)),
    {
        let copy = copy_patterns(&patterns);
        match build_automaton(patterns) {
            Ok(_) => Ok(JsAhoCorasick::with_patterns(copy)),
            Err(message) => Err(PatternError { message }),
        }
    }

    /// Whether one of the patterns occurs in `input`.
    pub fn is_match(&self, input: String) -> (r: bool)
        ensures
            r == matches_any(self@, encode_utf8(input@)),
    {
        let haystack = input.as_str().as_bytes();
        automaton_is_match(&self.aho_corasick.ac, haystack)
    }
}

/// A matcher without patterns matches no text.
pub proof fn lemma_no_patterns_match_nothing(haystack: Seq<u8>)
    ensures
        !matches_any(Seq::empty(), haystack),
{
}

/// Every pattern matches a text that is the pattern itself.
pub proof fn lemma_pattern_matches_itself(patterns: Seq<Seq<u8>>, k: int)
    requires
        0 <= k < patterns.len(),
    ensures
        matches_any(patterns, patterns[k]),
{
    let p = patterns[k];
    assert(p.subrange(0, 0int + p.len()) =~= p);
    assert(is_infix(p, p));
}

/// A text that matches still matches with more text on either side.
pub proof fn lemma_match_survives_extension(
    patterns: Seq<Seq<u8>>,
    haystack: Seq<u8>,
    before: Seq<u8>,
    after: Seq<u8>,
)
    requires
        matches_any(patterns, haystack),
    ensures
        matches_any(patterns, before + haystack + after),
{
    let k = choose|k: int| 0 <= k < patterns.len() && is_infix(#[trigger] patterns[k], haystack);
    let p = patterns[k];
    let i = choose|i: int|
        0 <= i && i + p.len() <= haystack.len() && #[trigger] haystack.subrange(i, i + p.len())
            == p;
    let whole = before + haystack + after;
    let j = before.len() + i;
    assert(whole.subrange(j, j + p.len()) =~= p);
    assert(is_infix(p, whole));
}

/// A matcher with an empty pattern matches every text.
pub proof fn lemma_empty_pattern_matches_everything(patterns: Seq<Seq<u8>>, haystack: Seq<u8>)
    requires
        patterns.contains(Seq::empty()),
    ensures
        matches_any(patterns, haystack),
{
    let k = choose|k: int| 0 <= k < patterns.len() && patterns[k] == Seq::<u8>::empty();
    let p = patterns[k];
    assert(haystack.subrange(0, 0int + p.len()) =~= p);
    assert(is_infix(p, haystack));
}

} // verus!
