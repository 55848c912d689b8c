//! Search for the comment markers of a language.

use vstd::prelude::*;

use aho_corasick::AhoCorasick;

use super::data::Language;

verus! {

// ---------------------------------------------------------------------------
// The automaton
// ---------------------------------------------------------------------------

/// The multi-pattern search automaton of the `aho_corasick` crate.
#[verifier::external_type_specification]
#[verifier::external_body]
pub struct ExAhoCorasick(aho_corasick::AhoCorasick);

/// The patterns an automaton was built from, in their order.
pub uninterp spec fn automaton_patterns(a: AhoCorasick) -> Seq<Seq<u8>>;

/// The automaton was built to prefer, of the patterns that match leftmost, the
/// one that was given first.
pub uninterp spec fn is_leftmost_first(a: AhoCorasick) -> bool;

/// `p` stands in `hay` at position `i`.
pub open spec fn stands_at(hay: Seq<u8>, p: Seq<u8>, i: int) -> bool {
    0 <= i && i + p.len() <= hay.len() && hay.subrange(i, i + p.len()) == p
}

/// The first of the patterns, from number `k` on, that stands at `i`.
pub open spec fn first_standing(pats: Seq<Seq<u8>>, hay: Seq<u8>, i: int, k: int) -> Option<int>
    decreases pats.len() - k,
{
    if k < 0 || k >= pats.len() {
        None
    } else if stands_at(hay, pats[k], i) {
        Some(k)
    } else {
        first_standing(pats, hay, i, k + 1)
    }
}

/// Where the leftmost match at or after `at` starts, and the number of the
/// first pattern that matches there.
pub open spec fn leftmost(pats: Seq<Seq<u8>>, hay: Seq<u8>, at: int) -> Option<(int, int)>
    decreases hay.len() - at + 1,
{
    if at > hay.len() {
        None
    } else {
        match first_standing(pats, hay, at, 0) {
            Some(k) => Some((at, k)),
            None => leftmost(pats, hay, at + 1),
        }
    }
}

/// The bytes of each text.
pub open spec fn byte_views(s: Seq<&'static str>) -> Seq<Seq<u8>> {
    Seq::new(s.len(), |i: int| vstd::utf8::encode_utf8(s[i]@))
}

/// Tokens that an automaton can be built from: few, short and not empty.
pub open spec fn are_tokens(s: Seq<&'static str>) -> bool {
    &&& s.len() <= 256
    &&& forall|i: int| 0 <= i < s.len() ==> 0 < (#[trigger] s[i])@.len() <= 256
}

/// `AhoCorasickBuilder::build` with `MatchKind::LeftmostFirst`: the automaton
/// holds the given patterns in the given order. Building fails only where the
/// patterns exceed 31 bits of states or identifiers, far above the sizes
/// admitted here.
#[verifier::external_body]
fn build_automaton(patterns: &[&'static str]) -> (r: AhoCorasick)
    requires
        are_tokens(patterns@),
    ensures
        automaton_patterns(r) == byte_views(patterns@),
        is_leftmost_first(r),
{
    aho_corasick::AhoCorasickBuilder::new().match_kind(
        aho_corasick::MatchKind::LeftmostFirst,
    ).build(patterns).expect("a few short patterns always build")
}

/// `AhoCorasick::find` on the part of `hay` from `at` on: start, length and
/// pattern number of the leftmost match; of the patterns that match there, the
/// first.
#[verifier::external_body]
fn automaton_find(a: &AhoCorasick, hay: &[u8], at: usize) -> (r: Option<(usize, usize, usize)>)
    requires
        is_leftmost_first(*a),
        at <= hay@.len(),
    ensures
        match r {
            Some((pos, len, k)) => {
                &&& leftmost(automaton_patterns(*a), hay@, at as int) == Some(
                    (pos as int, k as int),
                )
                &&& len == automaton_patterns(*a)[k as int].len()
            },
            None => leftmost(automaton_patterns(*a), hay@, at as int) is None,
        },
{
    a.find(aho_corasick::Input::new(hay).range(at..)).map(
        |m| (m.start(), m.len(), m.pattern().as_usize()),
    )
}

/// What `leftmost` finds does stand there, within bounds.
pub proof fn lemma_leftmost(pats: Seq<Seq<u8>>, hay: Seq<u8>, at: int)
    ensures
        match leftmost(pats, hay, at) {
            Some((pos, k)) => {
                &&& at <= pos
                &&& 0 <= k < pats.len()
                &&& stands_at(hay, pats[k], pos)
            },
            None => true,
        },
    decreases hay.len() - at + 1,
{
    if at <= hay.len() {
        lemma_first_standing(pats, hay, at, 0);
        if first_standing(pats, hay, at, 0) is None {
            lemma_leftmost(pats, hay, at + 1);
        }
    }
}

proof fn lemma_first_standing(pats: Seq<Seq<u8>>, hay: Seq<u8>, i: int, k: int)
    ensures
        match first_standing(pats, hay, i, k) {
            Some(q) => k <= q < pats.len() && 0 <= q && stands_at(hay, pats[q], i),
            None => true,
        },
    decreases pats.len() - k,
{
    if 0 <= k < pats.len() && !stands_at(hay, pats[k], i) {
        lemma_first_standing(pats, hay, i, k + 1);
    }
}

// ---------------------------------------------------------------------------
// Block comments
// ---------------------------------------------------------------------------

/// The first match at or after `at` of the pattern number `pair`, as position
/// and length; matches are read from the left without overlap, and those of
/// other patterns are passed over.
pub open spec fn pair_match(pats: Seq<Seq<u8>>, hay: Seq<u8>, at: int, pair: int) -> Option<
    (int, int),
>
    decreases hay.len() - at,
    when all_filled(pats)
    via pair_match_shrinks
{
    match leftmost(pats, hay, at) {
        None => None,
        Some((pos, k)) => if k == pair {
            Some((pos, pats[k].len() as int))
        } else {
            pair_match(pats, hay, pos + pats[k].len(), pair)
        },
    }
}

/// No pattern is empty.
pub open spec fn all_filled(pats: Seq<Seq<u8>>) -> bool {
    forall|k: int| 0 <= k < pats.len() ==> (#[trigger] pats[k]).len() > 0
}

#[via_fn]
proof fn pair_match_shrinks(pats: Seq<Seq<u8>>, hay: Seq<u8>, at: int, pair: int) {
    lemma_leftmost(pats, hay, at);
}

/// The markers of block comments: those that open, and those that close.
pub struct BlockModel {
    pub starts: Seq<Seq<u8>>,
    pub ends: Seq<Seq<u8>>,
}

/// Automata for the markers that open and close block comments.
#[derive(Debug)]
pub struct BlockCommentMatchers {
    start_automaton: AhoCorasick,
    end_automaton: AhoCorasick,
}

impl View for BlockCommentMatchers {
    type V = BlockModel;

    closed spec fn view(&self) -> BlockModel {
        BlockModel {
            starts: automaton_patterns(self.start_automaton),
            ends: automaton_patterns(self.end_automaton),
        }
    }
}

/// Where the leftmost block comment opens: position, length and number of the
/// marker.
pub open spec fn block_start(m: BlockModel, line: Seq<u8>) -> Option<(int, int, int)> {
    match leftmost(m.starts, line, 0) {
        Some((pos, k)) => Some((pos, m.starts[k].len() as int, k)),
        None => None,
    }
}

/// Where an open comment of the kind `pair` closes or, if comments nest,
/// deepens: position and length of the marker, and whether it opens.
pub open spec fn block_end_or_start(
    m: BlockModel,
    line: Seq<u8>,
    nested: bool,
    pair: int,
) -> Option<(int, int, bool)> {
    let start = if nested {
        pair_match(m.starts, line, 0, pair)
    } else {
        None
    };
    let end = pair_match(m.ends, line, 0, pair);
    match (start, end) {
        (Some(s), Some(e)) => if s.0 < e.0 {
            Some((s.0, s.1, true))
        } else {
            Some((e.0, e.1, false))
        },
        (Some(s), None) => Some((s.0, s.1, true)),
        (None, Some(e)) => Some((e.0, e.1, false)),
        (None, None) => None,
    }
}

/// Pairs of markers that automata can be built from.
pub open spec fn are_pairs(s: Seq<(&'static str, &'static str)>) -> bool {
    &&& s.len() <= 256
    &&& forall|i: int|
        0 <= i < s.len() ==> 0 < (#[trigger] s[i]).0@.len() <= 256 && 0 < s[i].1@.len() <= 256
}

pub open spec fn pair_model(s: Seq<(&'static str, &'static str)>) -> BlockModel {
    BlockModel {
        starts: Seq::new(s.len(), |i: int| vstd::utf8::encode_utf8(s[i].0@)),
        ends: Seq::new(s.len(), |i: int| vstd::utf8::encode_utf8(s[i].1@)),
    }
}

pub proof fn lemma_encoding_filled(s: Seq<char>)
    requires
        s.len() > 0,
    ensures
        vstd::utf8::encode_utf8(s).len() > 0,
{
}

proof fn lemma_filled(s: Seq<&'static str>)
    requires
        are_tokens(s),
    ensures
        all_filled(byte_views(s)),
{
    assert forall|k: int| 0 <= k < byte_views(s).len() implies (#[trigger] byte_views(
        s,
    )[k]).len() > 0 by {
        lemma_encoding_filled(s[k]@);
    }
}

fn find_pair_match(a: &AhoCorasick, line: &[u8], pair: usize) -> (r: Option<(usize, usize)>)
    requires
        is_leftmost_first(*a),
        all_filled(automaton_patterns(*a)),
    ensures
        match r {
            Some((pos, len)) => pair_match(automaton_patterns(*a), line@, 0, pair as int) == Some(
                (pos as int, len as int),
            ),
            None => pair_match(automaton_patterns(*a), line@, 0, pair as int) is None,
        },
{
    let size: usize = line.len();
    let ghost pats = automaton_patterns(*a);
    let mut at: usize = 0;
    loop
        invariant
            size == line@.len(),
            at <= size,
            is_leftmost_first(*a),
            pats == automaton_patterns(*a),
            all_filled(pats),
            pair_match(pats, line@, 0, pair as int) == pair_match(
                pats,
                line@,
                at as int,
                pair as int,
            ),
        decreases size - at,
    {
        proof {
            lemma_leftmost(pats, line@, at as int);
        }
        match automaton_find(a, line, at) {
            None => {
                return None;
            },
            Some((pos, len, k)) => {
                if k == pair {
                    return Some((pos, len));
                }
                at = pos + len;
            },
        }
    }
}

impl BlockCommentMatchers {
    #[verifier::type_invariant]
    spec fn built_here(self) -> bool {
        &&& is_leftmost_first(self.start_automaton)
        &&& is_leftmost_first(self.end_automaton)
        &&& all_filled(automaton_patterns(self.start_automaton))
        &&& all_filled(automaton_patterns(self.end_automaton))
    }

    /// Automata for the given pairs of markers.
    pub fn build(pairs: &[(&'static str, &'static str)]) -> (r: BlockCommentMatchers)
        requires
            are_pairs(pairs@),
        ensures
            r@ == pair_model(pairs@),
    {
        let mut starts: Vec<&'static str> = Vec::new();
        let mut ends: Vec<&'static str> = Vec::new();
        let mut i: usize = 0;
        while i < pairs.len()
            invariant
                i <= pairs@.len(),
                starts@.len() == i,
                ends@.len() == i,
                forall|k: int| 0 <= k < i ==> #[trigger] starts@[k] == pairs@[k].0,
                forall|k: int| 0 <= k < i ==> #[trigger] ends@[k] == pairs@[k].1,
            decreases pairs@.len() - i,
        {
            starts.push(pairs[i].0);
            ends.push(pairs[i].1);
            i += 1;
        }
        proof {
            assert forall|k: int| 0 <= k < starts@.len() implies 0 < (#[trigger] starts@[k])@.len()
                <= 256 by {
                assert(pairs@[k].0 == starts@[k]);
            }
            assert forall|k: int| 0 <= k < ends@.len() implies 0 < (#[trigger] ends@[k])@.len()
                <= 256 by {
                assert(pairs@[k].1 == ends@[k]);
            }
            lemma_filled(starts@);
            lemma_filled(ends@);
            assert(byte_views(starts@) =~= pair_model(pairs@).starts);
            assert(byte_views(ends@) =~= pair_model(pairs@).ends);
        }
        BlockCommentMatchers {
            start_automaton: build_automaton(starts.as_slice()),
            end_automaton: build_automaton(ends.as_slice()),
        }
    }

    /// Where the leftmost block comment opens in `line`: position, length and
    /// number of the marker. The number says which marker closes it again.
    pub fn find_start_in(&self, line: &[u8]) -> (r: Option<(usize, usize, usize)>)
        ensures
            match r {
                Some((pos, len, k)) => block_start(self@, line@) == Some(
                    (pos as int, len as int, k as int),
                ) && pos + len <= line@.len() && len > 0,
                None => block_start(self@, line@) is None,
            },
    {
        proof {
            use_type_invariant(self);
            lemma_leftmost(self@.starts, line@, 0);
        }
        automaton_find(&self.start_automaton, line, 0)
    }

    /// Where the leftmost block comment opens in `line`.
    pub fn find_block_start(&self, line: &str) -> (r: Option<(usize, usize, usize)>)
        ensures
            match r {
                Some((pos, len, k)) => block_start(self@, vstd::utf8::encode_utf8(line@)) == Some(
                    (pos as int, len as int, k as int),
                ),
                None => block_start(self@, vstd::utf8::encode_utf8(line@)) is None,
            },
    {
        self.find_start_in(line.as_bytes())
    }

    /// Where an open comment of the kind `pair` closes or, if `nested`, where a
    /// marker of the same kind deepens it. Markers of other kinds are passed
    /// over.
    pub fn find_end_in(&self, line: &[u8], nested: bool, pair: usize) -> (r: Option<
        (usize, usize, bool),
    >)
        ensures
            match r {
                Some((pos, len, opens)) => block_end_or_start(
                    self@,
                    line@,
                    nested,
                    pair as int,
                ) == Some((pos as int, len as int, opens)) && pos + len <= line@.len() && len > 0,
                None => block_end_or_start(self@, line@, nested, pair as int) is None,
            },
    {
        proof {
            use_type_invariant(self);
            lemma_pair_match(self@.starts, line@, 0, pair as int);
            lemma_pair_match(self@.ends, line@, 0, pair as int);
        }
        let start = if nested {
            find_pair_match(&self.start_automaton, line, pair)
        } else {
            None
        };
        let end = find_pair_match(&self.end_automaton, line, pair);
        match (start, end) {
            (Some(s), Some(e)) => {
                if s.0 < e.0 {
                    Some((s.0, s.1, true))
                } else {
                    Some((e.0, e.1, false))
                }
            },
            (Some(s), None) => Some((s.0, s.1, true)),
            (None, Some(e)) => Some((e.0, e.1, false)),
            (None, None) => None,
        }
    }

    /// Where an open comment of the kind `pair` closes or deepens in `line`.
    pub fn find_block_end_or_nested_start(&self, line: &str, nested: bool, pair: usize) -> (r:
        Option<(usize, usize, bool)>)
        ensures
            match r {
                Some((pos, len, opens)) => block_end_or_start(
                    self@,
                    vstd::utf8::encode_utf8(line@),
                    nested,
                    pair as int,
                ) == Some((pos as int, len as int, opens)),
                None => block_end_or_start(
                    self@,
                    vstd::utf8::encode_utf8(line@),
                    nested,
                    pair as int,
                ) is None,
            },
    {
        self.find_end_in(line.as_bytes(), nested, pair)
    }
}

/// What `pair_match` finds is a marker of that kind, within bounds.
pub proof fn lemma_pair_match(pats: Seq<Seq<u8>>, hay: Seq<u8>, at: int, pair: int)
    requires
        all_filled(pats),
        0 <= at,
    ensures
        match pair_match(pats, hay, at, pair) {
            Some((pos, len)) => {
                &&& at <= pos
                &&& 0 <= pair < pats.len()
                &&& len == pats[pair].len()
                &&& stands_at(hay, pats[pair], pos)
            },
            None => true,
        },
    decreases hay.len() - at,
{
    lemma_leftmost(pats, hay, at);
    match leftmost(pats, hay, at) {
        Some((pos, k)) => {
            if k != pair {
                lemma_pair_match(pats, hay, pos + pats[k].len(), pair);
            }
        },
        None => {},
    }
}

/// A comment is closed only by the marker that belongs to the one that opened
/// it.
pub proof fn only_own_marker_closes(m: BlockModel, line: Seq<u8>, nested: bool, pair: int)
    requires
        all_filled(m.starts),
        all_filled(m.ends),
    ensures
        match block_end_or_start(m, line, nested, pair) {
            Some((pos, len, opens)) => if opens {
                nested && 0 <= pair < m.starts.len() && stands_at(line, m.starts[pair], pos)
            } else {
                0 <= pair < m.ends.len() && stands_at(line, m.ends[pair], pos)
            },
            None => true,
        },
{
    lemma_pair_match(m.starts, line, 0, pair);
    lemma_pair_match(m.ends, line, 0, pair);
}

// ---------------------------------------------------------------------------
// All markers of a language
// ---------------------------------------------------------------------------

/// Automata for the comment markers of a language; `None` where it has no
/// markers of the kind.
#[derive(Debug)]
pub struct LanguageMatchers {
    pub line_comments: Option<LineCommentMatcher>,
    pub block_comments: Option<BlockCommentMatchers>,
}

/// An automaton for the markers of line comments.
#[derive(Debug)]
pub struct LineCommentMatcher {
    automaton: AhoCorasick,
}

impl View for LineCommentMatcher {
    type V = Seq<Seq<u8>>;

    closed spec fn view(&self) -> Seq<Seq<u8>> {
        automaton_patterns(self.automaton)
    }
}

impl LineCommentMatcher {
    #[verifier::type_invariant]
    spec fn built_here(self) -> bool {
        is_leftmost_first(self.automaton) && all_filled(automaton_patterns(self.automaton))
    }

    /// An automaton for the given markers.
    pub fn build(tokens: &[&'static str]) -> (r: LineCommentMatcher)
        requires
            are_tokens(tokens@),
        ensures
            r@ == byte_views(tokens@),
    {
        proof {
            lemma_filled(tokens@);
        }
        LineCommentMatcher { automaton: build_automaton(tokens) }
    }

    /// The leftmost marker at or after `at`: position, length and number.
    pub fn find_at(&self, line: &[u8], at: usize) -> (r: Option<(usize, usize, usize)>)
        requires
            at <= line@.len(),
        ensures
            match r {
                Some((pos, len, k)) => {
                    &&& leftmost(self@, line@, at as int) == Some((pos as int, k as int))
                    &&& k < self@.len()
                    &&& len == self@[k as int].len()
                    &&& len > 0
                    &&& at <= pos
                    &&& pos + len <= line@.len()
                },
                None => leftmost(self@, line@, at as int) is None,
            },
    {
        proof {
            use_type_invariant(self);
            lemma_leftmost(self@, line@, at as int);
        }
        automaton_find(&self.automaton, line, at)
    }
}

/// The markers of a language are such that automata can be built from them.
pub open spec fn well_marked(lang: Language) -> bool {
    are_tokens(lang.line_comments@) && are_pairs(lang.block_comments@)
}

/// The matchers hold the markers of the language.
pub open spec fn matchers_of(m: LanguageMatchers, lang: Language) -> bool {
    &&& match m.line_comments {
        Some(l) => lang.line_comments@.len() > 0 && l@ == byte_views(lang.line_comments@),
        None => lang.line_comments@.len() == 0,
    }
    &&& match m.block_comments {
        Some(b) => lang.block_comments@.len() > 0 && b@ == pair_model(lang.block_comments@),
        None => lang.block_comments@.len() == 0,
    }
}

/// Builds the matchers of a language.
pub fn language_matchers(lang: &Language) -> (r: LanguageMatchers)
    requires
        well_marked(*lang),
    ensures
        matchers_of(r, *lang),
{
    let line_comments = if lang.line_comments.len() == 0 {
        None
    } else {
        Some(LineCommentMatcher::build(lang.line_comments))
    };
    let block_comments = if lang.block_comments.len() == 0 {
        None
    } else {
        Some(BlockCommentMatchers::build(lang.block_comments))
    };
    LanguageMatchers { line_comments, block_comments }
}

/// The leftmost match is the first place where any pattern stands, and of the
/// patterns that stand there the first.
pub proof fn leftmost_is_leftmost(pats: Seq<Seq<u8>>, hay: Seq<u8>, at: int)
    requires
        0 <= at,
    ensures
        match leftmost(pats, hay, at) {
            Some((pos, k)) => {
                &&& at <= pos
                &&& 0 <= k < pats.len()
                &&& stands_at(hay, pats[k], pos)
                &&& forall|j: int| 0 <= j < k ==> !stands_at(hay, #[trigger] pats[j], pos)
                &&& forall|i: int, j: int|
                    at <= i < pos && 0 <= j < pats.len() ==> !#[trigger] stands_at(hay, pats[j], i)
            },
            None => forall|i: int, j: int|
                at <= i && 0 <= j < pats.len() ==> !#[trigger] stands_at(hay, pats[j], i),
        },
    decreases hay.len() - at + 1,
{
    if at <= hay.len() {
        lemma_first_of(pats, hay, at, 0);
        if first_standing(pats, hay, at, 0) is None {
            leftmost_is_leftmost(pats, hay, at + 1);
            assert forall|j: int| 0 <= j < pats.len() implies !#[trigger] stands_at(
                hay,
                pats[j],
                at,
            ) by {
                assert(!stands_at(hay, pats[j], at));
            }
        }
    }
}

proof fn lemma_first_of(pats: Seq<Seq<u8>>, hay: Seq<u8>, i: int, k: int)
    requires
        0 <= k <= pats.len(),
    ensures
        match first_standing(pats, hay, i, k) {
            Some(j) => k <= j < pats.len() && stands_at(hay, pats[j], i) && forall|q: int|
                k <= q < j ==> !stands_at(hay, #[trigger] pats[q], i),
            None => forall|q: int| k <= q < pats.len() ==> !stands_at(hay, #[trigger] pats[q], i),
        },
    decreases pats.len() - k,
{
    if k < pats.len() {
        lemma_first_of(pats, hay, i, k + 1);
    }
}

/// Of an end and, where comments nest, a start of the open kind the first in the
/// line counts.
pub proof fn the_first_marker_counts(m: BlockModel, line: Seq<u8>, nested: bool, pair: int)
    ensures
        ({
            let start = pair_match(m.starts, line, 0, pair);
            let end = pair_match(m.ends, line, 0, pair);
            let r = block_end_or_start(m, line, nested, pair);
            &&& !nested && end is None ==> r is None
            &&& !nested && end is Some ==> r == Some(((end->0).0, (end->0).1, false))
            &&& nested && start is None && end is None ==> r is None
            &&& nested && start is None && end is Some ==> r == Some(((end->0).0, (end->0).1, false))
            &&& nested && start is Some && end is None ==> r == Some(((start->0).0, (start->0).1, true))
            &&& nested && start is Some && end is Some && (start->0).0 < (end->0).0 ==> r == Some(
                ((start->0).0, (start->0).1, true),
            )
            &&& nested && start is Some && end is Some && (start->0).0 >= (end->0).0 ==> r == Some(
                ((end->0).0, (end->0).1, false),
            )
        }),
{
}

} // verus!
