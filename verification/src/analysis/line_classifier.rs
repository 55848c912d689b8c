//! Classifies the lines of a file as code, comment, blank or shebang.

use vstd::prelude::*;

use crate::fold;
use crate::langs::scoring;
use crate::langs::scoring::{
    language_matchers, BlockCommentMatchers, BlockModel, LanguageMatchers, LineCommentMatcher,
};
use crate::langs::Language;
use crate::text;

verus! {

/// `memchr::memrchr` gives the last position of a byte.
pub assume_specification[ memchr::memrchr ](needle: u8, haystack: &[u8]) -> (r: Option<usize>)
    ensures
        match r {
            Some(i) => {
                &&& i < haystack@.len()
                &&& haystack@[i as int] == needle
                &&& forall|j: int| i < j < haystack@.len() ==> haystack@[j] != needle
            },
            None => forall|j: int| 0 <= j < haystack@.len() ==> haystack@[j] != needle,
        },
;

/// `memchr::memchr2` gives the first position of either of two bytes.
pub assume_specification[ memchr::memchr2 ](
    needle1: u8,
    needle2: u8,
    haystack: &[u8],
) -> (r: Option<usize>)
    ensures
        match r {
            Some(i) => {
                &&& i < haystack@.len()
                &&& haystack@[i as int] == needle1 || haystack@[i as int] == needle2
                &&& forall|j: int|
                    0 <= j < i ==> haystack@[j] != needle1 && haystack@[j] != needle2
            },
            None => forall|j: int|
                0 <= j < haystack@.len() ==> haystack@[j] != needle1 && haystack@[j] != needle2,
        },
;

#[derive(Debug, Clone, Copy, PartialEq, Eq, Structural)]
pub enum LineType {
    Code,
    Comment,
    Blank,
    Shebang,
}

/// How deep in block comments a file stands, and which kind of comment it is.
#[derive(Debug, Clone, Copy, PartialEq, Eq, Structural)]
pub struct CommentState {
    block_comment_depth: usize,
    pair: usize,
}

/// Depth and kind; the kind of a closed comment is of no consequence.
pub struct CommentModel {
    pub depth: int,
    pub pair: int,
}

impl View for CommentState {
    type V = CommentModel;

    closed spec fn view(&self) -> CommentModel {
        CommentModel { depth: self.block_comment_depth as int, pair: self.pair as int }
    }
}

impl CommentModel {
    pub open spec fn outside() -> CommentModel {
        CommentModel { depth: 0, pair: 0 }
    }

    pub open spec fn opened(self, pair: int) -> CommentModel {
        CommentModel { depth: 1, pair }
    }

    pub open spec fn deeper(self) -> CommentModel {
        CommentModel {
            depth: if self.depth < usize::MAX {
                self.depth + 1
            } else {
                self.depth
            },
            pair: self.pair,
        }
    }

    pub open spec fn left(self, nested: bool) -> CommentModel {
        CommentModel {
            depth: if nested && self.depth > 0 {
                self.depth - 1
            } else {
                0
            },
            pair: self.pair,
        }
    }
}

impl Default for CommentState {
    fn default() -> (r: Self)
        ensures
            r@ == CommentModel::outside(),
    {
        CommentState { block_comment_depth: 0, pair: 0 }
    }
}

impl CommentState {
    /// The state at the start of a file.
    #[must_use]
    pub fn new() -> (r: Self)
        ensures
            r@ == CommentModel::outside(),
    {
        CommentState { block_comment_depth: 0, pair: 0 }
    }

    fn enter_first_block(&mut self, pair: usize)
        ensures
            final(self)@ == old(self)@.opened(pair as int),
    {
        self.block_comment_depth = 1;
        self.pair = pair;
    }

    fn exit_block(&mut self, nested: bool)
        ensures
            final(self)@ == old(self)@.left(nested),
    {
        if nested {
            self.block_comment_depth = self.block_comment_depth.saturating_sub(1);
        } else {
            self.block_comment_depth = 0;
        }
    }

    fn enter_nested_block(&mut self)
        ensures
            final(self)@ == old(self)@.deeper(),
    {
        self.block_comment_depth = self.block_comment_depth.saturating_add(1);
    }

    /// Whether a block comment is open.
    pub fn is_in_comment(&self) -> (r: bool)
        ensures
            r == (self@.depth > 0),
    {
        self.block_comment_depth > 0
    }

    fn open_pair(&self) -> (r: usize)
        ensures
            r == self@.pair,
    {
        self.pair
    }
}

/// How many lines of each kind there are.
#[derive(Debug, Clone, Copy, PartialEq, Eq, Structural)]
pub struct LineCounts {
    pub code: u64,
    pub comment: u64,
    pub blank: u64,
    pub shebang: u64,
}

impl Default for LineCounts {
    fn default() -> (r: Self)
        ensures
            r == (LineCounts { code: 0, comment: 0, blank: 0, shebang: 0 }),
    {
        LineCounts { code: 0, comment: 0, blank: 0, shebang: 0 }
    }
}

impl LineCounts {
    /// All lines together.
    #[must_use]
    pub fn total(&self) -> (r: u64)
        requires
            self.code + self.comment + self.blank + self.shebang <= u64::MAX,
        ensures
            r == self.code + self.comment + self.blank + self.shebang,
    {
        self.code + self.comment + self.blank + self.shebang
    }
}

// ---------------------------------------------------------------------------
// What a line is
// ---------------------------------------------------------------------------

/// ASCII white space.
pub open spec fn is_ws(b: u8) -> bool {
    b == 0x20 || b == 0x09 || b == 0x0a || b == 0x0d || b == 0x0b || b == 0x0c
}

/// Something other than white space stands in `s`.
pub open spec fn is_visible(s: Seq<u8>) -> bool {
    exists|i: int| 0 <= i < s.len() && !is_ws(#[trigger] s[i])
}

pub open spec fn trim_left(s: Seq<u8>) -> Seq<u8>
    decreases s.len(),
{
    if s.len() > 0 && is_ws(s[0]) {
        trim_left(s.skip(1))
    } else {
        s
    }
}

pub open spec fn trim_right(s: Seq<u8>) -> Seq<u8>
    decreases s.len(),
{
    if s.len() > 0 && is_ws(s.last()) {
        trim_right(s.drop_last())
    } else {
        s
    }
}

/// `s` without white space at either end.
pub open spec fn trim_ws(s: Seq<u8>) -> Seq<u8> {
    trim_right(trim_left(s))
}

/// ASCII letters, digits and the underscore.
pub open spec fn is_word_byte(b: u8) -> bool {
    ||| 0x61 <= b <= 0x7a
    ||| 0x41 <= b <= 0x5a
    ||| 0x30 <= b <= 0x39
    ||| b == 0x5f
}

/// The marker before position `end` opens a comment, unless it is a word that
/// goes on.
pub open spec fn is_whole_marker(line: Seq<u8>, end: int, token: Seq<u8>) -> bool {
    &&& token.len() > 0
    &&& !(is_word_byte(token[0]) && end < line.len() && is_word_byte(line[end]))
}

/// Where the first line comment at or after `at` opens.
pub open spec fn line_comment_at(tokens: Seq<Seq<u8>>, line: Seq<u8>, at: int) -> Option<int>
    decreases line.len() - at,
    when scoring::all_filled(tokens)
    via line_comment_at_shrinks
{
    match scoring::leftmost(tokens, line, at) {
        None => None,
        Some((pos, k)) => if is_whole_marker(line, pos + tokens[k].len(), tokens[k]) {
            Some(pos)
        } else {
            line_comment_at(tokens, line, pos + tokens[k].len())
        },
    }
}

#[via_fn]
proof fn line_comment_at_shrinks(tokens: Seq<Seq<u8>>, line: Seq<u8>, at: int) {
    scoring::lemma_leftmost(tokens, line, at);
}

/// What a scan for block comments leaves: the rest of the line, the state, and
/// whether code was seen outside the comments.
pub struct Scan {
    pub rest: Seq<u8>,
    pub state: CommentModel,
    pub code: bool,
}

/// Follows the block comments of a line.
pub open spec fn scan_blocks(m: BlockModel, nested: bool, s: Scan) -> Scan
    decreases s.rest.len(),
    when scoring::all_filled(m.starts) && scoring::all_filled(m.ends)
    via scan_blocks_shrinks
{
    if s.rest.len() == 0 {
        s
    } else if s.state.depth <= 0 {
        match scoring::block_start(m, s.rest) {
            None => s,
            Some((pos, len, k)) => scan_blocks(
                m,
                nested,
                Scan {
                    rest: s.rest.skip(pos + len),
                    state: s.state.opened(k),
                    code: s.code || is_visible(s.rest.take(pos)),
                },
            ),
        }
    } else {
        match scoring::block_end_or_start(m, s.rest, nested, s.state.pair) {
            None => s,
            Some((pos, len, opens)) => scan_blocks(
                m,
                nested,
                Scan {
                    rest: s.rest.skip(pos + len),
                    state: if opens {
                        s.state.deeper()
                    } else {
                        s.state.left(nested)
                    },
                    code: s.code,
                },
            ),
        }
    }
}

#[via_fn]
proof fn scan_blocks_shrinks(m: BlockModel, nested: bool, s: Scan) {
    scoring::lemma_leftmost(m.starts, s.rest, 0);
    scoring::lemma_pair_match(m.starts, s.rest, 0, s.state.pair);
    scoring::lemma_pair_match(m.ends, s.rest, 0, s.state.pair);
}

pub open spec fn code_if(code: bool) -> LineType {
    if code {
        LineType::Code
    } else {
        LineType::Comment
    }
}

/// A shebang line of the language, once the blank after the marker is gone.
pub open spec fn is_shebang_of(lang: Language, line: Seq<u8>) -> bool {
    let plain = if seq![0x23u8, 0x21u8, 0x20u8].is_prefix_of(line) {
        seq![0x23u8, 0x21u8] + line.skip(3)
    } else {
        line
    };
    exists|i: int|
        0 <= i < lang.shebangs@.len() && vstd::utf8::encode_utf8(
            #[trigger] lang.shebangs@[i]@,
        ).is_prefix_of(plain)
}

/// What a line is, and the state it leaves.
pub open spec fn classified(
    line: Seq<u8>,
    lang: Option<Language>,
    state: CommentModel,
    first: bool,
) -> (LineType, CommentModel) {
    let trimmed = trim_ws(line);
    if trimmed.len() == 0 {
        (LineType::Blank, state)
    } else {
        match lang {
            None => (LineType::Code, state),
            Some(l) => if first && seq![0x23u8, 0x21u8].is_prefix_of(trimmed) && is_shebang_of(
                l,
                trimmed,
            ) {
                (LineType::Shebang, state)
            } else {
                classified_text(trimmed, l, state)
            },
        }
    }
}

/// What a line with text in it is, and the state it leaves.
pub open spec fn classified_text(line: Seq<u8>, lang: Language, state: CommentModel) -> (
    LineType,
    CommentModel,
) {
    let given = Scan { rest: line, state, code: false };
    let s = if lang.block_comments@.len() > 0 {
        scan_blocks(scoring::pair_model(lang.block_comments@), lang.nested_blocks, given)
    } else {
        given
    };
    if s.state.depth > 0 {
        (code_if(s.code), s.state)
    } else {
        let marker = if lang.line_comments@.len() > 0 {
            line_comment_at(scoring::byte_views(lang.line_comments@), s.rest, 0)
        } else {
            None
        };
        match marker {
            Some(pos) => (code_if(s.code || is_visible(s.rest.take(pos))), s.state),
            None => (code_if(s.code || is_visible(s.rest)), s.state),
        }
    }
}

/// The kinds of the lines, and the state they leave.
pub open spec fn classified_lines(lines: Seq<Seq<char>>, lang: Option<Language>) -> (
    Seq<LineType>,
    CommentModel,
)
    decreases lines.len(),
{
    if lines.len() == 0 {
        (Seq::empty(), CommentModel::outside())
    } else {
        let (kinds, state) = classified_lines(lines.drop_last(), lang);
        let (kind, next) = classified(
            vstd::utf8::encode_utf8(lines.last()),
            lang,
            state,
            lines.len() == 1,
        );
        (kinds.push(kind), next)
    }
}

/// The kinds of the lines of a file.
pub open spec fn line_kinds(content: Seq<char>, lang: Option<Language>) -> Seq<LineType> {
    classified_lines(text::lines_of(content), lang).0
}

pub open spec fn is_kind(k: LineType) -> spec_fn(LineType) -> bool {
    |t: LineType| t == k
}

/// `None` where the reference is missing, the value behind it otherwise.
pub open spec fn opt_lang(lang: Option<&Language>) -> Option<Language> {
    match lang {
        Some(l) => Some(*l),
        None => None,
    }
}

// ---------------------------------------------------------------------------
// Facts
// ---------------------------------------------------------------------------

proof fn lemma_trim_left(s: Seq<u8>, i: int)
    requires
        0 <= i <= s.len(),
        forall|j: int| 0 <= j < i ==> is_ws(#[trigger] s[j]),
        i < s.len() ==> !is_ws(s[i]),
    ensures
        trim_left(s) == s.skip(i),
    decreases s.len(),
{
    if i == 0 {
        assert(s.skip(0) =~= s);
    } else {
        assert(is_ws(s[0]));
        let t = s.skip(1);
        assert forall|j: int| 0 <= j < i - 1 implies is_ws(#[trigger] t[j]) by {
            assert(t[j] == s[j + 1]);
        }
        lemma_trim_left(t, i - 1);
        assert(t.skip(i - 1) =~= s.skip(i));
    }
}

proof fn lemma_trim_right(s: Seq<u8>, i: int)
    requires
        0 <= i <= s.len(),
        forall|j: int| i <= j < s.len() ==> is_ws(#[trigger] s[j]),
        i > 0 ==> !is_ws(s[i - 1]),
    ensures
        trim_right(s) == s.take(i),
    decreases s.len(),
{
    if i == s.len() {
        assert(s.take(i) =~= s);
    } else {
        assert(is_ws(s[s.len() - 1]));
        lemma_trim_right(s.drop_last(), i);
        assert(s.drop_last().take(i) =~= s.take(i));
    }
}

/// Lines and kinds come in equal number.
pub proof fn one_kind_per_line(lines: Seq<Seq<char>>, lang: Option<Language>)
    ensures
        classified_lines(lines, lang).0.len() == lines.len(),
    decreases lines.len(),
{
    if lines.len() > 0 {
        one_kind_per_line(lines.drop_last(), lang);
    }
}

proof fn lemma_kinds_add_up(kinds: Seq<LineType>)
    ensures
        fold::count(kinds, is_kind(LineType::Code)) + fold::count(
            kinds,
            is_kind(LineType::Comment),
        ) + fold::count(kinds, is_kind(LineType::Blank)) + fold::count(
            kinds,
            is_kind(LineType::Shebang),
        ) == kinds.len(),
    decreases kinds.len(),
{
    if kinds.len() > 0 {
        lemma_kinds_add_up(kinds.drop_last());
    }
}

/// Every line of a file is counted once.
pub proof fn counts_add_up(content: Seq<char>, lang: Option<Language>)
    ensures
        fold::count(line_kinds(content, lang), is_kind(LineType::Code)) + fold::count(
            line_kinds(content, lang),
            is_kind(LineType::Comment),
        ) + fold::count(line_kinds(content, lang), is_kind(LineType::Blank)) + fold::count(
            line_kinds(content, lang),
            is_kind(LineType::Shebang),
        ) == text::lines_of(content).len(),
{
    one_kind_per_line(text::lines_of(content), lang);
    lemma_kinds_add_up(line_kinds(content, lang));
}

/// Without a language, a line is blank or it is code.
pub proof fn unknown_language_has_no_comments(line: Seq<u8>, state: CommentModel, first: bool)
    ensures
        classified(line, None, state, first).0 == (if trim_ws(line).len() == 0 {
            LineType::Blank
        } else {
            LineType::Code
        }),
        classified(line, None, state, first).1 == state,
{
}

// ---------------------------------------------------------------------------
// Operations
// ---------------------------------------------------------------------------

fn is_ascii_ws(b: u8) -> (r: bool)
    ensures
        r == is_ws(b),
{
    b == 0x20 || b == 0x09 || b == 0x0a || b == 0x0d || b == 0x0b || b == 0x0c
}

fn is_word_char(b: u8) -> (r: bool)
    ensures
        r == is_word_byte(b),
{
    (0x61 <= b && b <= 0x7a) || (0x41 <= b && b <= 0x5a) || (0x30 <= b && b <= 0x39) || b == 0x5f
}

/// The line without white space at either end. The line ending goes first.
fn trim_ascii(line: &[u8]) -> (r: &[u8])
    ensures
        r@ == trim_ws(line@),
{
    let mut start: usize = 0;
    let mut end: usize = line.len();
    if let Some(pos) = memchr::memrchr(0x0a, line) {
        if pos + 1 == end {
            end = pos;
            if end > 0 && line[end - 1] == 0x0d {
                end -= 1;
            }
        }
    }
    while start < end && is_ascii_ws(line[start])
        invariant
            start <= end <= line@.len(),
            forall|j: int| 0 <= j < start ==> is_ws(#[trigger] line@[j]),
            forall|j: int| end <= j < line@.len() ==> is_ws(#[trigger] line@[j]),
        decreases end - start,
    {
        start += 1;
    }
    let ghost first_end = end;
    while end > start && is_ascii_ws(line[end - 1])
        invariant
            start <= end <= first_end <= line@.len(),
            start < first_end ==> !is_ws(line@[start as int]),
            forall|j: int| end <= j < line@.len() ==> is_ws(#[trigger] line@[j]),
        decreases end - start,
    {
        end -= 1;
    }
    let r = vstd::slice::slice_subrange(line, start, end);
    proof {
        if start == first_end {
            // Nothing but white space.
            lemma_trim_left(line@, line@.len() as int);
            assert(line@.skip(line@.len() as int) =~= Seq::empty());
            assert(r@ =~= Seq::empty());
        } else {
            lemma_trim_left(line@, start as int);
            let rest = line@.skip(start as int);
            if end > start {
                assert(rest[end - start - 1] == line@[end - 1]);
            }
            assert forall|j: int| end - start <= j < rest.len() implies is_ws(#[trigger] rest[j]) by {
                assert(rest[j] == line@[j + start]);
            }
            lemma_trim_right(rest, end - start);
            assert(r@ =~= rest.take(end - start));
        }
    }
    r
}

/// Whether anything but white space stands in `s`.
fn contains_non_whitespace(s: &[u8]) -> (r: bool)
    ensures
        r == is_visible(s@),
{
    let size: usize = s.len();
    let mut idx: usize = 0;
    while idx < size
        invariant
            size == s@.len(),
            idx <= size,
            forall|j: int| 0 <= j < idx ==> is_ws(#[trigger] s@[j]),
        decreases size - idx,
    {
        let byte = s[idx];
        if !is_ascii_ws(byte) {
            proof {
                assert(!is_ws(s@[idx as int]));
            }
            return true;
        }
        if byte == 0x20 || byte == 0x09 {
            let rest = vstd::slice::slice_subrange(s, idx, size);
            proof {
                assert(rest@[0] == byte);
            }
            if let Some(pos) = memchr::memchr2(0x20, 0x09, rest) {
                idx = idx + pos + 1;
            } else {
                idx = size;
            }
        } else {
            idx += 1;
        }
    }
    false
}

fn bytes_start_with(s: &[u8], p: &[u8]) -> (r: bool)
    ensures
        r == p@.is_prefix_of(s@),
{
    if p.len() > s.len() {
        return false;
    }
    let mut i: usize = 0;
    while i < p.len()
        invariant
            i <= p@.len() <= s@.len(),
            forall|j: int| 0 <= j < i ==> s@[j] == p@[j],
        decreases p@.len() - i,
    {
        if s[i] != p[i] {
            proof {
                assert(s@.subrange(0, p@.len() as int)[i as int] == s@[i as int]);
            }
            return false;
        }
        i += 1;
    }
    proof {
        assert(p@ =~= s@.subrange(0, p@.len() as int));
    }
    true
}

/// The line comment markers count only where they are not part of a word.
fn is_valid_line_comment_match(line: &[u8], end: usize, token: &[u8]) -> (r: bool)
    ensures
        r == is_whole_marker(line@, end as int, token@),
{
    if token.len() == 0 {
        return false;
    }
    !(is_word_char(token[0]) && end < line.len() && is_word_char(line[end]))
}

#[verifier::loop_isolation(false)]
fn is_shebang_line(lang: &Language, line: &[u8]) -> (r: bool)
    ensures
        r == is_shebang_of(*lang, line@),
{
    let marker: [u8; 3] = [0x23, 0x21, 0x20];
    proof {
        assert(marker@ =~= seq![0x23u8, 0x21u8, 0x20u8]);
    }
    let mut plain: Vec<u8> = Vec::new();
    if bytes_start_with(line, &marker) {
        plain.push(0x23);
        plain.push(0x21);
        let rest = vstd::slice::slice_subrange(line, 3, line.len());
        plain.extend_from_slice(rest);
        proof {
            assert(plain@ =~= seq![0x23u8, 0x21u8] + line@.skip(3));
        }
    } else {
        plain.extend_from_slice(line);
        proof {
            assert(plain@ =~= line@);
        }
    }
    let ghost p = plain@;
    let mut i: usize = 0;
    while i < lang.shebangs.len()
        invariant
            i <= lang.shebangs@.len(),
            p == plain@,
            forall|k: int|
                0 <= k < i ==> !vstd::utf8::encode_utf8(
                    #[trigger] lang.shebangs@[k]@,
                ).is_prefix_of(p),
        decreases lang.shebangs@.len() - i,
    {
        if bytes_start_with(plain.as_slice(), lang.shebangs[i].as_bytes()) {
            return true;
        }
        i += 1;
    }
    false
}

/// Follows the block comments of a line: the rest of the line, and whether
/// there is code outside the comments.
#[verifier::loop_isolation(false)]
fn handle_block_comments<'a>(
    line: &'a [u8],
    matchers: &BlockCommentMatchers,
    comment_state: &mut CommentState,
    nested: bool,
) -> (r: (&'a [u8], bool))
    requires
        scoring::all_filled(matchers@.starts),
        scoring::all_filled(matchers@.ends),
    ensures
        (Scan { rest: r.0@, state: final(comment_state)@, code: r.1 }) == scan_blocks(
            matchers@,
            nested,
            Scan { rest: line@, state: old(comment_state)@, code: false },
        ),
{
    let mut rest: &'a [u8] = line;
    let mut has_code = false;
    let ghost goal = scan_blocks(
        matchers@,
        nested,
        Scan { rest: line@, state: comment_state@, code: false },
    );
    while rest.len() > 0
        invariant
            scoring::all_filled(matchers@.starts),
            scoring::all_filled(matchers@.ends),
            goal == scan_blocks(
                matchers@,
                nested,
                Scan { rest: rest@, state: comment_state@, code: has_code },
            ),
        decreases rest@.len(),
    {
        let size: usize = rest.len();
        if !comment_state.is_in_comment() {
            if let Some((pos, len, pair)) = matchers.find_start_in(rest) {
                let before = vstd::slice::slice_subrange(rest, 0, pos);
                proof {
                    assert(before@ =~= rest@.take(pos as int));
                }
                if contains_non_whitespace(before) {
                    has_code = true;
                }
                let ghost given = rest@;
                rest = vstd::slice::slice_subrange(rest, pos + len, size);
                proof {
                    assert(rest@ =~= given.skip(pos + len));
                }
                comment_state.enter_first_block(pair);
            } else {
                return (rest, has_code);
            }
        } else if let Some((pos, len, opens)) = matchers.find_end_in(
            rest,
            nested,
            comment_state.open_pair(),
        ) {
            if opens {
                comment_state.enter_nested_block();
            } else {
                comment_state.exit_block(nested);
            }
            let ghost given = rest@;
            rest = vstd::slice::slice_subrange(rest, pos + len, size);
            proof {
                assert(rest@ =~= given.skip(pos + len));
            }
        } else {
            return (rest, has_code);
        }
    }
    (rest, has_code)
}

fn find_line_comment(
    matcher: &LineCommentMatcher,
    lang: &Language,
    line: &[u8],
) -> (r: Option<usize>)
    requires
        matcher@ == scoring::byte_views(lang.line_comments@),
        scoring::all_filled(matcher@),
    ensures
        match r {
            Some(pos) => line_comment_at(matcher@, line@, 0) == Some(pos as int) && pos
                <= line@.len(),
            None => line_comment_at(matcher@, line@, 0) is None,
        },
{
    let size: usize = line.len();
    let mut at: usize = 0;
    loop
        invariant
            size == line@.len(),
            at <= size,
            matcher@ == scoring::byte_views(lang.line_comments@),
            scoring::all_filled(matcher@),
            line_comment_at(matcher@, line@, 0) == line_comment_at(matcher@, line@, at as int),
        decreases size - at,
    {
        match matcher.find_at(line, at) {
            None => {
                return None;
            },
            Some((pos, len, k)) => {
                let token = lang.line_comments[k].as_bytes();
                if is_valid_line_comment_match(line, pos + len, token) {
                    return Some(pos);
                }
                at = pos + len;
            },
        }
    }
}

/// Classifies a single line, given the matchers of its language.
pub fn classify_with(
    line: &str,
    lang: &Language,
    matchers: &LanguageMatchers,
    comment_state: &mut CommentState,
    is_first_line: bool,
) -> (r: LineType)
    requires
        scoring::well_marked(*lang),
        scoring::matchers_of(*matchers, *lang),
    ensures
        (r, final(comment_state)@) == classified(
            vstd::utf8::encode_utf8(line@),
            Some(*lang),
            old(comment_state)@,
            is_first_line,
        ),
{
    let trimmed = trim_ascii(line.as_bytes());
    if trimmed.len() == 0 {
        return LineType::Blank;
    }
    if is_first_line {
        let marker: [u8; 2] = [0x23, 0x21];
        proof {
            assert(marker@ =~= seq![0x23u8, 0x21u8]);
        }
        if bytes_start_with(trimmed, &marker) && is_shebang_line(lang, trimmed) {
            return LineType::Shebang;
        }
    }
    let mut rest: &[u8] = trimmed;
    let mut has_code = false;
    if let Some(blocks) = &matchers.block_comments {
        proof {
            lemma_pair_model_filled(lang.block_comments@);
        }
        let (after, found) = handle_block_comments(
            trimmed,
            blocks,
            comment_state,
            lang.nested_blocks,
        );
        rest = after;
        has_code = found;
    }
    if comment_state.is_in_comment() {
        return if has_code {
            LineType::Code
        } else {
            LineType::Comment
        };
    }
    let mut visible = rest;
    if let Some(lines) = &matchers.line_comments {
        proof {
            lemma_byte_views_filled(lang.line_comments@);
        }
        if let Some(pos) = find_line_comment(lines, lang, rest) {
            visible = vstd::slice::slice_subrange(rest, 0, pos);
            proof {
                assert(visible@ =~= rest@.take(pos as int));
            }
        }
    }
    if has_code || contains_non_whitespace(visible) {
        LineType::Code
    } else {
        LineType::Comment
    }
}

proof fn lemma_byte_views_filled(s: Seq<&'static str>)
    requires
        scoring::are_tokens(s),
    ensures
        scoring::all_filled(scoring::byte_views(s)),
{
    assert forall|k: int| 0 <= k < s.len() implies (#[trigger] scoring::byte_views(s)[k]).len()
        > 0 by {
        scoring::lemma_encoding_filled(s[k]@);
    }
}

proof fn lemma_pair_model_filled(s: Seq<(&'static str, &'static str)>)
    requires
        scoring::are_pairs(s),
    ensures
        scoring::all_filled(scoring::pair_model(s).starts),
        scoring::all_filled(scoring::pair_model(s).ends),
{
    assert forall|k: int| 0 <= k < s.len() implies (#[trigger] scoring::pair_model(
        s,
    ).starts[k]).len() > 0 by {
        scoring::lemma_encoding_filled(s[k].0@);
    }
    assert forall|k: int| 0 <= k < s.len() implies (#[trigger] scoring::pair_model(
        s,
    ).ends[k]).len() > 0 by {
        scoring::lemma_encoding_filled(s[k].1@);
    }
}

/// Classifies a single line as code, comment, blank or shebang.
pub fn classify_line(
    line: &str,
    lang_info: Option<&Language>,
    comment_state: &mut CommentState,
    is_first_line: bool,
) -> (r: LineType)
    requires
        lang_info matches Some(l) ==> scoring::well_marked(*l),
    ensures
        (r, final(comment_state)@) == classified(
            vstd::utf8::encode_utf8(line@),
            opt_lang(lang_info),
            old(comment_state)@,
            is_first_line,
        ),
{
    match lang_info {
        Some(lang) => {
            let matchers = language_matchers(lang);
            classify_with(line, lang, &matchers, comment_state, is_first_line)
        },
        None => {
            let trimmed = trim_ascii(line.as_bytes());
            if trimmed.len() == 0 {
                LineType::Blank
            } else {
                LineType::Code
            }
        },
    }
}

/// Classifies every line of `content`. If `lang` is `None`, every line that is
/// not blank counts as code.
#[must_use]
pub fn count_lines(content: &str, lang: Option<&Language>) -> (r: LineCounts)
    requires
        lang matches Some(l) ==> scoring::well_marked(*l),
    ensures
        r.code == fold::count(line_kinds(content@, opt_lang(lang)), is_kind(LineType::Code)),
        r.comment == fold::count(line_kinds(content@, opt_lang(lang)), is_kind(LineType::Comment)),
        r.blank == fold::count(line_kinds(content@, opt_lang(lang)), is_kind(LineType::Blank)),
        r.shebang == fold::count(line_kinds(content@, opt_lang(lang)), is_kind(LineType::Shebang)),
        r.code + r.comment + r.blank + r.shebang == text::lines_of(content@).len(),
        r.code + r.comment + r.blank + r.shebang <= u64::MAX,
{
    let matchers: Option<LanguageMatchers> = match lang {
        Some(l) => Some(language_matchers(l)),
        None => None,
    };
    let lines = text::lines(content);
    let ghost all = text::lines_of(content@);
    let ghost model = opt_lang(lang);
    let size: usize = lines.len();
    let mut counts = LineCounts::default();
    let mut state = CommentState::new();
    let mut i: usize = 0;
    proof {
        assert(text::views(lines@).len() == lines@.len());
    }
    while i < size
        invariant
            i <= size,
            size == lines@.len(),
            all == text::views(lines@),
            model == opt_lang(lang),
            lang matches Some(l) ==> scoring::well_marked(*l),
            match (lang, matchers) {
                (Some(l), Some(m)) => scoring::matchers_of(m, *l),
                (None, None) => true,
                _ => false,
            },
            state@ == classified_lines(all.take(i as int), model).1,
            counts.code == fold::count(
                classified_lines(all.take(i as int), model).0,
                is_kind(LineType::Code),
            ),
            counts.comment == fold::count(
                classified_lines(all.take(i as int), model).0,
                is_kind(LineType::Comment),
            ),
            counts.blank == fold::count(
                classified_lines(all.take(i as int), model).0,
                is_kind(LineType::Blank),
            ),
            counts.shebang == fold::count(
                classified_lines(all.take(i as int), model).0,
                is_kind(LineType::Shebang),
            ),
            counts.code + counts.comment + counts.blank + counts.shebang == i,
        decreases size - i,
    {
        let line = lines[i].as_str();
        let ghost before = classified_lines(all.take(i as int), model);
        let ghost t = all.take(i + 1);
        proof {
            assert(all[i as int] == lines@[i as int]@);
            assert(t.drop_last() =~= all.take(i as int));
            assert(t.last() == line@);
        }
        let kind = match (lang, &matchers) {
            (Some(l), Some(m)) => classify_with(line, l, m, &mut state, i == 0),
            _ => classify_line(line, None, &mut state, i == 0),
        };
        proof {
            let after = classified_lines(t, model).0;
            assert(after == before.0.push(kind));
            assert(after.drop_last() =~= before.0);
        }
        match kind {
            LineType::Code => counts.code += 1,
            LineType::Comment => counts.comment += 1,
            LineType::Blank => counts.blank += 1,
            LineType::Shebang => counts.shebang += 1,
        }
        i += 1;
    }
    proof {
        assert(all.take(size as int) =~= all);
    }
    counts
}

proof fn lemma_starts_visible(s: Seq<u8>)
    ensures
        !is_visible(s) ==> trim_left(s).len() == 0,
        is_visible(s) ==> trim_left(s).len() > 0 && !is_ws(trim_left(s)[0]),
    decreases s.len(),
{
    if s.len() > 0 {
        let rest = s.skip(1);
        if is_ws(s[0]) {
            lemma_starts_visible(rest);
            if is_visible(s) {
                let i = choose|i: int| 0 <= i < s.len() && !is_ws(#[trigger] s[i]);
                assert(rest[i - 1] == s[i]);
            }
            if is_visible(rest) {
                let i = choose|i: int| 0 <= i < rest.len() && !is_ws(#[trigger] rest[i]);
                assert(s[i + 1] == rest[i]);
            }
        } else {
            assert(!is_ws(s[0]));
        }
    }
}

proof fn lemma_keeps_start(s: Seq<u8>)
    ensures
        s.len() > 0 && !is_ws(s[0]) ==> trim_right(s).len() > 0 && trim_right(s)[0] == s[0],
    decreases s.len(),
{
    if s.len() > 0 && is_ws(s.last()) {
        lemma_keeps_start(s.drop_last());
    }
}

/// A line is blank where, and only where, nothing but white space stands in it;
/// it leaves the comments as they were.
pub proof fn blank_lines_are_blank(
    line: Seq<u8>,
    lang: Option<Language>,
    state: CommentModel,
    first: bool,
)
    ensures
        classified(line, lang, state, first).0 == LineType::Blank <==> forall|i: int|
            0 <= i < line.len() ==> is_ws(#[trigger] line[i]),
        classified(line, lang, state, first).0 == LineType::Blank ==> classified(
            line,
            lang,
            state,
            first,
        ).1 == state,
{
    lemma_starts_visible(line);
    lemma_keeps_start(trim_left(line));
}

proof fn lemma_first_standing(pats: Seq<Seq<u8>>, hay: Seq<u8>, i: int, k: int)
    requires
        0 <= k <= pats.len(),
    ensures
        match scoring::first_standing(pats, hay, i, k) {
            Some(j) => k <= j < pats.len() && scoring::stands_at(hay, pats[j], i),
            None => forall|j: int|
                k <= j < pats.len() ==> !scoring::stands_at(hay, #[trigger] pats[j], i),
        },
    decreases pats.len() - k,
{
    if k < pats.len() {
        lemma_first_standing(pats, hay, i, k + 1);
    }
}

proof fn lemma_marker_stands(tokens: Seq<Seq<u8>>, line: Seq<u8>, at: int)
    requires
        scoring::all_filled(tokens),
        0 <= at,
    ensures
        line_comment_at(tokens, line, at) matches Some(pos) ==> at <= pos && exists|k: int|
            0 <= k < tokens.len() && scoring::stands_at(line, #[trigger] tokens[k], pos),
    decreases line.len() - at,
{
    scoring::lemma_leftmost(tokens, line, at);
    match scoring::leftmost(tokens, line, at) {
        Some((pos, k)) => {
            assert(tokens[k].len() > 0);
            if !is_whole_marker(line, pos + tokens[k].len(), tokens[k]) {
                lemma_marker_stands(tokens, line, pos + tokens[k].len());
            } else {
                assert(scoring::stands_at(line, tokens[k], pos));
            }
        },
        None => {},
    }
}

proof fn lemma_well_marked(lang: Language)
    requires
        scoring::well_marked(lang),
    ensures
        scoring::all_filled(scoring::byte_views(lang.line_comments@)),
        scoring::all_filled(scoring::pair_model(lang.block_comments@).starts),
        scoring::all_filled(scoring::pair_model(lang.block_comments@).ends),
{
    let tokens = scoring::byte_views(lang.line_comments@);
    assert forall|k: int| 0 <= k < tokens.len() implies (#[trigger] tokens[k]).len() > 0 by {
        scoring::lemma_encoding_filled(lang.line_comments@[k]@);
    }
    let m = scoring::pair_model(lang.block_comments@);
    assert forall|k: int| 0 <= k < m.starts.len() implies (#[trigger] m.starts[k]).len() > 0 by {
        scoring::lemma_encoding_filled(lang.block_comments@[k].0@);
    }
    assert forall|k: int| 0 <= k < m.ends.len() implies (#[trigger] m.ends[k]).len() > 0 by {
        scoring::lemma_encoding_filled(lang.block_comments@[k].1@);
    }
}

/// No block comment of the language opens in the line.
pub open spec fn opens_no_block(line: Seq<u8>, lang: Language) -> bool {
    let starts = scoring::pair_model(lang.block_comments@).starts;
    forall|k: int, i: int|
        0 <= k < starts.len() ==> !#[trigger] scoring::stands_at(line, starts[k], i)
}

proof fn lemma_nothing_opens(line: Seq<u8>, lang: Language, state: CommentModel)
    requires
        scoring::well_marked(lang),
        opens_no_block(line, lang),
        state.depth <= 0,
    ensures
        ({
            let given = Scan { rest: line, state, code: false };
            lang.block_comments@.len() > 0 ==> scan_blocks(
                scoring::pair_model(lang.block_comments@),
                lang.nested_blocks,
                given,
            ) == given
        }),
{
    lemma_well_marked(lang);
    let m = scoring::pair_model(lang.block_comments@);
    scoring::lemma_leftmost(m.starts, line, 0);
}

/// Outside of block comments a line that starts with a marker of its language is
/// a comment, where no block opens in it and the marker is no word.
pub proof fn marked_lines_are_comments(line: Seq<u8>, lang: Language, state: CommentModel, k: int)
    requires
        scoring::well_marked(lang),
        state.depth <= 0,
        opens_no_block(trim_ws(line), lang),
        0 <= k < lang.line_comments@.len(),
        scoring::stands_at(trim_ws(line), vstd::utf8::encode_utf8(lang.line_comments@[k]@), 0),
        forall|j: int|
            0 <= j < lang.line_comments@.len() ==> !is_word_byte(
                vstd::utf8::encode_utf8(#[trigger] lang.line_comments@[j]@)[0],
            ),
    ensures
        classified(line, Some(lang), state, false) == (LineType::Comment, state),
{
    let t = trim_ws(line);
    let tokens = scoring::byte_views(lang.line_comments@);
    lemma_well_marked(lang);
    lemma_nothing_opens(t, lang, state);
    lemma_first_standing(tokens, t, 0, 0);
    assert(scoring::stands_at(t, tokens[k], 0));
    let j = scoring::first_standing(tokens, t, 0, 0)->0;
    assert(scoring::leftmost(tokens, t, 0) == Some((0int, j)));
    assert(tokens[j] == vstd::utf8::encode_utf8(lang.line_comments@[j]@));
    assert(is_whole_marker(t, tokens[j].len() as int, tokens[j]));
    assert(line_comment_at(tokens, t, 0) == Some(0int));
    assert(!is_visible(t.take(0)));
    assert(tokens[k].len() > 0);
    assert(t.len() > 0);
}

/// Outside of block comments a line is code where it starts with no marker of its
/// language and no block opens in it, whatever follows.
pub proof fn unmarked_lines_are_code(line: Seq<u8>, lang: Language, state: CommentModel)
    requires
        scoring::well_marked(lang),
        state.depth <= 0,
        is_visible(line),
        opens_no_block(trim_ws(line), lang),
        forall|j: int|
            0 <= j < lang.line_comments@.len() ==> !scoring::stands_at(
                trim_ws(line),
                vstd::utf8::encode_utf8(#[trigger] lang.line_comments@[j]@),
                0,
            ),
    ensures
        classified(line, Some(lang), state, false) == (LineType::Code, state),
{
    let t = trim_ws(line);
    let tokens = scoring::byte_views(lang.line_comments@);
    lemma_starts_visible(line);
    lemma_keeps_start(trim_left(line));
    lemma_well_marked(lang);
    lemma_nothing_opens(t, lang, state);
    lemma_marker_stands(tokens, t, 0);
    assert(!is_ws(t[0]));
    match line_comment_at(tokens, t, 0) {
        Some(pos) => {
            let k = choose|k: int|
                0 <= k < tokens.len() && scoring::stands_at(t, #[trigger] tokens[k], pos);
            assert(tokens[k] == vstd::utf8::encode_utf8(lang.line_comments@[k]@));
            assert(!scoring::stands_at(t, vstd::utf8::encode_utf8(lang.line_comments@[k]@), 0));
            assert(pos > 0);
            assert(t.take(pos)[0] == t[0]);
            assert(is_visible(t.take(pos)));
        },
        None => {
            assert(is_visible(t));
        },
    }
}

/// A line in a block comment is a comment, and the comment goes on, where what
/// closes it does not stand in the line, nor what deepens it.
pub proof fn open_blocks_go_on(line: Seq<u8>, lang: Language, state: CommentModel)
    requires
        scoring::well_marked(lang),
        state.depth > 0,
        is_visible(line),
        0 <= state.pair < lang.block_comments@.len(),
        forall|i: int|
            !#[trigger] scoring::stands_at(
                trim_ws(line),
                vstd::utf8::encode_utf8(lang.block_comments@[state.pair].1@),
                i,
            ),
        lang.nested_blocks ==> forall|i: int|
            !#[trigger] scoring::stands_at(
                trim_ws(line),
                vstd::utf8::encode_utf8(lang.block_comments@[state.pair].0@),
                i,
            ),
    ensures
        classified(line, Some(lang), state, false) == (LineType::Comment, state),
{
    let t = trim_ws(line);
    let m = scoring::pair_model(lang.block_comments@);
    lemma_starts_visible(line);
    lemma_keeps_start(trim_left(line));
    lemma_well_marked(lang);
    scoring::lemma_pair_match(m.ends, t, 0, state.pair);
    scoring::lemma_pair_match(m.starts, t, 0, state.pair);
    assert(m.ends[state.pair] == vstd::utf8::encode_utf8(lang.block_comments@[state.pair].1@));
    assert(m.starts[state.pair] == vstd::utf8::encode_utf8(lang.block_comments@[state.pair].0@));
    assert(scoring::block_end_or_start(m, t, lang.nested_blocks, state.pair) is None);
}

/// What opens in a comment that nests makes it deeper, and what closes leads back
/// one level; other comments are closed at once.
pub proof fn nesting_goes_in_and_out(state: CommentModel, pair: int)
    requires
        0 <= state.depth < usize::MAX,
    ensures
        state.opened(pair).depth == 1,
        state.opened(pair).pair == pair,
        state.deeper().left(true) == state,
        state.deeper().depth == state.depth + 1,
        state.left(false).depth == 0,
        CommentModel::outside().depth == 0,
{
}

/// The first line of a file is a shebang where it names an interpreter of the
/// language.
pub proof fn shebangs_stand_first(line: Seq<u8>, lang: Language, state: CommentModel, first: bool)
    requires
        is_visible(line),
    ensures
        classified(line, Some(lang), state, first).0 == LineType::Shebang <==> first && seq![
            0x23u8,
            0x21u8,
        ].is_prefix_of(trim_ws(line)) && is_shebang_of(lang, trim_ws(line)),
{
    lemma_starts_visible(line);
    lemma_keeps_start(trim_left(line));
}

/// Leaving a comment undoes going one deeper, no comment is left twice, and a
/// language without nested comments is out of them at once.
pub proof fn comments_are_left_one_by_one(c: CommentModel, nested: bool)
    requires
        0 <= c.depth <= usize::MAX,
    ensures
        0 <= c.left(nested).depth <= c.depth,
        c.left(nested).pair == c.pair,
        !nested ==> c.left(nested).depth == 0,
        c.depth < usize::MAX ==> c.deeper().left(true) == c,
        c.depth < usize::MAX ==> c.deeper().depth == c.depth + 1,
        forall|k: int| (#[trigger] c.opened(k)).left(nested).depth == 0 && c.opened(k).pair == k,
        CommentModel::outside().left(nested).depth == 0,
{
}

/// Code that was seen on a line is not forgotten at a comment, and what is visible
/// before a comment opens is code.
pub proof fn code_before_a_comment_counts(m: BlockModel, nested: bool, s: Scan)
    requires
        scoring::all_filled(m.starts),
        scoring::all_filled(m.ends),
    ensures
        s.code ==> scan_blocks(m, nested, s).code,
        s.state.depth <= 0 && s.rest.len() > 0 ==> (scoring::block_start(m, s.rest) matches Some(
            b,
        ) ==> is_visible(s.rest.take(b.0)) ==> scan_blocks(m, nested, s).code),
    decreases s.rest.len(),
{
    scoring::lemma_leftmost(m.starts, s.rest, 0);
    scoring::lemma_pair_match(m.starts, s.rest, 0, s.state.pair);
    scoring::lemma_pair_match(m.ends, s.rest, 0, s.state.pair);
    if s.rest.len() == 0 {
    } else if s.state.depth <= 0 {
        match scoring::block_start(m, s.rest) {
            None => {},
            Some((pos, len, k)) => {
                code_before_a_comment_counts(
                    m,
                    nested,
                    Scan {
                        rest: s.rest.skip(pos + len),
                        state: s.state.opened(k),
                        code: s.code || is_visible(s.rest.take(pos)),
                    },
                );
            },
        }
    } else {
        match scoring::block_end_or_start(m, s.rest, nested, s.state.pair) {
            None => {},
            Some((pos, len, opens)) => {
                code_before_a_comment_counts(
                    m,
                    nested,
                    Scan {
                        rest: s.rest.skip(pos + len),
                        state: if opens {
                            s.state.deeper()
                        } else {
                            s.state.left(nested)
                        },
                        code: s.code,
                    },
                );
            },
        }
    }
}

} // verus!
