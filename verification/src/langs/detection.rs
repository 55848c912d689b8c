//! Which language a file is written in.

use vstd::prelude::*;

use super::data;
use super::data::{languages, Language};
use crate::fold;
use crate::text;

verus! {

/// The points for a comment marker that is seen.
pub const COMMENT_MATCH_SCORE: u64 = 50;

/// The points for each time a keyword is seen.
pub const KEYWORD_MATCH_SCORE: u64 = 10;

/// No keyword counts more often than this.
pub const KEYWORD_COUNT_CAP: usize = 214748364;

// ---------------------------------------------------------------------------
// File names
// ---------------------------------------------------------------------------

/// Whether a file name fits a pattern, capitals or not.
pub open spec fn fits_pattern(name: Seq<char>, pattern: Seq<char>) -> bool {
    let n = text::lower_ascii(name);
    let p = text::lower_ascii(pattern);
    if p.len() > 0 && p[0] == '*' {
        p.skip(1).is_suffix_of(n)
    } else {
        n == p
    }
}

pub open spec fn fits_language(name: Seq<char>, lang: Language) -> bool {
    exists|i: int|
        0 <= i < lang.patterns@.len() && fits_pattern(name, #[trigger] lang.patterns@[i]@)
}

/// The languages of `table` that a file name fits.
pub open spec fn fitting(table: Seq<Language>, name: Seq<char>) -> Seq<Language>
    decreases table.len(),
{
    if table.len() == 0 {
        Seq::empty()
    } else if fits_language(name, table.last()) {
        fitting(table.drop_last(), name).push(table.last())
    } else {
        fitting(table.drop_last(), name)
    }
}

/// The languages whose patterns the name of a file fits.
pub open spec fn candidates(filename: Seq<char>) -> Seq<Language> {
    fitting(data::language_table(), text::after_last(filename, '/'))
}

fn pattern_fits(lower_name: &str, pattern: &str, Ghost(name): Ghost<Seq<char>>) -> (r: bool)
    requires
        lower_name@ == text::lower_ascii(name),
    ensures
        r == fits_pattern(name, pattern@),
{
    let lower = text::to_lower_ascii(pattern);
    let p = text::to_chars(lower.as_str());
    if p.len() > 0 && p[0] == '*' {
        let rest = vstd::slice::slice_subrange(p.as_slice(), 1, p.len());
        proof {
            assert(rest@ =~= lower@.skip(1));
        }
        let suffix = text::to_text(rest);
        text::ends_with(lower_name, suffix.as_str())
    } else {
        text::same(lower_name, lower.as_str())
    }
}

fn language_fits(lower_name: &str, lang: &Language, Ghost(name): Ghost<Seq<char>>) -> (r: bool)
    requires
        lower_name@ == text::lower_ascii(name),
    ensures
        r == fits_language(name, *lang),
{
    let mut i: usize = 0;
    while i < lang.patterns.len()
        invariant
            i <= lang.patterns@.len(),
            lower_name@ == text::lower_ascii(name),
            forall|k: int| 0 <= k < i ==> !fits_pattern(name, #[trigger] lang.patterns@[k]@),
        decreases lang.patterns@.len() - i,
    {
        if pattern_fits(lower_name, lang.patterns[i], Ghost(name)) {
            return true;
        }
        i += 1;
    }
    false
}

/// The languages whose patterns the name of a file fits.
pub fn get_candidates(filename: &str) -> (r: Vec<Language>)
    ensures
        r@ == candidates(filename@),
{
    let name = text::tail_after(filename, '/');
    let lower = text::to_lower_ascii(name.as_str());
    let table = languages();
    let mut out: Vec<Language> = Vec::new();
    let mut i: usize = 0;
    while i < table.len()
        invariant
            i <= table@.len(),
            lower@ == text::lower_ascii(name@),
            out@ == fitting(table@.take(i as int), name@),
        decreases table@.len() - i,
    {
        proof {
            assert(table@.take(i + 1).drop_last() =~= table@.take(i as int));
        }
        if language_fits(lower.as_str(), &table[i], Ghost(name@)) {
            out.push(table[i]);
        }
        i += 1;
    }
    proof {
        assert(table@.take(table@.len() as int) =~= table@);
    }
    out
}

// ---------------------------------------------------------------------------
// Shebangs
// ---------------------------------------------------------------------------

/// A shebang without the blank that may follow its marker.
pub open spec fn plain_shebang(line: Seq<char>) -> Seq<char> {
    if "#! "@.is_prefix_of(line) {
        "#!"@ + line.skip("#! "@.len() as int)
    } else {
        line
    }
}

pub open spec fn has_shebang(lang: Language, line: Seq<char>) -> bool {
    exists|i: int| 0 <= i < lang.shebangs@.len() && (#[trigger] lang.shebangs@[i]@).is_prefix_of(line)
}

/// The first language of `table` that claims the shebang `line`.
pub open spec fn claimed(table: Seq<Language>, line: Seq<char>) -> Option<Language>
    decreases table.len(),
{
    if table.len() == 0 {
        None
    } else if has_shebang(table[0], line) {
        Some(table[0])
    } else {
        claimed(table.skip(1), line)
    }
}

/// The language that the first line of `content` names.
pub open spec fn shebang_language(content: Seq<char>) -> Option<Language> {
    let lines = text::lines_of(content);
    if lines.len() == 0 {
        None
    } else {
        let line = text::trim(lines[0]);
        if "#!"@.is_prefix_of(line) {
            claimed(data::language_table(), plain_shebang(line))
        } else {
            None
        }
    }
}

/// A shebang without the blank that may follow its marker.
pub fn normalize_shebang(line: &str) -> (r: String)
    ensures
        r@ == plain_shebang(line@),
{
    match text::strip_prefix(line, "#! ") {
        Some(rest) => text::cat("#!", rest.as_str()),
        None => text::copy_text(line),
    }
}

/// Whether `line` starts with one of the shebangs of `lang`.
pub fn claims_shebang(lang: &Language, line: &str) -> (r: bool)
    ensures
        r == has_shebang(*lang, line@),
{
    let mut i: usize = 0;
    while i < lang.shebangs.len()
        invariant
            i <= lang.shebangs@.len(),
            forall|k: int|
                0 <= k < i ==> !(#[trigger] lang.shebangs@[k]@).is_prefix_of(line@),
        decreases lang.shebangs@.len() - i,
    {
        if text::starts_with(line, lang.shebangs[i]) {
            return true;
        }
        i += 1;
    }
    false
}

/// The language that the first line of `content` names.
pub fn detect_from_shebang(content: &str) -> (r: Option<Language>)
    ensures
        r == shebang_language(content@),
{
    let ls = text::lines(content);
    proof {
        assert(text::views(ls@).len() == ls@.len());
    }
    if ls.len() == 0 {
        return None;
    }
    proof {
        assert(text::views(ls@)[0] == ls@[0]@);
    }
    let trimmed = text::trimmed(ls[0].as_str());
    if !text::starts_with(trimmed.as_str(), "#!") {
        return None;
    }
    let line = normalize_shebang(trimmed.as_str());
    let table = languages();
    let mut i: usize = 0;
    proof {
        assert(table@.skip(0) =~= table@);
    }
    while i < table.len()
        invariant
            i <= table@.len(),
            shebang_language(content@) == claimed(table@.skip(i as int), line@),
        decreases table@.len() - i,
    {
        if claims_shebang(&table[i], line.as_str()) {
            return Some(table[i]);
        }
        proof {
            assert(table@.skip(i as int).skip(1) =~= table@.skip(i + 1));
        }
        i += 1;
    }
    None
}

// ---------------------------------------------------------------------------
// Scoring
// ---------------------------------------------------------------------------

/// The characters that words are made of.
pub open spec fn is_word_char(c: char) -> bool {
    text::is_alnum_ascii(c) || c == '_'
}

/// The words of a text: its longest runs of word characters.
pub open spec fn words(s: Seq<char>) -> Seq<Seq<char>>
    decreases s.len(),
{
    if s.len() == 0 {
        Seq::empty()
    } else {
        let head = words(s.drop_last());
        if !is_word_char(s.last()) {
            head
        } else if s.len() > 1 && is_word_char(s[s.len() - 2]) {
            head.drop_last().push(head.last().push(s.last()))
        } else {
            head.push(seq![s.last()])
        }
    }
}

/// How often `p` stands in `s`, read from the left without overlap.
pub open spec fn occurrences(s: Seq<char>, p: Seq<char>) -> nat
    decreases s.len(),
{
    if s.len() == 0 || p.len() == 0 {
        0
    } else if p.is_prefix_of(s) {
        1 + occurrences(s.skip(p.len() as int), p)
    } else {
        occurrences(s.skip(1), p)
    }
}

pub open spec fn has_symbol(keyword: Seq<char>) -> bool {
    exists|i: int| 0 <= i < keyword.len() && !is_word_char(#[trigger] keyword[i])
}

pub open spec fn equals_word(keyword: Seq<char>) -> spec_fn(Seq<char>) -> bool {
    |w: Seq<char>| text::lower_ascii(w) == text::lower_ascii(keyword)
}

/// How often a keyword is seen: as a piece of the content if it holds a
/// symbol, as a word of its own otherwise.
pub open spec fn keyword_count(content: Seq<char>, keyword: Seq<char>) -> nat {
    if has_symbol(keyword) {
        occurrences(content, keyword)
    } else {
        fold::count(words(content), equals_word(keyword))
    }
}

pub open spec fn keyword_points(content: Seq<char>) -> spec_fn(&'static str) -> nat {
    |k: &'static str|
        {
            let n = keyword_count(content, k@);
            KEYWORD_MATCH_SCORE as nat * if n < KEYWORD_COUNT_CAP {
                n
            } else {
                KEYWORD_COUNT_CAP as nat
            }
        }
}

/// The bytes of content that a keyword with a symbol accounts for.
pub open spec fn keyword_bytes(content: Seq<char>) -> spec_fn(&'static str) -> nat {
    |k: &'static str|
        if has_symbol(k@) {
            occurrences(content, k@) * vstd::utf8::encode_utf8(k@).len()
        } else {
            0
        }
}

pub open spec fn marker_seen(content: Seq<char>) -> spec_fn(&'static str) -> bool {
    |m: &'static str| text::contains(content, m@)
}

pub open spec fn pair_seen(content: Seq<char>) -> spec_fn((&'static str, &'static str)) -> bool {
    |m: (&'static str, &'static str)|
        text::contains(content, m.0@) && text::contains(content, m.1@)
}

pub open spec fn all_symbols(keyword: Seq<char>) -> bool {
    forall|i: int| 0 <= i < keyword.len() ==> !is_word_char(#[trigger] keyword[i])
}

/// A language whose only marks are keywords without letters or digits.
pub open spec fn is_symbol_only(lang: Language) -> bool {
    &&& lang.keywords@.len() > 0
    &&& forall|i: int| 0 <= i < lang.keywords@.len() ==> all_symbols(#[trigger] lang.keywords@[i]@)
    &&& lang.line_comments@.len() == 0
    &&& lang.block_comments@.len() == 0
}

pub open spec fn not_white() -> spec_fn(char) -> bool {
    |c: char| !text::is_white(c)
}

/// The points that comment markers and keywords earn, uncapped.
pub open spec fn raw_score(lang: Language, content: Seq<char>) -> nat {
    COMMENT_MATCH_SCORE as nat * fold::count(lang.line_comments@, marker_seen(content)) + COMMENT_MATCH_SCORE as nat * fold::count(
        lang.block_comments@,
        pair_seen(content),
    ) + fold::total(lang.keywords@, keyword_points(content))
}

/// How well the content fits the language. A language of symbols only gets
/// nothing unless they make up half of what is not white space.
pub open spec fn score(lang: Language, content: Seq<char>) -> int {
    let dense = 2 * fold::total(lang.keywords@, keyword_bytes(content)) >= fold::count(
        content,
        not_white(),
    );
    if is_symbol_only(lang) && words(content).len() > 0 && !dense {
        0
    } else {
        let n = raw_score(lang, content) as int;
        if n < i32::MAX {
            n
        } else {
            i32::MAX as int
        }
    }
}

/// The candidate with the highest score, the later one of two that tie.
pub open spec fn best(langs: Seq<Language>, content: Seq<char>) -> Option<Language>
    decreases langs.len(),
{
    if langs.len() == 0 {
        None
    } else {
        match best(langs.drop_last(), content) {
            None => Some(langs.last()),
            Some(b) => if score(langs.last(), content) >= score(b, content) {
                Some(langs.last())
            } else {
                Some(b)
            },
        }
    }
}

/// The best candidate, unless nothing speaks for it.
pub open spec fn clear_winner(langs: Seq<Language>, content: Seq<char>) -> Option<Language> {
    match best(langs, content) {
        Some(b) => if score(b, content) > 0 {
            Some(b)
        } else {
            None
        },
        None => None,
    }
}

/// The language of a file, given its name and, if at hand, its content.
pub open spec fn detected(filename: Seq<char>, content: Option<Seq<char>>) -> Option<Language> {
    let found = candidates(filename);
    if found.len() == 1 {
        Some(found[0])
    } else {
        match content {
            None => None,
            Some(c) => match shebang_language(c) {
                Some(l) => Some(l),
                None => if found.len() == 0 {
                    None
                } else {
                    clear_winner(found, c)
                },
            },
        }
    }
}

fn is_word(c: char) -> (r: bool)
    ensures
        r == is_word_char(c),
{
    ('a' <= c && c <= 'z') || ('A' <= c && c <= 'Z') || ('0' <= c && c <= '9') || c == '_'
}

/// The words of a text.
pub fn tokenize(content: &str) -> (r: Vec<String>)
    ensures
        text::views(r@) == words(content@),
{
    let v = text::to_chars(content);
    let mut out: Vec<String> = Vec::new();
    let mut cur = String::new();
    let mut open = false;
    let mut i: usize = 0;
    proof {
        assert(v@.take(0) =~= Seq::empty());
        assert(text::views(out@) =~= Seq::empty());
    }
    while i < v.len()
        invariant
            i <= v@.len(),
            open == (i > 0 && is_word_char(v@[i - 1])),
            !open ==> text::views(out@) == words(v@.take(i as int)) && cur@.len() == 0,
            open ==> text::views(out@).push(cur@) == words(v@.take(i as int)),
        decreases v@.len() - i,
    {
        let ghost head = words(v@.take(i as int));
        let ghost before = text::views(out@);
        let ghost t = v@.take(i + 1);
        let c = v[i];
        proof {
            assert(t.drop_last() =~= v@.take(i as int));
            assert(t.last() == c);
            if i > 0 {
                assert(t[t.len() - 2] == v@[i - 1]);
            }
        }
        if is_word(c) {
            let ghost cur0 = cur@;
            cur.push(c);
            proof {
                if open {
                    assert(head.drop_last() =~= before);
                    assert(head.last() == cur0);
                } else {
                    assert(cur@ =~= seq![c]);
                }
            }
            open = true;
        } else if open {
            out.push(cur);
            cur = String::new();
            proof {
                assert(text::views(out@) =~= head);
            }
            open = false;
        }
        i += 1;
    }
    proof {
        assert(v@.take(v@.len() as int) =~= content@);
    }
    if open {
        let ghost before = text::views(out@);
        out.push(cur);
        proof {
            assert(text::views(out@) =~= before.push(cur@));
        }
    }
    out
}

proof fn lemma_occurrences_gap(s: Seq<char>, p: Seq<char>, from: int, i: int)
    requires
        p.len() > 0,
        0 <= from <= i <= s.len(),
        forall|j: int| from <= j < i ==> !text::occurs_at(s, p, j),
    ensures
        occurrences(s.skip(from), p) == occurrences(s.skip(i), p),
    decreases i - from,
{
    if from < i {
        let t = s.skip(from);
        if p.is_prefix_of(t) {
            assert(s.subrange(from, from + p.len()) =~= t.subrange(0, p.len() as int));
            assert(text::occurs_at(s, p, from));
        }
        assert(t.skip(1) =~= s.skip(from + 1));
        lemma_occurrences_gap(s, p, from + 1, i);
    }
}

proof fn lemma_occurrences_bound(s: Seq<char>, p: Seq<char>)
    ensures
        occurrences(s, p) <= s.len(),
    decreases s.len(),
{
    if s.len() > 0 && p.len() > 0 {
        if p.is_prefix_of(s) {
            lemma_occurrences_bound(s.skip(p.len() as int), p);
        } else {
            lemma_occurrences_bound(s.skip(1), p);
        }
    }
}

fn count_occurrences(h: &[char], p: &[char]) -> (r: usize)
    ensures
        r == occurrences(h@, p@),
{
    if p.len() == 0 {
        return 0;
    }
    let size: usize = h.len();
    let mut n: usize = 0;
    let mut from: usize = 0;
    proof {
        assert(h@.skip(0) =~= h@);
        lemma_occurrences_bound(h@, p@);
    }
    loop
        invariant
            size == h@.len(),
            p@.len() > 0,
            from <= size,
            occurrences(h@, p@) <= size,
            n + occurrences(h@.skip(from as int), p@) == occurrences(h@, p@),
        decreases size - from,
    {
        match text::find_from(h, p, from) {
            Some(i) => {
                proof {
                    lemma_occurrences_gap(h@, p@, from as int, i as int);
                    let t = h@.skip(i as int);
                    assert(t.subrange(0, p@.len() as int) =~= h@.subrange(i as int, i + p@.len()));
                    assert(t.skip(p@.len() as int) =~= h@.skip(i + p@.len()));
                    assert(i + p@.len() <= size);
                }
                n += 1;
                from = i + p.len();
            },
            None => {
                proof {
                    lemma_occurrences_gap(h@, p@, from as int, size as int);
                }
                return n;
            },
        }
    }
}

fn holds_symbol(keyword: &str) -> (r: bool)
    ensures
        r == has_symbol(keyword@),
{
    let v = text::to_chars(keyword);
    let mut i: usize = 0;
    while i < v.len()
        invariant
            v@ == keyword@,
            i <= v@.len(),
            forall|k: int| 0 <= k < i ==> is_word_char(#[trigger] keyword@[k]),
        decreases v@.len() - i,
    {
        if !is_word(v[i]) {
            proof {
                assert(!is_word_char(keyword@[i as int]));
            }
            return true;
        }
        i += 1;
    }
    false
}

fn only_symbols(keyword: &str) -> (r: bool)
    ensures
        r == all_symbols(keyword@),
{
    let v = text::to_chars(keyword);
    let mut i: usize = 0;
    while i < v.len()
        invariant
            v@ == keyword@,
            i <= v@.len(),
            forall|k: int| 0 <= k < i ==> !is_word_char(#[trigger] keyword@[k]),
        decreases v@.len() - i,
    {
        if is_word(v[i]) {
            proof {
                assert(is_word_char(keyword@[i as int]));
            }
            return false;
        }
        i += 1;
    }
    true
}

fn count_words(tokens: &[String], keyword: &str) -> (r: usize)
    ensures
        r == fold::count(text::views(tokens@), equals_word(keyword@)),
{
    let lower = text::to_lower_ascii(keyword);
    let ghost all = text::views(tokens@);
    let ghost f = equals_word(keyword@);
    let size: usize = tokens.len();
    let mut n: usize = 0;
    let mut i: usize = 0;
    while i < size
        invariant
            i <= size,
            size == tokens@.len(),
            all == text::views(tokens@),
            f == equals_word(keyword@),
            lower@ == text::lower_ascii(keyword@),
            n == fold::count(all.take(i as int), f),
            n <= i,
        decreases size - i,
    {
        proof {
            fold::lemma_count_step(all, f, i as int);
            assert(all[i as int] == tokens@[i as int]@);
        }
        let t = text::to_lower_ascii(tokens[i].as_str());
        if text::same(t.as_str(), lower.as_str()) {
            n += 1;
        }
        i += 1;
    }
    proof {
        assert(all.take(size as int) =~= all);
    }
    n
}

/// Whether a language has nothing but keywords without letters or digits.
pub fn is_symbol_only_language(lang: &Language) -> (r: bool)
    ensures
        r == is_symbol_only(*lang),
{
    if lang.keywords.len() == 0 || lang.line_comments.len() != 0 || lang.block_comments.len() != 0 {
        return false;
    }
    let mut i: usize = 0;
    while i < lang.keywords.len()
        invariant
            i <= lang.keywords@.len(),
            forall|k: int| 0 <= k < i ==> all_symbols(#[trigger] lang.keywords@[k]@),
        decreases lang.keywords@.len() - i,
    {
        if !only_symbols(lang.keywords[i]) {
            return false;
        }
        i += 1;
    }
    true
}

fn sat_points(score: i32, points: u64) -> (r: i32)
    requires
        score >= 0,
    ensures
        r as int == (if score as int + points as int >= i32::MAX as int {
            i32::MAX as int
        } else {
            score as int + points as int
        }),
{
    let room: u64 = (i32::MAX - score) as u64;
    if points >= room {
        i32::MAX
    } else {
        score + points as i32
    }
}

spec fn capped(n: int) -> int {
    if n >= i32::MAX {
        i32::MAX as int
    } else {
        n
    }
}

fn marker_score(lang: &Language, content: &str) -> (r: i32)
    ensures
        r >= 0,
        r as int == capped(
            (COMMENT_MATCH_SCORE as nat * fold::count(lang.line_comments@, marker_seen(content@)) + COMMENT_MATCH_SCORE as nat * fold::count(
                lang.block_comments@,
                pair_seen(content@),
            )) as int,
        ),
{
    let ghost f = marker_seen(content@);
    let ghost g = pair_seen(content@);
    let ghost lines = lang.line_comments@;
    let ghost blocks = lang.block_comments@;
    let mut score: i32 = 0;
    let mut i: usize = 0;
    while i < lang.line_comments.len()
        invariant
            i <= lines.len(),
            lines == lang.line_comments@,
            f == marker_seen(content@),
            score >= 0,
            score as int == capped(COMMENT_MATCH_SCORE as nat * fold::count(lines.take(i as int), f) as int),
        decreases lines.len() - i,
    {
        proof {
            fold::lemma_count_step(lines, f, i as int);
        }
        if text::has(content, lang.line_comments[i]) {
            score = sat_points(score, COMMENT_MATCH_SCORE);
        }
        i += 1;
    }
    proof {
        assert(lines.take(lines.len() as int) =~= lines);
    }
    let mut k: usize = 0;
    while k < lang.block_comments.len()
        invariant
            k <= blocks.len(),
            blocks == lang.block_comments@,
            g == pair_seen(content@),
            score >= 0,
            score as int == capped(
                (COMMENT_MATCH_SCORE as nat * fold::count(lines, f) + COMMENT_MATCH_SCORE as nat * fold::count(blocks.take(k as int), g)) as int,
            ),
        decreases blocks.len() - k,
    {
        proof {
            fold::lemma_count_step(blocks, g, k as int);
        }
        let (start, end) = lang.block_comments[k];
        if text::has(content, start) && text::has(content, end) {
            score = sat_points(score, COMMENT_MATCH_SCORE);
        }
        k += 1;
    }
    proof {
        assert(blocks.take(blocks.len() as int) =~= blocks);
    }
    score
}

fn sat_add(a: usize, b: usize, c: usize) -> (r: usize)
    ensures
        r as int == (if a as int + b as int * c as int >= usize::MAX as int {
            usize::MAX as int
        } else {
            a as int + b as int * c as int
        }),
{
    proof {
        assert(0 <= b as int * c as int <= 0xffff_ffff_ffff_ffff * 0xffff_ffff_ffff_ffff)
            by (nonlinear_arith)
            requires
                0 <= b as int <= 0xffff_ffff_ffff_ffff,
                0 <= c as int <= 0xffff_ffff_ffff_ffff,
        ;
    }
    let wide: u128 = a as u128 + b as u128 * c as u128;
    if wide >= usize::MAX as u128 {
        usize::MAX
    } else {
        wide as usize
    }
}

/// The points of the keywords on top of `start`, and the bytes that keywords
/// with symbols account for.
fn keyword_score(lang: &Language, content: &str, tokens: &[String], start: i32) -> (r: (i32, usize))
    requires
        start >= 0,
        text::views(tokens@) == words(content@),
    ensures
        r.0 >= 0,
        start as int == capped(start as int) ==> r.0 as int == capped(
            start + fold::total(lang.keywords@, keyword_points(content@)),
        ),
        r.1 as int == (if fold::total(lang.keywords@, keyword_bytes(content@)) >= usize::MAX {
            usize::MAX as int
        } else {
            fold::total(lang.keywords@, keyword_bytes(content@)) as int
        }),
{
    let h = text::to_chars(content);
    let ghost kws = lang.keywords@;
    let ghost f = keyword_points(content@);
    let ghost g = keyword_bytes(content@);
    let mut score: i32 = start;
    let mut matched: usize = 0;
    let mut i: usize = 0;
    while i < lang.keywords.len()
        invariant
            h@ == content@,
            i <= kws.len(),
            kws == lang.keywords@,
            f == keyword_points(content@),
            g == keyword_bytes(content@),
            text::views(tokens@) == words(content@),
            start >= 0,
            score >= 0,
            score as int == capped(start + fold::total(kws.take(i as int), f)),
            matched as int == (if fold::total(kws.take(i as int), g) >= usize::MAX {
                usize::MAX as int
            } else {
                fold::total(kws.take(i as int), g) as int
            }),
        decreases kws.len() - i,
    {
        proof {
            fold::lemma_total_step(kws, f, i as int);
            fold::lemma_total_step(kws, g, i as int);
        }
        let keyword = lang.keywords[i];
        let n: usize = if holds_symbol(keyword) {
            let p = text::to_chars(keyword);
            let occ = count_occurrences(h.as_slice(), p.as_slice());
            let width: usize = keyword.as_bytes().len();
            matched = sat_add(matched, occ, width);
            occ
        } else {
            count_words(tokens, keyword)
        };
        let clamped: usize = if n < KEYWORD_COUNT_CAP {
            n
        } else {
            KEYWORD_COUNT_CAP
        };
        score = sat_points(score, clamped as u64 * KEYWORD_MATCH_SCORE);
        i += 1;
    }
    proof {
        assert(kws.take(kws.len() as int) =~= kws);
    }
    (score, matched)
}

fn count_not_white(content: &str) -> (r: usize)
    ensures
        r == fold::count(content@, not_white()),
{
    let v = text::to_chars(content);
    let size: usize = v.len();
    let mut n: usize = 0;
    let mut i: usize = 0;
    while i < size
        invariant
            v@ == content@,
            size == v@.len(),
            i <= size,
            n <= i,
            n == fold::count(v@.take(i as int), not_white()),
        decreases size - i,
    {
        proof {
            fold::lemma_count_step(v@, not_white(), i as int);
        }
        if !text::is_white_char(v[i]) {
            n += 1;
        }
        i += 1;
    }
    proof {
        assert(v@.take(size as int) =~= content@);
    }
    n
}

/// How well the content fits the language; `tokens` are the words of the
/// content.
pub fn score_language(lang: &Language, content: &str, tokens: &[String]) -> (r: i32)
    requires
        text::views(tokens@) == words(content@),
    ensures
        r as int == score(*lang, content@),
{
    let markers = marker_score(lang, content);
    let (points, matched) = keyword_score(lang, content, tokens, markers);
    proof {
        assert(text::views(tokens@).len() == tokens@.len());
    }
    if is_symbol_only_language(lang) && tokens.len() > 0 {
        let visible: usize = count_not_white(content);
        if 2 * (matched as u128) < visible as u128 {
            return 0;
        }
    }
    points
}

/// The candidate that the content speaks for.
pub fn disambiguate(langs: &[Language], content: &str) -> (r: Option<Language>)
    ensures
        r == clear_winner(langs@, content@),
{
    let tokens = tokenize(content);
    let mut winner: Option<(Language, i32)> = None;
    let mut i: usize = 0;
    while i < langs.len()
        invariant
            i <= langs@.len(),
            text::views(tokens@) == words(content@),
            match winner {
                None => best(langs@.take(i as int), content@) is None,
                Some((b, s)) => best(langs@.take(i as int), content@) == Some(b) && s as int
                    == score(b, content@),
            },
        decreases langs@.len() - i,
    {
        proof {
            assert(langs@.take(i + 1).drop_last() =~= langs@.take(i as int));
        }
        let lang = langs[i];
        let s = score_language(&lang, content, tokens.as_slice());
        let better = match winner {
            None => true,
            Some((_, top)) => s >= top,
        };
        if better {
            winner = Some((lang, s));
        }
        i += 1;
    }
    proof {
        assert(langs@.take(langs@.len() as int) =~= langs@);
    }
    match winner {
        Some((b, s)) => {
            if s > 0 {
                Some(b)
            } else {
                None
            }
        },
        None => None,
    }
}

/// The text behind an optional string slice.
pub open spec fn opt_view(s: Option<&str>) -> Option<Seq<char>> {
    match s {
        Some(t) => Some(t@),
        None => None,
    }
}

/// Detects the language of a file. The content, if given, serves to read a
/// shebang and to tell languages apart that share a file name pattern (`*.m`
/// is Objective-C or MATLAB).
pub fn detect_language_info(filename: &str, content: Option<&str>) -> (r: Option<Language>)
    ensures
        r == detected(filename@, opt_view(content)),
        r matches Some(lang) ==> super::scoring::well_marked(lang),
{
    proof {
        super::facts::detected_is_known(filename@, opt_view(content));
    }
    let found = get_candidates(filename);
    if found.len() == 1 {
        return Some(found[0]);
    }
    match content {
        None => None,
        Some(c) => {
            let claimed_by = detect_from_shebang(c);
            if claimed_by.is_some() || found.len() == 0 {
                claimed_by
            } else {
                disambiguate(found.as_slice(), c)
            }
        },
    }
}

/// A file name that fits one language alone decides, whatever the content.
pub proof fn clear_name_decides(
    filename: Seq<char>,
    a: Option<Seq<char>>,
    b: Option<Seq<char>>,
)
    requires
        candidates(filename).len() == 1,
    ensures
        detected(filename, a) == detected(filename, b),
        detected(filename, a) is Some,
{
}

/// Only the last component of a path counts.
pub proof fn directories_do_not_matter(dir: Seq<char>, name: Seq<char>, content: Option<Seq<char>>)
    requires
        forall|i: int| 0 <= i < name.len() ==> name[i] != '/',
    ensures
        detected(dir.push('/') + name, content) == detected(name, content),
{
    lemma_after_last_of_name(dir.push('/'), name);
    lemma_after_last_of_name(Seq::empty(), name);
    assert(Seq::<char>::empty() + name =~= name);
}

proof fn lemma_after_last_of_name(dir: Seq<char>, name: Seq<char>)
    requires
        forall|i: int| 0 <= i < name.len() ==> name[i] != '/',
        dir.len() > 0 ==> dir.last() == '/',
    ensures
        text::after_last(dir + name, '/') == name,
    decreases name.len(),
{
    if name.len() > 0 {
        assert((dir + name).drop_last() =~= dir + name.drop_last());
        lemma_after_last_of_name(dir, name.drop_last());
        assert(name =~= name.drop_last().push(name.last()));
    } else {
        assert(dir + name =~= dir);
        assert(text::after_last(dir, '/') =~= name);
    }
}

proof fn lemma_fitting(table: Seq<Language>, file: Seq<char>, x: Language)
    ensures
        fitting(table, file).contains(x) <==> exists|k: int|
            0 <= k < table.len() && fits_language(file, (#[trigger] table[k])) && x == table[k],
        fitting(table, file).len() <= table.len(),
    decreases table.len(),
{
    if table.len() > 0 {
        let front = table.drop_last();
        let last = table.last();
        let was = fitting(front, file);
        let is = fitting(table, file);
        lemma_fitting(front, file, x);
        assert(table[table.len() - 1] == last);
        assert(forall|k: int| 0 <= k < front.len() ==> front[k] == table[k]);
        if is.contains(x) {
            let i = choose|i: int| 0 <= i < is.len() && is[i] == x;
            if i < was.len() {
                assert(was[i] == x);
                let k = choose|k: int|
                    0 <= k < front.len() && fits_language(file, (#[trigger] front[k])) && x == front[k];
                assert(table[k] == front[k]);
            }
        }
        if exists|k: int| 0 <= k < table.len() && fits_language(file, (#[trigger] table[k])) && x == table[k] {
            let k = choose|k: int|
                0 <= k < table.len() && fits_language(file, (#[trigger] table[k])) && x == table[k];
            if k < front.len() {
                assert(front[k] == table[k]);
                let i = choose|i: int| 0 <= i < was.len() && was[i] == x;
                assert(is[i] == x);
            } else {
                assert(is[is.len() - 1] == x);
            }
        }
    }
}

/// A pattern with a star fits the names that end as it does, another one its own
/// name; capitals do not matter.
pub proof fn stars_fit_endings(name: Seq<char>, pattern: Seq<char>)
    requires
        pattern.len() > 0,
    ensures
        pattern[0] == '*' ==> (fits_pattern(name, pattern) <==> text::lower_ascii(
            pattern.skip(1),
        ).is_suffix_of(text::lower_ascii(name))),
        pattern[0] != '*' && text::lower_ascii(pattern)[0] != '*' ==> (fits_pattern(name, pattern)
            <==> text::lower_ascii(name) == text::lower_ascii(pattern)),
{
    assert(text::lower_ascii(pattern).skip(1) =~= text::lower_ascii(pattern.skip(1)));
}

/// The candidates are the languages one of whose patterns the name fits.
pub proof fn candidates_fit_the_name(filename: Seq<char>, lang: Language)
    ensures
        candidates(filename).contains(lang) <==> data::language_table().contains(lang) && exists|
            i: int,
        |
            0 <= i < lang.patterns@.len() && fits_pattern(
                text::after_last(filename, '/'),
                #[trigger] lang.patterns@[i]@,
            ),
{
    let table = data::language_table();
    let name = text::after_last(filename, '/');
    lemma_fitting(table, name, lang);
    if table.contains(lang) && fits_language(name, lang) {
        let k = choose|k: int| 0 <= k < table.len() && table[k] == lang;
        assert(fits_language(name, table[k]));
    }
}

/// The best candidate is one of them, none scores more, and of those that score
/// as much it is the last.
pub proof fn the_best_scores_most(langs: Seq<Language>, content: Seq<char>)
    ensures
        langs.len() == 0 <==> best(langs, content) is None,
        best(langs, content) matches Some(b) ==> exists|k: int|
            0 <= k < langs.len() && #[trigger] langs[k] == b && (forall|j: int|
                0 <= j < langs.len() ==> score(#[trigger] langs[j], content) <= score(b, content))
                && (forall|j: int|
                k < j < langs.len() ==> score(#[trigger] langs[j], content) < score(b, content)),
    decreases langs.len(),
{
    if langs.len() > 0 {
        let front = langs.drop_last();
        the_best_scores_most(front, content);
        assert(langs[langs.len() - 1] == langs.last());
        assert(forall|j: int| 0 <= j < front.len() ==> front[j] == langs[j]);
        match best(front, content) {
            None => {
                assert(front.len() == 0);
                assert(langs[0] == langs.last());
            },
            Some(b) => {
                let k = choose|k: int|
                    0 <= k < front.len() && #[trigger] front[k] == b && (forall|j: int|
                        0 <= j < front.len() ==> score(#[trigger] front[j], content) <= score(
                            b,
                            content,
                        )) && (forall|j: int|
                        k < j < front.len() ==> score(#[trigger] front[j], content) < score(
                            b,
                            content,
                        ));
                assert(langs[k] == b);
                if score(langs.last(), content) >= score(b, content) {
                    let n = langs.len() - 1;
                    assert(langs[n] == langs.last());
                    assert forall|j: int| 0 <= j < langs.len() implies score(
                        #[trigger] langs[j],
                        content,
                    ) <= score(langs.last(), content) by {
                        if j < front.len() {
                            assert(front[j] == langs[j]);
                        }
                    }
                } else {
                    assert forall|j: int| 0 <= j < langs.len() implies score(
                        #[trigger] langs[j],
                        content,
                    ) <= score(b, content) by {
                        if j < front.len() {
                            assert(front[j] == langs[j]);
                        }
                    }
                    assert forall|j: int| k < j < langs.len() implies score(
                        #[trigger] langs[j],
                        content,
                    ) < score(b, content) by {
                        if j < front.len() {
                            assert(front[j] == langs[j]);
                        }
                    }
                }
            },
        }
    }
}

/// Where the name leaves more than one language open, or none, the content
/// decides: first by the interpreter that it names, then by how well it fits,
/// and not at all where nothing speaks for a language.
pub proof fn content_decides_between_candidates(filename: Seq<char>, c: Seq<char>)
    requires
        candidates(filename).len() != 1,
    ensures
        detected(filename, None) is None,
        shebang_language(c) is Some ==> detected(filename, Some(c)) == shebang_language(c),
        shebang_language(c) is None && candidates(filename).len() == 0 ==> detected(
            filename,
            Some(c),
        ) is None,
        shebang_language(c) is None && detected(filename, Some(c)) is Some ==> best(
            candidates(filename),
            c,
        ) == detected(filename, Some(c)) && score(detected(filename, Some(c))->0, c) > 0,
        shebang_language(c) is None && candidates(filename).len() > 0 && score(
            best(candidates(filename), c)->0,
            c,
        ) > 0 ==> detected(filename, Some(c)) == best(candidates(filename), c),
{
    the_best_scores_most(candidates(filename), c);
}

/// The language of a shebang is the first that claims it.
pub proof fn the_first_claim_holds(table: Seq<Language>, line: Seq<char>)
    ensures
        match claimed(table, line) {
            Some(l) => exists|k: int|
                0 <= k < table.len() && #[trigger] table[k] == l && has_shebang(l, line) && (forall|
                    j: int,
                |
                    0 <= j < k ==> !has_shebang(#[trigger] table[j], line)),
            None => forall|j: int|
                0 <= j < table.len() ==> !has_shebang(#[trigger] table[j], line),
        },
    decreases table.len(),
{
    if table.len() > 0 && !has_shebang(table[0], line) {
        let rest = table.skip(1);
        the_first_claim_holds(rest, line);
        assert(forall|j: int| 0 < j < table.len() ==> table[j] == rest[j - 1]);
        match claimed(rest, line) {
            Some(l) => {
                let k = choose|k: int|
                    0 <= k < rest.len() && #[trigger] rest[k] == l && has_shebang(l, line) && (
                    forall|j: int| 0 <= j < k ==> !has_shebang(#[trigger] rest[j], line));
                assert(table[k + 1] == l);
                assert forall|j: int| 0 <= j < k + 1 implies !has_shebang(
                    #[trigger] table[j],
                    line,
                ) by {
                    if j > 0 {
                        assert(table[j] == rest[j - 1]);
                    }
                }
            },
            None => {
                assert forall|j: int| 0 <= j < table.len() implies !has_shebang(
                    #[trigger] table[j],
                    line,
                ) by {
                    if j > 0 {
                        assert(table[j] == rest[j - 1]);
                    }
                }
            },
        }
    } else if table.len() > 0 {
        assert(table[0] == table[0]);
    }
}

/// Each comment marker that occurs is worth fifty points, each keyword ten for
/// every time it occurs.
pub proof fn markers_and_keywords_score(lang: Language, content: Seq<char>)
    requires
        forall|i: int|
            0 <= i < lang.keywords@.len() ==> keyword_count(
                content,
                #[trigger] lang.keywords@[i]@,
            ) < 200_000_000,
    ensures
        raw_score(lang, content) == 50 * fold::count(
            lang.line_comments@,
            |m: &'static str| text::contains(content, m@),
        ) + 50 * fold::count(
            lang.block_comments@,
            |m: (&'static str, &'static str)|
                text::contains(content, m.0@) && text::contains(content, m.1@),
        ) + fold::total(lang.keywords@, |k: &'static str| 10 * keyword_count(content, k@)),
{
    fold::count_agrees(
        lang.line_comments@,
        marker_seen(content),
        |m: &'static str| text::contains(content, m@),
    );
    fold::count_agrees(
        lang.block_comments@,
        pair_seen(content),
        |m: (&'static str, &'static str)|
            text::contains(content, m.0@) && text::contains(content, m.1@),
    );
    fold::total_agrees(
        lang.keywords@,
        keyword_points(content),
        |k: &'static str| 10 * keyword_count(content, k@),
    );
}

/// A word goes on with each word character and ends with any other.
pub proof fn words_are_runs(s: Seq<char>, c: char)
    ensures
        !is_word_char(c) ==> words(s.push(c)) == words(s),
        is_word_char(c) && (s.len() == 0 || !is_word_char(s.last())) ==> words(s.push(c)) == words(
            s,
        ).push(seq![c]),
        is_word_char(c) && s.len() > 0 && is_word_char(s.last()) ==> words(s.push(c)).len()
            == words(s).len() && words(s.push(c)).last() == words(s).last().push(c),
        is_word_char(c) <==> 'a' <= c <= 'z' || 'A' <= c <= 'Z' || '0' <= c <= '9' || c == '_',
{
    let t = s.push(c);
    assert(t.drop_last() =~= s);
    if s.len() > 0 && is_word_char(s.last()) {
        lemma_word_open(s);
        assert(t[t.len() - 2] == s.last());
    }
}

proof fn lemma_word_open(s: Seq<char>)
    requires
        s.len() > 0,
        is_word_char(s.last()),
    ensures
        words(s).len() > 0,
{
}

/// The limits that hold here.
pub proof fn the_limits_are_these()
    ensures
        COMMENT_MATCH_SCORE == 50,
        KEYWORD_MATCH_SCORE == 10,
        KEYWORD_COUNT_CAP == 214748364,
{
}

/// The blank after the marker of a shebang does not matter.
pub proof fn blanks_after_the_marker_do_not_matter(rest: Seq<char>)
    ensures
        plain_shebang("#! "@ + rest) == "#!"@ + rest,
        !"#! "@.is_prefix_of(rest) ==> plain_shebang(rest) == rest,
{
    let line = "#! "@ + rest;
    assert("#! "@ =~= line.take("#! "@.len() as int));
    assert(line.skip("#! "@.len() as int) =~= rest);
}

/// Only the first line of a text can name an interpreter, after the marker.
pub proof fn only_the_first_line_names_an_interpreter(content: Seq<char>)
    ensures
        ({
            let lines = text::lines_of(content);
            &&& lines.len() == 0 ==> shebang_language(content) is None
            &&& lines.len() > 0 && !"#!"@.is_prefix_of(text::trim(lines[0])) ==> shebang_language(
                content,
            ) is None
            &&& lines.len() > 0 && "#!"@.is_prefix_of(text::trim(lines[0])) ==> shebang_language(
                content,
            ) == claimed(data::language_table(), plain_shebang(text::trim(lines[0])))
        }),
        forall|lang: Language, line: Seq<char>| #[trigger]
            has_shebang(lang, line) <==> exists|i: int|
                0 <= i < lang.shebangs@.len() && (#[trigger] lang.shebangs@[i]@).is_prefix_of(line),
{
}

/// A keyword counts as often as it is a word, in letters of either case; one with
/// a symbol as often as it stands in the text.
pub proof fn keywords_count_as_words_or_pieces(content: Seq<char>, keyword: Seq<char>)
    ensures
        (forall|i: int| 0 <= i < keyword.len() ==> is_word_char(#[trigger] keyword[i]))
            ==> keyword_count(content, keyword) == fold::count(
            words(content),
            |w: Seq<char>| text::lower_ascii(w) == text::lower_ascii(keyword),
        ),
        (exists|i: int| 0 <= i < keyword.len() && !is_word_char(#[trigger] keyword[i]))
            ==> keyword_count(content, keyword) == occurrences(content, keyword),
{
    fold::count_agrees(
        words(content),
        equals_word(keyword),
        |w: Seq<char>| text::lower_ascii(w) == text::lower_ascii(keyword),
    );
}

/// A piece that stands at the start is counted and passed over; what does not
/// occur counts nothing.
pub proof fn pieces_are_counted(s: Seq<char>, p: Seq<char>)
    requires
        p.len() > 0,
    ensures
        occurrences(p + s, p) == 1 + occurrences(s, p),
        !text::contains(s, p) ==> occurrences(s, p) == 0,
    decreases s.len(),
{
    let t = p + s;
    assert(p =~= t.take(p.len() as int));
    assert(t.skip(p.len() as int) =~= s);
    if !text::contains(s, p) && s.len() > 0 {
        let rest = s.skip(1);
        if p.is_prefix_of(s) {
            assert(s.subrange(0, p.len() as int) =~= p);
            assert(text::occurs_at(s, p, 0));
        }
        if text::contains(rest, p) {
            let i = choose|i: int| text::occurs_at(rest, p, i);
            assert(s.subrange(i + 1, i + 1 + p.len()) =~= rest.subrange(i, i + p.len()));
            assert(text::occurs_at(s, p, i + 1));
        }
        pieces_are_counted(rest, p);
    }
}

/// A language scores its points, up to the largest number; one that is made of
/// symbols alone scores nothing in a text with words of which they are less than
/// half.
pub proof fn symbols_must_be_dense(lang: Language, content: Seq<char>)
    ensures
        ({
            let symbols = lang.keywords@.len() > 0 && lang.line_comments@.len() == 0
                && lang.block_comments@.len() == 0 && forall|i: int|
                0 <= i < lang.keywords@.len() ==> all_symbols(#[trigger] lang.keywords@[i]@);
            let sparse = words(content).len() > 0 && 2 * fold::total(
                lang.keywords@,
                keyword_bytes(content),
            ) < fold::count(content, |c: char| !text::is_white(c));
            &&& symbols && sparse ==> score(lang, content) == 0
            &&& !symbols || !sparse ==> (raw_score(lang, content) < i32::MAX ==> score(lang, content)
                == raw_score(lang, content)) && (raw_score(lang, content) >= i32::MAX ==> score(
                lang,
                content,
            ) == i32::MAX)
        }),
        forall|k: Seq<char>| #[trigger]
            all_symbols(k) <==> forall|i: int| 0 <= i < k.len() ==> !is_word_char(#[trigger] k[i]),
{
    fold::count_agrees(content, not_white(), |c: char| !text::is_white(c));
}

} // verus!
