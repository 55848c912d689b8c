//! Text as sequences of characters: the vocabulary the reports are specified
//! in, and the executable operations that compute with it.

use vstd::prelude::*;

verus! {

/// The standard library's `String::push` appends one character.
pub assume_specification[ String::push ](s: &mut String, c: char)
    ensures
        final(s)@ == old(s)@.push(c),
;

/// The standard library's `==` on string slices compares the characters.
#[verifier::external_body]
pub(crate) fn same(a: &str, b: &str) -> (r: bool)
    ensures
        r == (a@ == b@),
{
    a == b
}

// ---------------------------------------------------------------------------
// Vocabulary
// ---------------------------------------------------------------------------

/// `p` stands in `s` at position `i`.
pub open spec fn occurs_at(s: Seq<char>, p: Seq<char>, i: int) -> bool {
    0 <= i && i + p.len() <= s.len() && s.subrange(i, i + p.len()) == p
}

/// `p` stands somewhere in `s`.
pub open spec fn contains(s: Seq<char>, p: Seq<char>) -> bool {
    exists|i: int| occurs_at(s, p, i)
}

/// What follows the last `c` in `s`; all of `s` when there is none.
pub open spec fn after_last(s: Seq<char>, c: char) -> Seq<char>
    decreases s.len(),
{
    if s.len() == 0 || s.last() == c {
        Seq::empty()
    } else {
        after_last(s.drop_last(), c).push(s.last())
    }
}

/// What precedes the last `c` in `s`; `None` when there is none.
pub open spec fn before_last(s: Seq<char>, c: char) -> Option<Seq<char>>
    decreases s.len(),
{
    if s.len() == 0 {
        None
    } else if s.last() == c {
        Some(s.drop_last())
    } else {
        before_last(s.drop_last(), c)
    }
}

/// The pieces of `s` between the separators `c`: one more than there are
/// separators.
pub open spec fn split_on(s: Seq<char>, c: char) -> Seq<Seq<char>>
    decreases s.len(),
{
    if s.len() == 0 {
        seq![Seq::empty()]
    } else {
        let head = split_on(s.drop_last(), c);
        if s.last() == c {
            head.push(Seq::empty())
        } else {
            head.drop_last().push(head.last().push(s.last()))
        }
    }
}

/// The pieces in order, with `sep` between neighbours.
pub open spec fn join(parts: Seq<Seq<char>>, sep: Seq<char>) -> Seq<char>
    decreases parts.len(),
{
    if parts.len() == 0 {
        Seq::empty()
    } else if parts.len() == 1 {
        parts[0]
    } else {
        join(parts.drop_last(), sep) + sep + parts.last()
    }
}

/// The characters of the Unicode property `White_Space`.
pub open spec fn is_white(c: char) -> bool {
    ||| '\u{9}' <= c <= '\u{d}'
    ||| c == ' '
    ||| c == '\u{85}'
    ||| c == '\u{a0}'
    ||| c == '\u{1680}'
    ||| '\u{2000}' <= c <= '\u{200a}'
    ||| c == '\u{2028}'
    ||| c == '\u{2029}'
    ||| c == '\u{202f}'
    ||| c == '\u{205f}'
    ||| c == '\u{3000}'
}

/// `s` without its leading white space.
pub open spec fn trim_start(s: Seq<char>) -> Seq<char>
    decreases s.len(),
{
    if s.len() > 0 && is_white(s[0]) {
        trim_start(s.skip(1))
    } else {
        s
    }
}

/// `s` without its trailing white space.
pub open spec fn trim_end(s: Seq<char>) -> Seq<char>
    decreases s.len(),
{
    if s.len() > 0 && is_white(s.last()) {
        trim_end(s.drop_last())
    } else {
        s
    }
}

/// `s` without white space at either end.
pub open spec fn trim(s: Seq<char>) -> Seq<char> {
    trim_end(trim_start(s))
}

pub open spec fn is_upper_ascii(c: char) -> bool {
    'A' <= c <= 'Z'
}

pub open spec fn is_lower_ascii(c: char) -> bool {
    'a' <= c <= 'z'
}

pub open spec fn is_digit_ascii(c: char) -> bool {
    '0' <= c <= '9'
}

pub open spec fn is_alnum_ascii(c: char) -> bool {
    is_upper_ascii(c) || is_lower_ascii(c) || is_digit_ascii(c)
}

/// ASCII capitals become small letters; every other character stays.
pub open spec fn lower_char(c: char) -> char {
    if is_upper_ascii(c) {
        ((c as u32 + 32) as u32) as char
    } else {
        c
    }
}

pub open spec fn lower_ascii(s: Seq<char>) -> Seq<char> {
    s.map_values(|c: char| lower_char(c))
}

/// Small ASCII letters become capitals; every other character stays.
pub open spec fn upper_char(c: char) -> char {
    if is_lower_ascii(c) {
        ((c as u32 - 32) as u32) as char
    } else {
        c
    }
}

pub open spec fn upper_ascii(s: Seq<char>) -> Seq<char> {
    s.map_values(|c: char| upper_char(c))
}

/// The texts behind a sequence of strings.
pub open spec fn views(v: Seq<String>) -> Seq<Seq<char>> {
    v.map_values(|s: String| s@)
}

/// The first position at or after `from` where `p` stands in `s`.
pub open spec fn is_first_from(s: Seq<char>, p: Seq<char>, from: int, i: int) -> bool {
    &&& from <= i
    &&& occurs_at(s, p, i)
    &&& forall|j: int| from <= j < i ==> !occurs_at(s, p, j)
}

/// What precedes the first `p` in `s`; all of `s` when there is none.
pub open spec fn before_first(s: Seq<char>, p: Seq<char>) -> Seq<char> {
    if contains(s, p) {
        s.take(choose|i: int| is_first_from(s, p, 0, i))
    } else {
        s
    }
}

/// Every occurrence of `p` in `s`, read from the left without overlap, gives
/// way to `q`.
pub open spec fn replace(s: Seq<char>, p: Seq<char>, q: Seq<char>) -> Seq<char>
    decreases s.len(),
{
    if s.len() == 0 || p.len() == 0 {
        s
    } else if p.is_prefix_of(s) {
        q + replace(s.skip(p.len() as int), p, q)
    } else {
        seq![s[0]] + replace(s.skip(1), p, q)
    }
}

/// A line loses one trailing carriage return.
pub open spec fn strip_cr(s: Seq<char>) -> Seq<char> {
    if s.len() > 0 && s.last() == '\r' {
        s.drop_last()
    } else {
        s
    }
}

/// The lines of `s`. A line ends at `\n` or `\r\n`; the last line ending is
/// optional.
pub open spec fn lines_of(s: Seq<char>) -> Seq<Seq<char>> {
    let parts = split_on(s, '\n');
    let ended = parts.drop_last().map_values(|l: Seq<char>| strip_cr(l));
    if parts.last().len() == 0 {
        ended
    } else {
        ended.push(parts.last())
    }
}

/// Lexicographic order by code point.
pub open spec fn text_le(a: Seq<char>, b: Seq<char>) -> bool
    decreases a.len(),
{
    if a.len() == 0 {
        true
    } else if b.len() == 0 {
        false
    } else if a[0] != b[0] {
        a[0] < b[0]
    } else {
        text_le(a.skip(1), b.skip(1))
    }
}

/// The decimal digit of a number below ten.
pub open spec fn digit(n: nat) -> char {
    ((n + 48) as u32) as char
}

/// The decimal representation of a natural number.
pub open spec fn decimal(n: nat) -> Seq<char>
    decreases n,
{
    if n < 10 {
        seq![digit(n)]
    } else {
        decimal(n / 10).push(digit(n % 10))
    }
}

/// The decimal representation of an integer.
pub open spec fn decimal_int(n: int) -> Seq<char> {
    if n < 0 {
        seq!['-'] + decimal((-n) as nat)
    } else {
        decimal(n as nat)
    }
}

// ---------------------------------------------------------------------------
// Facts
// ---------------------------------------------------------------------------

pub proof fn lemma_split_nonempty(s: Seq<char>, c: char)
    ensures
        split_on(s, c).len() >= 1,
    decreases s.len(),
{
    if s.len() > 0 {
        lemma_split_nonempty(s.drop_last(), c);
    }
}

/// The lexicographic order compares any two texts.
pub proof fn text_le_total(a: Seq<char>, b: Seq<char>)
    ensures
        text_le(a, b) || text_le(b, a),
    decreases a.len(),
{
    if a.len() > 0 && b.len() > 0 && a[0] == b[0] {
        text_le_total(a.skip(1), b.skip(1));
    }
}

/// The lexicographic order is transitive.
pub proof fn text_le_transitive(a: Seq<char>, b: Seq<char>, c: Seq<char>)
    requires
        text_le(a, b),
        text_le(b, c),
    ensures
        text_le(a, c),
    decreases a.len(),
{
    if a.len() > 0 && a[0] == b[0] && b[0] == c[0] {
        text_le_transitive(a.skip(1), b.skip(1), c.skip(1));
    }
}

/// Texts that may stand before each other are the same.
pub proof fn text_le_antisymmetric(a: Seq<char>, b: Seq<char>)
    requires
        text_le(a, b),
        text_le(b, a),
    ensures
        a == b,
    decreases a.len(),
{
    if a.len() > 0 {
        text_le_antisymmetric(a.skip(1), b.skip(1));
        assert(a =~= seq![a[0]] + a.skip(1));
        assert(b =~= seq![b[0]] + b.skip(1));
    } else {
        assert(a =~= b);
    }
}

/// Splitting a text at a character and joining the pieces with it gives the
/// text back.
pub proof fn join_undoes_split(s: Seq<char>, c: char)
    ensures
        join(split_on(s, c), seq![c]) == s,
    decreases s.len(),
{
    if s.len() == 0 {
        assert(split_on(s, c) =~= seq![Seq::<char>::empty()]);
        assert(join(split_on(s, c), seq![c]) =~= s);
    } else {
        let init = s.drop_last();
        let head = split_on(init, c);
        join_undoes_split(init, c);
        lemma_split_nonempty(init, c);
        if s.last() == c {
            let parts = head.push(Seq::empty());
            assert(parts.drop_last() =~= head);
            assert(join(parts, seq![c]) =~= init + seq![c]);
            assert(s =~= init + seq![c]);
        } else {
            let tail = head.last().push(s.last());
            let parts = head.drop_last().push(tail);
            assert(parts.drop_last() =~= head.drop_last());
            if head.len() == 1 {
                assert(head.drop_last().len() == 0);
                assert(parts[0] == tail);
                assert(head[0] == init);
                assert(join(parts, seq![c]) =~= init.push(s.last()));
            } else {
                assert(join(parts, seq![c]) =~= join(head, seq![c]).push(s.last()));
            }
            assert(s =~= init.push(s.last()));
        }
    }
}

/// No piece of a split holds the separator.
pub proof fn split_pieces_lack_separator(s: Seq<char>, c: char)
    ensures
        forall|k: int, i: int|
            0 <= k < split_on(s, c).len() && 0 <= i < split_on(s, c)[k].len()
                ==> #[trigger] split_on(s, c)[k][i] != c,
    decreases s.len(),
{
    if s.len() > 0 {
        lemma_split_nonempty(s.drop_last(), c);
        split_pieces_lack_separator(s.drop_last(), c);
    }
}

proof fn lemma_trim_start_step(s: Seq<char>, i: int)
    requires
        0 <= i <= s.len(),
        forall|j: int| 0 <= j < i ==> is_white(s[j]),
        i < s.len() ==> !is_white(s[i]),
    ensures
        trim_start(s) == s.skip(i),
    decreases s.len(),
{
    if i == 0 {
        assert(s.skip(0) =~= s);
    } else {
        let t = s.skip(1);
        assert forall|j: int| 0 <= j < i - 1 implies is_white(t[j]) by {
            assert(t[j] == s[j + 1]);
        }
        lemma_trim_start_step(t, i - 1);
        assert(t.skip(i - 1) =~= s.skip(i));
    }
}

proof fn lemma_trim_end_step(s: Seq<char>, i: int)
    requires
        0 <= i <= s.len(),
        forall|j: int| i <= j < s.len() ==> is_white(s[j]),
        i > 0 ==> !is_white(s[i - 1]),
    ensures
        trim_end(s) == s.take(i),
    decreases s.len(),
{
    if i == s.len() {
        assert(s.take(i) =~= s);
    } else {
        lemma_trim_end_step(s.drop_last(), i);
        assert(s.drop_last().take(i) =~= s.take(i));
    }
}

proof fn lemma_after_last(s: Seq<char>, c: char, i: int)
    requires
        0 <= i <= s.len(),
        i > 0 ==> s[i - 1] == c,
        forall|j: int| i <= j < s.len() ==> s[j] != c,
    ensures
        after_last(s, c) == s.skip(i),
        before_last(s, c) == (if i > 0 {
            Some(s.take(i - 1))
        } else {
            None::<Seq<char>>
        }),
    decreases s.len(),
{
    if i == s.len() {
        assert(s.skip(i) =~= Seq::empty());
        if i > 0 {
            assert(s.take(i - 1) =~= s.drop_last());
        }
    } else {
        lemma_after_last(s.drop_last(), c, i);
        assert(s.skip(i) =~= s.drop_last().skip(i).push(s.last()));
        if i > 0 {
            assert(s.take(i - 1) =~= s.drop_last().take(i - 1));
        }
    }
}

proof fn lemma_first_unique(s: Seq<char>, p: Seq<char>, from: int, i: int, j: int)
    requires
        is_first_from(s, p, from, i),
        is_first_from(s, p, from, j),
    ensures
        i == j,
{
}

/// `before_first` cuts at the first occurrence.
pub proof fn lemma_before_first(s: Seq<char>, p: Seq<char>, i: int)
    requires
        is_first_from(s, p, 0, i),
    ensures
        before_first(s, p) == s.take(i),
{
    assert(contains(s, p));
    let k = choose|k: int| is_first_from(s, p, 0, k);
    lemma_first_unique(s, p, 0, i, k);
}

proof fn lemma_replace_gap(s: Seq<char>, p: Seq<char>, q: Seq<char>, from: int, i: int)
    requires
        p.len() > 0,
        0 <= from <= i <= s.len(),
        forall|j: int| from <= j < i ==> !occurs_at(s, p, j),
    ensures
        replace(s.skip(from), p, q) == s.subrange(from, i) + replace(s.skip(i), p, q),
    decreases i - from,
{
    if from == i {
        assert(s.subrange(from, i) + replace(s.skip(i), p, q) =~= replace(s.skip(i), p, q));
    } else {
        let t = s.skip(from);
        if p.is_prefix_of(t) {
            assert(s.subrange(from, from + p.len()) =~= t.subrange(0, p.len() as int));
            assert(occurs_at(s, p, from));
        }
        assert(t.skip(1) =~= s.skip(from + 1));
        lemma_replace_gap(s, p, q, from + 1, i);
        assert(seq![t[0]] + (s.subrange(from + 1, i) + replace(s.skip(i), p, q)) =~= s.subrange(
            from,
            i,
        ) + replace(s.skip(i), p, q));
    }
}

// ---------------------------------------------------------------------------
// Operations
// ---------------------------------------------------------------------------

/// The characters of a text.
pub fn to_chars(s: &str) -> (r: Vec<char>)
    ensures
        r@ == s@,
{
    let mut out: Vec<char> = Vec::new();
    for c in it: s.chars()
        invariant
            it.seq() == s@,
            out@ == it.seq().take(it.index()),
    {
        out.push(c);
        proof {
            assert(it.seq().take(it.index() + 1) =~= it.seq().take(it.index()).push(c));
        }
    }
    proof {
        assert(s@.take(s@.len() as int) =~= s@);
    }
    out
}

/// The text made of the given characters.
pub fn to_text(v: &[char]) -> (r: String)
    ensures
        r@ == v@,
{
    let mut out = String::new();
    let mut i: usize = 0;
    while i < v.len()
        invariant
            i <= v@.len(),
            out@ == v@.take(i as int),
        decreases v@.len() - i,
    {
        out.push(v[i]);
        proof {
            assert(v@.take(i + 1) =~= v@.take(i as int).push(v@[i as int]));
        }
        i += 1;
    }
    proof {
        assert(v@.take(v@.len() as int) =~= v@);
    }
    out
}

/// A fresh copy of a text.
pub fn copy_text(s: &str) -> (r: String)
    ensures
        r@ == s@,
{
    let mut out = String::new();
    out.append(s);
    proof {
        assert(out@ =~= s@);
    }
    out
}

/// Two texts, one after the other.
pub fn cat(a: &str, b: &str) -> (r: String)
    ensures
        r@ == a@ + b@,
{
    let mut out = copy_text(a);
    out.append(b);
    out
}

/// Three texts, one after the other.
pub fn cat3(a: &str, b: &str, c: &str) -> (r: String)
    ensures
        r@ == a@ + b@ + c@,
{
    let mut out = cat(a, b);
    out.append(c);
    out
}

pub fn match_at(h: &[char], p: &[char], i: usize) -> (r: bool)
    ensures
        r == occurs_at(h@, p@, i as int),
{
    if p.len() > h.len() || i > h.len() - p.len() {
        return false;
    }
    let n: usize = h.len();
    let mut k: usize = 0;
    while k < p.len()
        invariant
            k <= p@.len(),
            n == h@.len(),
            i + p@.len() <= n,
            forall|j: int| 0 <= j < k ==> h@[i + j] == p@[j],
        decreases p@.len() - k,
    {
        if h[i + k] != p[k] {
            proof {
                assert(h@.subrange(i as int, i + p@.len())[k as int] == h@[i + k]);
            }
            return false;
        }
        k += 1;
    }
    proof {
        assert(h@.subrange(i as int, i + p@.len()) =~= p@);
    }
    true
}

/// The first occurrence of `p` in `h` at or after `from`.
pub fn find_from(h: &[char], p: &[char], from: usize) -> (r: Option<usize>)
    ensures
        match r {
            Some(i) => is_first_from(h@, p@, from as int, i as int),
            None => forall|j: int| from <= j ==> !occurs_at(h@, p@, j),
        },
{
    if p.len() > h.len() {
        return None;
    }
    let last: usize = h.len() - p.len();
    let mut i: usize = from;
    while i <= last
        invariant
            from <= i,
            p@.len() <= h@.len(),
            last == h@.len() - p@.len(),
            forall|j: int| from <= j < i ==> !occurs_at(h@, p@, j),
        decreases last + 1 - i,
    {
        if match_at(h, p, i) {
            return Some(i);
        }
        if i == last {
            return None;
        }
        i += 1;
    }
    None
}

/// Whether `p` stands somewhere in `s`.
pub fn has(s: &str, p: &str) -> (r: bool)
    ensures
        r == contains(s@, p@),
{
    let h = to_chars(s);
    let q = to_chars(p);
    let found = find_from(h.as_slice(), q.as_slice(), 0);
    match found {
        Some(i) => {
            proof {
                assert(occurs_at(s@, p@, i as int));
            }
            true
        },
        None => false,
    }
}

/// Whether `s` starts with `p`.
pub fn starts_with(s: &str, p: &str) -> (r: bool)
    ensures
        r == p@.is_prefix_of(s@),
{
    let h = to_chars(s);
    let q = to_chars(p);
    match_at(h.as_slice(), q.as_slice(), 0)
}

/// Whether `s` ends with `p`.
pub fn ends_with(s: &str, p: &str) -> (r: bool)
    ensures
        r == p@.is_suffix_of(s@),
{
    let h = to_chars(s);
    let q = to_chars(p);
    if q.len() > h.len() {
        return false;
    }
    match_at(h.as_slice(), q.as_slice(), h.len() - q.len())
}

/// `s` without the prefix `p`, where it has it.
pub fn strip_prefix(s: &str, p: &str) -> (r: Option<String>)
    ensures
        match r {
            Some(t) => p@.is_prefix_of(s@) && t@ == s@.skip(p@.len() as int),
            None => !p@.is_prefix_of(s@),
        },
{
    let h = to_chars(s);
    let q = to_chars(p);
    if match_at(h.as_slice(), q.as_slice(), 0) {
        let rest = vstd::slice::slice_subrange(h.as_slice(), q.len(), h.len());
        proof {
            assert(rest@ =~= s@.skip(p@.len() as int));
        }
        Some(to_text(rest))
    } else {
        None
    }
}

/// One past the last position of `c` in `v`; zero when there is none.
pub fn cut_after_last(v: &[char], c: char) -> (r: usize)
    ensures
        r <= v@.len(),
        after_last(v@, c) == v@.skip(r as int),
        before_last(v@, c) == (if r > 0 {
            Some(v@.take(r - 1))
        } else {
            None::<Seq<char>>
        }),
{
    let mut i: usize = v.len();
    while i > 0 && v[i - 1] != c
        invariant
            i <= v@.len(),
            forall|j: int| i <= j < v@.len() ==> v@[j] != c,
        decreases i,
    {
        i -= 1;
    }
    proof {
        lemma_after_last(v@, c, i as int);
    }
    i
}

/// What follows the last `c`; the whole text when there is none.
pub fn tail_after(s: &str, c: char) -> (r: String)
    ensures
        r@ == after_last(s@, c),
{
    let v = to_chars(s);
    let i = cut_after_last(v.as_slice(), c);
    let rest = vstd::slice::slice_subrange(v.as_slice(), i, v.len());
    proof {
        assert(rest@ =~= s@.skip(i as int));
    }
    to_text(rest)
}

/// What follows the last point of a path; nothing where there is no point.
pub open spec fn extension(path: Seq<char>) -> Option<Seq<char>> {
    if path.contains('.') {
        Some(after_last(path, '.'))
    } else {
        None
    }
}

/// What follows the last point of a path, if there is one.
pub fn extension_of(path: &str) -> (r: Option<String>)
    ensures
        match r {
            Some(t) => extension(path@) == Some(t@),
            None => extension(path@) is None,
        },
{
    let v = to_chars(path);
    let n: usize = v.len();
    let mut i: usize = 0;
    while i < n
        invariant
            v@ == path@,
            n == v@.len(),
            i <= n,
            forall|k: int| 0 <= k < i ==> #[trigger] v@[k] != '.',
        decreases n - i,
    {
        if v[i] == '.' {
            proof {
                assert(path@.contains(v@[i as int]));
            }
            return Some(tail_after(path, '.'));
        }
        i += 1;
    }
    None
}

/// What precedes the last `c`, if there is one.
pub fn head_before(s: &str, c: char) -> (r: Option<String>)
    ensures
        match r {
            Some(t) => before_last(s@, c) == Some(t@),
            None => before_last(s@, c) is None,
        },
{
    let v = to_chars(s);
    let i = cut_after_last(v.as_slice(), c);
    if i > 0 {
        let rest = vstd::slice::slice_subrange(v.as_slice(), 0, i - 1);
        proof {
            assert(rest@ =~= s@.take(i - 1));
        }
        Some(to_text(rest))
    } else {
        None
    }
}

/// The pieces of `s` between the separators `c`.
pub fn split(s: &str, c: char) -> (r: Vec<String>)
    ensures
        views(r@) == split_on(s@, c),
        r@.len() >= 1,
{
    let mut out: Vec<String> = Vec::new();
    let mut cur = String::new();
    let v = to_chars(s);
    let mut i: usize = 0;
    proof {
        assert(v@.take(0) =~= Seq::empty());
        assert(views(out@).push(cur@) =~= split_on(v@.take(0), c));
    }
    while i < v.len()
        invariant
            i <= v@.len(),
            views(out@).push(cur@) == split_on(v@.take(i as int), c),
        decreases v@.len() - i,
    {
        let ghost head = split_on(v@.take(i as int), c);
        let ghost done = views(out@);
        proof {
            assert(v@.take(i + 1).drop_last() =~= v@.take(i as int));
            assert(head.drop_last() =~= done);
        }
        let x = v[i];
        if x == c {
            out.push(cur);
            cur = String::new();
            proof {
                assert(views(out@) =~= head);
            }
        } else {
            cur.push(x);
        }
        i += 1;
    }
    proof {
        assert(v@.take(v@.len() as int) =~= s@);
    }
    let ghost done = views(out@);
    out.push(cur);
    proof {
        assert(views(out@) =~= done.push(out@.last()@));
    }
    out
}

/// The pieces in order, with `sep` between neighbours.
pub fn join_texts(parts: &[String], sep: &str) -> (r: String)
    ensures
        r@ == join(views(parts@), sep@),
{
    let mut out = String::new();
    let mut i: usize = 0;
    while i < parts.len()
        invariant
            i <= parts@.len(),
            out@ == join(views(parts@).take(i as int), sep@),
        decreases parts@.len() - i,
    {
        let ghost all = views(parts@);
        proof {
            assert(all.take(i + 1).drop_last() =~= all.take(i as int));
        }
        if i > 0 {
            out.append(sep);
        }
        let ghost before = out@;
        out.append(parts[i].as_str());
        proof {
            if i == 0 {
                assert(before =~= Seq::empty());
                assert(out@ =~= all[0]);
            }
        }
        i += 1;
    }
    proof {
        assert(views(parts@).take(parts@.len() as int) =~= views(parts@));
    }
    out
}

pub fn is_white_char(c: char) -> (r: bool)
    ensures
        r == is_white(c),
{
    ('\u{9}' <= c && c <= '\u{d}') || c == ' ' || c == '\u{85}' || c == '\u{a0}' || c == '\u{1680}'
        || ('\u{2000}' <= c && c <= '\u{200a}') || c == '\u{2028}' || c == '\u{2029}' || c
        == '\u{202f}' || c == '\u{205f}' || c == '\u{3000}'
}

/// How many leading white-space characters `v` has.
fn leading_white(v: &[char]) -> (r: usize)
    ensures
        r <= v@.len(),
        trim_start(v@) == v@.skip(r as int),
{
    let mut i: usize = 0;
    while i < v.len() && is_white_char(v[i])
        invariant
            i <= v@.len(),
            forall|j: int| 0 <= j < i ==> is_white(v@[j]),
        decreases v@.len() - i,
    {
        i += 1;
    }
    proof {
        lemma_trim_start_step(v@, i as int);
    }
    i
}

/// The text without its leading white space.
pub fn trimmed_start(s: &str) -> (r: String)
    ensures
        r@ == trim_start(s@),
{
    let v = to_chars(s);
    let i = leading_white(v.as_slice());
    let rest = vstd::slice::slice_subrange(v.as_slice(), i, v.len());
    proof {
        assert(rest@ =~= s@.skip(i as int));
    }
    to_text(rest)
}

/// The text without white space at either end.
pub fn trimmed(s: &str) -> (r: String)
    ensures
        r@ == trim(s@),
{
    let v = to_chars(s);
    let i = leading_white(v.as_slice());
    let rest = vstd::slice::slice_subrange(v.as_slice(), i, v.len());
    proof {
        assert(rest@ =~= s@.skip(i as int));
    }
    let mut k: usize = rest.len();
    while k > 0 && is_white_char(rest[k - 1])
        invariant
            k <= rest@.len(),
            forall|j: int| k <= j < rest@.len() ==> is_white(rest@[j]),
        decreases k,
    {
        k -= 1;
    }
    proof {
        lemma_trim_end_step(rest@, k as int);
    }
    let core = vstd::slice::slice_subrange(rest, 0, k);
    proof {
        assert(core@ =~= rest@.take(k as int));
    }
    to_text(core)
}

fn lower_one(c: char) -> (r: char)
    ensures
        r == lower_char(c),
{
    if 'A' <= c && c <= 'Z' {
        let b = c as u8;
        (b + 32) as char
    } else {
        c
    }
}

fn upper_one(c: char) -> (r: char)
    ensures
        r == upper_char(c),
{
    if 'a' <= c && c <= 'z' {
        let b = c as u8;
        (b - 32) as char
    } else {
        c
    }
}

/// The text with ASCII capitals made small.
pub fn to_lower_ascii(s: &str) -> (r: String)
    ensures
        r@ == lower_ascii(s@),
{
    let v = to_chars(s);
    let mut out = String::new();
    let mut i: usize = 0;
    while i < v.len()
        invariant
            i <= v@.len(),
            out@ == lower_ascii(v@.take(i as int)),
        decreases v@.len() - i,
    {
        out.push(lower_one(v[i]));
        proof {
            assert(lower_ascii(v@.take(i + 1)) =~= lower_ascii(v@.take(i as int)).push(
                lower_char(v@[i as int]),
            ));
        }
        i += 1;
    }
    proof {
        assert(v@.take(v@.len() as int) =~= s@);
    }
    out
}

/// The text with small ASCII letters made capitals.
pub fn to_upper_ascii(s: &str) -> (r: String)
    ensures
        r@ == upper_ascii(s@),
{
    let v = to_chars(s);
    let mut out = String::new();
    let mut i: usize = 0;
    while i < v.len()
        invariant
            i <= v@.len(),
            out@ == upper_ascii(v@.take(i as int)),
        decreases v@.len() - i,
    {
        out.push(upper_one(v[i]));
        proof {
            assert(upper_ascii(v@.take(i + 1)) =~= upper_ascii(v@.take(i as int)).push(
                upper_char(v@[i as int]),
            ));
        }
        i += 1;
    }
    proof {
        assert(v@.take(v@.len() as int) =~= s@);
    }
    out
}

/// What precedes the first `p`; the whole text when there is none.
pub fn head_before_first(s: &str, p: &str) -> (r: String)
    ensures
        r@ == before_first(s@, p@),
{
    let h = to_chars(s);
    let q = to_chars(p);
    match find_from(h.as_slice(), q.as_slice(), 0) {
        Some(i) => {
            let rest = vstd::slice::slice_subrange(h.as_slice(), 0, i);
            proof {
                lemma_before_first(s@, p@, i as int);
                assert(rest@ =~= s@.take(i as int));
            }
            to_text(rest)
        },
        None => copy_text(s),
    }
}

/// Every occurrence of `p`, read from the left without overlap, gives way to
/// `q`.
pub fn replaced(s: &str, p: &str, q: &str) -> (r: String)
    ensures
        r@ == replace(s@, p@, q@),
{
    let h = to_chars(s);
    let n = to_chars(p);
    if n.len() == 0 {
        return copy_text(s);
    }
    let mut out = String::new();
    let mut from: usize = 0;
    proof {
        assert(s@.skip(0) =~= s@);
        assert(out@ + replace(s@.skip(0), p@, q@) =~= replace(s@, p@, q@));
    }
    loop
        invariant
            h@ == s@,
            n@ == p@,
            n@.len() > 0,
            from <= h@.len(),
            out@ + replace(s@.skip(from as int), p@, q@) == replace(s@, p@, q@),
        decreases h@.len() - from,
    {
        match find_from(h.as_slice(), n.as_slice(), from) {
            Some(i) => {
                let gap = vstd::slice::slice_subrange(h.as_slice(), from, i);
                let gap_text = to_text(gap);
                let ghost before = out@;
                out.append(gap_text.as_str());
                out.append(q);
                proof {
                    lemma_replace_gap(s@, p@, q@, from as int, i as int);
                    let t = s@.skip(i as int);
                    assert(t.subrange(0, p@.len() as int) =~= s@.subrange(i as int, i + p@.len()));
                    assert(t.skip(p@.len() as int) =~= s@.skip(i + p@.len()));
                    assert(before + (gap@ + (q@ + replace(s@.skip(i + p@.len()), p@, q@)))
                        =~= out@ + replace(s@.skip(i + p@.len()), p@, q@));
                }
                let size: usize = h.len();
                proof {
                    assert(i + n@.len() <= size);
                }
                from = i + n.len();
            },
            None => {
                let gap = vstd::slice::slice_subrange(h.as_slice(), from, h.len());
                let gap_text = to_text(gap);
                let ghost before = out@;
                out.append(gap_text.as_str());
                proof {
                    lemma_replace_gap(s@, p@, q@, from as int, s@.len() as int);
                    assert(replace(s@.skip(s@.len() as int), p@, q@) =~= Seq::empty());
                    assert(before + (gap@ + Seq::<char>::empty()) =~= out@);
                }
                return out;
            },
        }
    }
}

fn without_cr(s: String) -> (r: String)
    ensures
        r@ == strip_cr(s@),
{
    let v = to_chars(s.as_str());
    if v.len() > 0 && v[v.len() - 1] == '\r' {
        let rest = vstd::slice::slice_subrange(v.as_slice(), 0, v.len() - 1);
        proof {
            assert(rest@ =~= s@.drop_last());
        }
        to_text(rest)
    } else {
        s
    }
}

/// The lines of a text.
pub fn lines(s: &str) -> (r: Vec<String>)
    ensures
        views(r@) == lines_of(s@),
{
    let mut parts = split(s, '\n');
    let ghost all = split_on(s@, '\n');
    let ghost given = parts@;
    let last = parts.pop();
    let mut out: Vec<String> = Vec::new();
    proof {
        assert(views(parts@) =~= all.drop_last());
    }
    let mut i: usize = 0;
    while i < parts.len()
        invariant
            i <= parts@.len(),
            out@.len() == i,
            forall|k: int| 0 <= k < i ==> out@[k]@ == strip_cr(#[trigger] parts@[k]@),
        decreases parts@.len() - i,
    {
        let line = without_cr(parts[i].clone());
        out.push(line);
        i += 1;
    }
    proof {
        let ended = all.drop_last().map_values(|l: Seq<char>| strip_cr(l));
        assert forall|k: int| 0 <= k < parts@.len() implies views(out@)[k] == ended[k] by {
            assert(views(parts@)[k] == parts@[k]@);
        }
        assert(views(out@) =~= ended);
        assert(views(given).last() == given.last()@);
    }
    let ghost ended = views(out@);
    match last {
        Some(l) => {
            if !l.as_str().is_empty() {
                out.push(l);
                proof {
                    assert(views(out@) =~= ended.push(all.last()));
                }
            }
        },
        None => {},
    }
    out
}

/// Whether `a` stands at or before `b` in the lexicographic order.
pub fn text_not_after(a: &str, b: &str) -> (r: bool)
    ensures
        r == text_le(a@, b@),
{
    let x = to_chars(a);
    let y = to_chars(b);
    let mut i: usize = 0;
    proof {
        assert(a@.skip(0) =~= a@);
        assert(b@.skip(0) =~= b@);
    }
    while i < x.len() && i < y.len() && x[i] == y[i]
        invariant
            x@ == a@,
            y@ == b@,
            i <= x@.len(),
            i <= y@.len(),
            text_le(a@, b@) == text_le(a@.skip(i as int), b@.skip(i as int)),
        decreases x@.len() - i,
    {
        proof {
            assert(a@.skip(i as int).skip(1) =~= a@.skip(i + 1));
            assert(b@.skip(i as int).skip(1) =~= b@.skip(i + 1));
        }
        i += 1;
    }
    if i >= x.len() {
        true
    } else if i >= y.len() {
        false
    } else {
        x[i] < y[i]
    }
}

pub fn digit_char(n: u64) -> (r: char)
    requires
        n < 10,
    ensures
        r == digit(n as nat),
{
    (n as u8 + 48) as char
}

/// The decimal representation of a number.
pub fn decimal_text(n: u64) -> (r: String)
    ensures
        r@ == decimal(n as nat),
    decreases n,
{
    if n < 10 {
        let mut out = String::new();
        out.push(digit_char(n));
        proof {
            assert(out@ =~= seq![digit(n as nat)]);
        }
        out
    } else {
        let mut out = decimal_text(n / 10);
        out.push(digit_char(n % 10));
        out
    }
}

/// The decimal representation of a wide number.
pub fn decimal_wide(n: u128) -> (r: String)
    ensures
        r@ == decimal(n as nat),
    decreases n,
{
    if n < 10 {
        decimal_text(n as u64)
    } else {
        let mut out = decimal_wide(n / 10);
        out.push(digit_char((n % 10) as u64));
        out
    }
}

/// The decimal representation of a signed number.
pub fn decimal_signed(n: i64) -> (r: String)
    ensures
        r@ == decimal_int(n as int),
{
    if n < 0 {
        let mag: u64 = if n == i64::MIN {
            0x8000_0000_0000_0000u64
        } else {
            (-n) as u64
        };
        let d = decimal_text(mag);
        let mut out = String::new();
        out.push('-');
        out.append(d.as_str());
        proof {
            assert(out@ =~= seq!['-'] + d@);
        }
        out
    } else {
        decimal_text(n as u64)
    }
}

/// The texts of a slice of string slices.
pub open spec fn str_texts(s: Seq<&str>) -> Seq<Seq<char>> {
    Seq::new(s.len(), |i: int| s[i]@)
}

/// Whether the text is one of the listed ones.
pub fn is_one_of(s: &str, list: &[&str]) -> (r: bool)
    ensures
        r == str_texts(list@).contains(s@),
{
    let n: usize = list.len();
    let mut i: usize = 0;
    while i < n
        invariant
            n == list@.len(),
            i <= n,
            forall|k: int| 0 <= k < i ==> (#[trigger] str_texts(list@)[k]) != s@,
        decreases n - i,
    {
        if same(list[i], s) {
            proof {
                assert(str_texts(list@)[i as int] == s@);
            }
            return true;
        }
        i += 1;
    }
    false
}

/// The pieces of `s` between the occurrences of `p`, read from the left without
/// overlap.
pub open spec fn split_by(s: Seq<char>, p: Seq<char>) -> Seq<Seq<char>>
    decreases s.len(),
{
    if s.len() == 0 {
        seq![Seq::empty()]
    } else if p.len() > 0 && p.is_prefix_of(s) {
        seq![Seq::<char>::empty()] + split_by(s.skip(p.len() as int), p)
    } else {
        glued(seq![s[0]], split_by(s.skip(1), p))
    }
}

/// The pieces with `head` before the first.
pub open spec fn glued(head: Seq<char>, t: Seq<Seq<char>>) -> Seq<Seq<char>> {
    seq![head + t[0]] + t.skip(1)
}

pub proof fn lemma_split_by_nonempty(s: Seq<char>, p: Seq<char>)
    ensures
        split_by(s, p).len() >= 1,
    decreases s.len(),
{
    if s.len() > 0 {
        if p.len() > 0 && p.is_prefix_of(s) {
            lemma_split_by_nonempty(s.skip(p.len() as int), p);
        } else {
            lemma_split_by_nonempty(s.skip(1), p);
        }
    }
}

/// The pieces of `s` between the occurrences of `p`.
pub fn split_text(s: &str, p: &str) -> (r: Vec<String>)
    ensures
        views(r@) == split_by(s@, p@),
        r@.len() >= 1,
{
    let h = to_chars(s);
    let q = to_chars(p);
    let n: usize = h.len();
    let mut out: Vec<String> = Vec::new();
    let mut piece = String::new();
    let mut i: usize = 0;
    proof {
        lemma_split_by_nonempty(s@, p@);
        assert(s@.skip(0) =~= s@);
        assert(views(out@) + glued(piece@, split_by(s@, p@)) =~= split_by(s@, p@)) by {
            assert(piece@ + split_by(s@, p@)[0] =~= split_by(s@, p@)[0]);
        }
    }
    while i < n
        invariant
            n == h@.len(),
            h@ == s@,
            q@ == p@,
            i <= n,
            views(out@) + glued(piece@, split_by(s@.skip(i as int), p@)) == split_by(s@, p@),
        decreases n - i,
    {
        let ghost rest = s@.skip(i as int);
        let ghost done = views(out@);
        let ghost held = piece@;
        if q.len() > 0 && q.len() <= n - i && match_at(h.as_slice(), q.as_slice(), i) {
            proof {
                assert(rest.subrange(0, p@.len() as int) =~= s@.subrange(i as int, i + p@.len()));
                assert(p@.is_prefix_of(rest));
                let next = s@.skip(i + p@.len());
                assert(rest.skip(p@.len() as int) =~= next);
                lemma_split_by_nonempty(next, p@);
                let t = split_by(next, p@);
                assert(split_by(rest, p@) == seq![Seq::<char>::empty()] + t);
                assert((seq![Seq::<char>::empty()] + t).skip(1) =~= t);
                assert(held + Seq::<char>::empty() =~= held);
                assert(glued(held, split_by(rest, p@)) =~= seq![held] + t);
                assert(glued(Seq::empty(), t) =~= t) by {
                    assert(Seq::<char>::empty() + t[0] =~= t[0]);
                }
                assert(done + (seq![held] + t) =~= done.push(held) + t);
            }
            out.push(piece);
            piece = String::new();
            proof {
                assert(views(out@) =~= done.push(held));
            }
            i += q.len();
        } else {
            proof {
                if p@.len() > 0 && p@.is_prefix_of(rest) {
                    assert(rest.subrange(0, p@.len() as int) =~= s@.subrange(
                        i as int,
                        i + p@.len(),
                    ));
                    assert(occurs_at(s@, p@, i as int));
                }
                let next = s@.skip(i + 1);
                assert(rest.skip(1) =~= next);
                lemma_split_by_nonempty(next, p@);
                let t = split_by(next, p@);
                let c = s@[i as int];
                assert(rest[0] == c);
                assert(split_by(rest, p@) == glued(seq![c], t));
                assert(glued(seq![c], t).skip(1) =~= t.skip(1));
                assert(held + (seq![c] + t[0]) =~= held.push(c) + t[0]);
                assert(glued(held, split_by(rest, p@)) =~= glued(held.push(c), t));
            }
            piece.push(h[i]);
            i += 1;
        }
    }
    let ghost done = views(out@);
    let ghost held = piece@;
    proof {
        assert(s@.skip(n as int).len() == 0);
        assert(glued(held, seq![Seq::<char>::empty()]) =~= seq![held]) by {
            assert(held + Seq::<char>::empty() =~= held);
        }
        assert(done + seq![held] =~= done.push(held));
    }
    out.push(piece);
    proof {
        assert(views(out@) =~= done.push(held));
    }
    out
}

/// `s` without the characters `c` it starts with.
pub open spec fn drop_leading(s: Seq<char>, c: char) -> Seq<char>
    decreases s.len(),
{
    if s.len() > 0 && s[0] == c {
        drop_leading(s.skip(1), c)
    } else {
        s
    }
}

pub fn without_leading(s: &str, c: char) -> (r: String)
    ensures
        r@ == drop_leading(s@, c),
{
    let v = to_chars(s);
    let n: usize = v.len();
    let mut i: usize = 0;
    proof {
        assert(s@.skip(0) =~= s@);
    }
    while i < n && v[i] == c
        invariant
            n == v@.len(),
            v@ == s@,
            i <= n,
            drop_leading(s@, c) == drop_leading(s@.skip(i as int), c),
        decreases n - i,
    {
        proof {
            assert(s@.skip(i as int).skip(1) =~= s@.skip(i + 1));
        }
        i += 1;
    }
    let rest = vstd::slice::slice_subrange(v.as_slice(), i, n);
    proof {
        assert(rest@ =~= s@.skip(i as int));
        if i < n {
            assert(s@.skip(i as int)[0] == s@[i as int]);
        }
    }
    to_text(rest)
}

/// `s` without the `p`s it ends in.
pub open spec fn drop_trailing(s: Seq<char>, p: Seq<char>) -> Seq<char>
    decreases s.len(),
{
    if p.len() > 0 && p.is_suffix_of(s) {
        drop_trailing(s.take(s.len() - p.len()), p)
    } else {
        s
    }
}

pub fn without_trailing(s: &str, p: &str) -> (r: String)
    ensures
        r@ == drop_trailing(s@, p@),
{
    let v = to_chars(s);
    let q = to_chars(p);
    let mut n: usize = v.len();
    let m: usize = q.len();
    proof {
        assert(s@.take(s@.len() as int) =~= s@);
    }
    while m > 0 && n >= m && match_at(v.as_slice(), q.as_slice(), n - m)
        invariant
            v@ == s@,
            q@ == p@,
            m == p@.len(),
            n <= v@.len(),
            drop_trailing(s@, p@) == drop_trailing(s@.take(n as int), p@),
        decreases n,
    {
        proof {
            let t = s@.take(n as int);
            assert(t.subrange(n - m, n as int) =~= s@.subrange(n - m, n as int));
            assert(p@.is_suffix_of(t));
            assert(t.take(n - m) =~= s@.take(n - m));
        }
        n -= m;
    }
    let rest = vstd::slice::slice_subrange(v.as_slice(), 0, n);
    proof {
        let t = s@.take(n as int);
        assert(rest@ =~= t);
        if m > 0 && p@.is_suffix_of(t) {
            assert(t.subrange(n - m, n as int) =~= s@.subrange(n - m, n as int));
            assert(occurs_at(s@, p@, n - m));
        }
    }
    to_text(rest)
}

/// Pieces without the separator, joined and split again, are the same pieces.
pub proof fn split_undoes_join(parts: Seq<Seq<char>>, c: char)
    requires
        parts.len() >= 1,
        forall|k: int, i: int|
            0 <= k < parts.len() && 0 <= i < parts[k].len() ==> #[trigger] parts[k][i] != c,
    ensures
        split_on(join(parts, seq![c]), c) == parts,
    decreases parts.len(),
{
    if parts.len() == 1 {
        lemma_split_plain(Seq::empty(), parts[0], c);
        assert(Seq::<char>::empty() + parts[0] =~= parts[0]);
        let one = seq![Seq::<char>::empty()];
        assert(one.drop_last().push(one.last() + parts[0]) =~= parts) by {
            assert(one.last() + parts[0] =~= parts[0]);
        }
    } else {
        let init = parts.drop_last();
        assert forall|k: int, i: int| 0 <= k < init.len() && 0 <= i < init[k].len() implies
            #[trigger] init[k][i] != c by {
            assert(init[k] == parts[k]);
        }
        split_undoes_join(init, c);
        let head = join(init, seq![c]) + seq![c];
        assert(head.drop_last() =~= join(init, seq![c]));
        assert(split_on(head, c) =~= init.push(Seq::empty()));
        assert(parts.last() == parts[parts.len() - 1]);
        lemma_split_plain(head, parts.last(), c);
        let t = init.push(Seq::<char>::empty());
        assert(t.drop_last().push(t.last() + parts.last()) =~= parts) by {
            assert(t.last() + parts.last() =~= parts.last());
        }
    }
}

/// A piece without the separator goes to the last piece.
proof fn lemma_split_plain(s: Seq<char>, x: Seq<char>, c: char)
    requires
        forall|i: int| 0 <= i < x.len() ==> #[trigger] x[i] != c,
    ensures
        ({
            let t = split_on(s, c);
            split_on(s + x, c) == t.drop_last().push(t.last() + x)
        }),
    decreases x.len(),
{
    lemma_split_nonempty(s, c);
    let t = split_on(s, c);
    if x.len() == 0 {
        assert(s + x =~= s);
        assert(t.last() + x =~= t.last());
        assert(t.drop_last().push(t.last()) =~= t);
    } else {
        let y = x.drop_last();
        assert forall|i: int| 0 <= i < y.len() implies #[trigger] y[i] != c by {
            assert(y[i] == x[i]);
        }
        lemma_split_plain(s, y, c);
        assert((s + x).drop_last() =~= s + y);
        assert(x[x.len() - 1] != c);
        let u = t.drop_last().push(t.last() + y);
        assert(u.drop_last().push(u.last().push(x.last())) =~= t.drop_last().push(t.last() + x)) by {
            assert((t.last() + y).push(x.last()) =~= t.last() + x);
        }
    }
}

/// Where `p` occurs, it stands after what precedes its first occurrence.
pub proof fn lemma_before_first_shorter(s: Seq<char>, p: Seq<char>)
    requires
        contains(s, p),
    ensures
        before_first(s, p).len() + p.len() <= s.len(),
        occurs_at(s, p, before_first(s, p).len() as int),
{
    let i = choose|i: int| occurs_at(s, p, i);
    lemma_first_exists(s, p, 0, i);
    let k = choose|k: int| is_first_from(s, p, 0, k);
    lemma_before_first(s, p, k);
}

/// Where `p` occurs, it occurs first somewhere.
pub proof fn lemma_first(s: Seq<char>, p: Seq<char>)
    requires
        contains(s, p),
    ensures
        exists|k: int| is_first_from(s, p, 0, k),
{
    let i = choose|i: int| occurs_at(s, p, i);
    lemma_first_exists(s, p, 0, i);
}

proof fn lemma_first_exists(s: Seq<char>, p: Seq<char>, from: int, i: int)
    requires
        0 <= from <= i,
        occurs_at(s, p, i),
    ensures
        exists|k: int| is_first_from(s, p, from, k),
    decreases i - from,
{
    if exists|j: int| from <= j < i && occurs_at(s, p, j) {
        let j = choose|j: int| from <= j < i && occurs_at(s, p, j);
        lemma_first_exists(s, p, from, j);
    } else {
        assert(is_first_from(s, p, from, i));
    }
}

pub proof fn lemma_before_last_shorter(s: Seq<char>, c: char)
    ensures
        before_last(s, c) matches Some(head) ==> head.len() < s.len(),
    decreases s.len(),
{
    if s.len() > 0 {
        lemma_before_last_shorter(s.drop_last(), c);
    }
}

/// What precedes `p`, if `s` ends in it.
pub fn strip_suffix(s: &str, p: &str) -> (r: Option<String>)
    ensures
        match r {
            Some(t) => p@.is_suffix_of(s@) && t@ == s@.take(s@.len() - p@.len()),
            None => !p@.is_suffix_of(s@),
        },
{
    if !ends_with(s, p) {
        return None;
    }
    let v = to_chars(s);
    let q = to_chars(p);
    let head = vstd::slice::slice_subrange(v.as_slice(), 0, v.len() - q.len());
    proof {
        assert(head@ =~= s@.take(s@.len() - p@.len()));
    }
    Some(to_text(head))
}

// ---------------------------------------------------------------------------
// Numbers
// ---------------------------------------------------------------------------

/// What a row of decimal digits stands for.
pub open spec fn digits_value(s: Seq<char>) -> nat
    decreases s.len(),
{
    if s.len() == 0 {
        0
    } else {
        digits_value(s.drop_last()) * 10 + (s.last() as nat - 48) as nat
    }
}

pub open spec fn all_digits(s: Seq<char>) -> bool {
    forall|i: int| 0 <= i < s.len() ==> is_digit_ascii(#[trigger] s[i])
}

/// The number that a text stands for: decimal digits, at least one, perhaps
/// after a sign, within the range of 64 bits.
pub open spec fn number_read(s: Seq<char>) -> Option<int> {
    let signed = s.len() > 0 && (s[0] == '-' || s[0] == '+');
    let digits = if signed {
        s.skip(1)
    } else {
        s
    };
    let value = if s.len() > 0 && s[0] == '-' {
        -(digits_value(digits) as int)
    } else {
        digits_value(digits) as int
    };
    if digits.len() > 0 && all_digits(digits) && i64::MIN <= value <= i64::MAX {
        Some(value)
    } else {
        None
    }
}

proof fn lemma_digits_grow(s: Seq<char>, i: int)
    requires
        all_digits(s),
        0 <= i <= s.len(),
    ensures
        digits_value(s.take(i)) <= digits_value(s),
    decreases s.len(),
{
    if i == s.len() {
        assert(s.take(i) =~= s);
    } else {
        let init = s.drop_last();
        assert forall|k: int| 0 <= k < init.len() implies is_digit_ascii(#[trigger] init[k]) by {
            assert(is_digit_ascii(s[k]));
        }
        lemma_digits_grow(init, i);
        assert(init.take(i) =~= s.take(i));
    }
}

/// Reads a number; nothing where the text is none or is out of range.
pub fn parse_number(s: &str) -> (r: Option<i64>)
    ensures
        match r {
            Some(n) => number_read(s@) == Some(n as int),
            None => number_read(s@) is None,
        },
{
    let v = to_chars(s);
    let n: usize = v.len();
    if n == 0 {
        return None;
    }
    let negative = v[0] == '-';
    let start: usize = if v[0] == '-' || v[0] == '+' {
        1
    } else {
        0
    };
    let ghost digits = if start == 1 {
        s@.skip(1)
    } else {
        s@
    };
    if start == n {
        return None;
    }
    let mut value: u64 = 0;
    let mut i: usize = start;
    proof {
        assert(digits.take(0).len() == 0);
        assert(s@.skip(0) =~= s@);
    }
    while i < n
        invariant
            n == v@.len(),
            v@ == s@,
            start <= i <= n,
            start <= 1,
            digits == s@.skip(start as int),
            forall|k: int| 0 <= k < i - start ==> is_digit_ascii(#[trigger] digits[k]),
            value == digits_value(digits.take(i - start)),
            value <= 0x8000_0000_0000_0000,
            number_read(s@) is Some ==> all_digits(digits) && digits_value(digits)
                <= 0x8000_0000_0000_0000,
        decreases n - i,
    {
        let c = v[i];
        proof {
            assert(digits[i - start] == c);
            assert(digits.take(i + 1 - start).drop_last() =~= digits.take(i - start));
            assert(digits.take(i + 1 - start).last() == c);
        }
        if !('0' <= c && c <= '9') {
            return None;
        }
        let d: u64 = (c as u32 - 48) as u64;
        if value > 922337203685477580 || value * 10 + d > 0x8000_0000_0000_0000 {
            proof {
                if number_read(s@) is Some {
                    lemma_digits_grow(digits, i + 1 - start);
                }
            }
            return None;
        }
        value = value * 10 + d;
        i += 1;
    }
    proof {
        assert(digits.take(n - start) =~= digits);
    }
    if negative {
        if value == 0x8000_0000_0000_0000 {
            Some(i64::MIN)
        } else {
            Some(-(value as i64))
        }
    } else if value <= 0x7fff_ffff_ffff_ffff {
        Some(value as i64)
    } else {
        None
    }
}

pub proof fn lemma_decimal_digits(n: nat)
    ensures
        decimal(n).len() > 0,
        all_digits(decimal(n)),
        digits_value(decimal(n)) == n,
    decreases n,
{
    assert(digit(n % 10) as nat == n % 10 + 48);
    if n < 10 {
        assert(digits_value(decimal(n).drop_last()) == 0);
        assert(decimal(n).last() == digit(n % 10));
    } else {
        lemma_decimal_digits(n / 10);
        assert(decimal(n).drop_last() =~= decimal(n / 10));
        assert(decimal(n).last() == digit(n % 10));
        assert forall|i: int| 0 <= i < decimal(n).len() implies is_digit_ascii(
            #[trigger] decimal(n)[i],
        ) by {
            if i < decimal(n / 10).len() {
                assert(decimal(n)[i] == decimal(n / 10)[i]);
            }
        }
    }
}

/// A number reads back from its decimal representation.
pub proof fn number_reads_back(n: int)
    requires
        i64::MIN <= n <= i64::MAX,
    ensures
        number_read(decimal_int(n)) == Some(n),
{
    if n < 0 {
        lemma_decimal_digits((-n) as nat);
        assert(decimal_int(n).skip(1) =~= decimal((-n) as nat));
    } else {
        lemma_decimal_digits(n as nat);
        assert(is_digit_ascii(decimal(n as nat)[0]));
    }
}

/// A text is what precedes the last separator, the separator, and what follows
/// it, which holds no other; without a separator all of it follows.
pub proof fn the_last_separator_splits(s: Seq<char>, c: char)
    ensures
        match before_last(s, c) {
            Some(head) => s == head.push(c) + after_last(s, c),
            None => after_last(s, c) == s,
        },
        !after_last(s, c).contains(c),
        before_last(s, c) is Some <==> s.contains(c),
    decreases s.len(),
{
    if s.len() > 0 {
        let front = s.drop_last();
        if s.last() == c {
            assert(s =~= front.push(c) + Seq::<char>::empty());
            assert(s[s.len() - 1] == c);
        } else {
            the_last_separator_splits(front, c);
            let tail = after_last(front, c);
            match before_last(front, c) {
                Some(head) => {
                    assert(s =~= front.push(s.last()));
                    assert(front.push(s.last()) =~= head.push(c) + tail.push(s.last()));
                    let i = choose|i: int| 0 <= i < front.len() && front[i] == c;
                    assert(s[i] == c);
                },
                None => {
                    assert(s =~= tail.push(s.last()));
                    if s.contains(c) {
                        let i = choose|i: int| 0 <= i < s.len() && s[i] == c;
                        assert(front[i] == c);
                    }
                },
            }
            if tail.push(s.last()).contains(c) {
                let i = choose|i: int|
                    0 <= i < tail.push(s.last()).len() && tail.push(s.last())[i] == c;
                assert(tail[i] == c);
            }
        }
    }
}

proof fn lemma_trim_start_is_rest(s: Seq<char>)
    ensures
        trim_start(s).len() <= s.len(),
        trim_start(s) == s.skip(s.len() - trim_start(s).len()),
        forall|i: int| 0 <= i < s.len() - trim_start(s).len() ==> is_white(#[trigger] s[i]),
        trim_start(s).len() > 0 ==> !is_white(trim_start(s)[0]),
    decreases s.len(),
{
    if s.len() > 0 && is_white(s[0]) {
        let rest = s.skip(1);
        lemma_trim_start_is_rest(rest);
        assert(trim_start(s) =~= s.skip(s.len() - trim_start(s).len()));
        assert forall|i: int| 0 <= i < s.len() - trim_start(s).len() implies is_white(
            #[trigger] s[i],
        ) by {
            if i > 0 {
                assert(rest[i - 1] == s[i]);
            }
        }
    } else {
        assert(s =~= s.skip(0));
    }
}

proof fn lemma_trim_end_is_front(s: Seq<char>)
    ensures
        trim_end(s).len() <= s.len(),
        trim_end(s) == s.take(trim_end(s).len() as int),
        forall|i: int| trim_end(s).len() <= i < s.len() ==> is_white(#[trigger] s[i]),
        trim_end(s).len() > 0 ==> !is_white(trim_end(s).last()),
    decreases s.len(),
{
    if s.len() > 0 && is_white(s.last()) {
        let front = s.drop_last();
        lemma_trim_end_is_front(front);
        assert(trim_end(s) =~= s.take(trim_end(s).len() as int));
        assert forall|i: int| trim_end(s).len() <= i < s.len() implies is_white(#[trigger] s[i]) by {
            if i < front.len() {
                assert(front[i] == s[i]);
            }
        }
    } else {
        assert(s =~= s.take(s.len() as int));
    }
}

/// A trimmed text is a piece of the text, with nothing but white space before and
/// after it, and none at its own ends.
pub proof fn only_white_space_is_trimmed(s: Seq<char>)
    ensures
        exists|a: int, b: int|
            0 <= a <= b <= s.len() && trim(s) == #[trigger] s.subrange(a, b) && (forall|i: int|
                0 <= i < a || b <= i < s.len() ==> is_white(#[trigger] s[i])),
        trim(s).len() > 0 ==> !is_white(trim(s)[0]) && !is_white(trim(s).last()),
{
    let t = trim_start(s);
    lemma_trim_start_is_rest(s);
    lemma_trim_end_is_front(t);
    let a = s.len() - t.len();
    let b = a + trim(s).len();
    assert(trim(s) =~= s.subrange(a, b));
    assert forall|i: int| 0 <= i < a || b <= i < s.len() implies is_white(#[trigger] s[i]) by {
        if i >= b {
            assert(t[i - a] == s[i]);
        }
    }
    if trim(s).len() > 0 {
        assert(trim(s)[0] == t[0]);
    }
}

/// Capitals become the small letters that stand thirty-two places behind them,
/// and small letters capitals; nothing else changes.
pub proof fn letters_change_case(c: char)
    ensures
        'A' <= c <= 'Z' ==> lower_char(c) as int == c as int + 32,
        !('A' <= c <= 'Z') ==> lower_char(c) == c,
        'a' <= c <= 'z' ==> upper_char(c) as int == c as int - 32,
        !('a' <= c <= 'z') ==> upper_char(c) == c,
{
}

/// What does not occur is not replaced.
pub proof fn absent_texts_are_not_replaced(s: Seq<char>, p: Seq<char>, q: Seq<char>)
    requires
        p.len() > 0,
        !contains(s, p),
    ensures
        replace(s, p, q) == s,
    decreases s.len(),
{
    if s.len() > 0 {
        let rest = s.skip(1);
        if p.is_prefix_of(s) {
            assert(s.subrange(0, p.len() as int) =~= p);
            assert(occurs_at(s, p, 0));
        }
        if contains(rest, p) {
            let i = choose|i: int| occurs_at(rest, p, i);
            assert(s.subrange(i + 1, i + 1 + p.len()) =~= rest.subrange(i, i + p.len()));
            assert(occurs_at(s, p, i + 1));
        }
        absent_texts_are_not_replaced(rest, p, q);
        assert(seq![s[0]] + rest =~= s);
    }
}

/// The first occurrence gives way, and the rest is looked at on its own.
pub proof fn the_first_occurrence_gives_way(a: Seq<char>, p: Seq<char>, b: Seq<char>, q: Seq<char>)
    requires
        p.len() > 0,
        is_first_from(a + p + b, p, 0, a.len() as int),
    ensures
        replace(a + p + b, p, q) == a + q + replace(b, p, q),
    decreases a.len(),
{
    let s = a + p + b;
    if a.len() == 0 {
        assert(s =~= p + b);
        assert(p.is_prefix_of(s)) by {
            assert(p =~= s.take(p.len() as int));
        }
        assert(s.skip(p.len() as int) =~= b);
        assert(a + q =~= q);
    } else {
        if p.is_prefix_of(s) {
            assert(s.subrange(0, p.len() as int) =~= p);
            assert(occurs_at(s, p, 0));
        }
        let t = a.skip(1);
        let rest = t + p + b;
        assert(s.skip(1) =~= rest);
        assert(occurs_at(rest, p, t.len() as int)) by {
            assert(rest.subrange(t.len() as int, t.len() as int + p.len()) =~= p);
        }
        assert forall|j: int| 0 <= j < t.len() implies !occurs_at(rest, p, j) by {
            if occurs_at(rest, p, j) {
                assert(s.subrange(j + 1, j + 1 + p.len()) =~= rest.subrange(j, j + p.len()));
                assert(occurs_at(s, p, j + 1));
            }
        }
        the_first_occurrence_gives_way(t, p, b, q);
        assert(seq![s[0]] + (t + q + replace(b, p, q)) =~= a + q + replace(b, p, q));
    }
}

/// Lines that are joined by line breaks are read again, whether or not the last
/// one is ended.
pub proof fn joined_lines_are_read(lines: Seq<Seq<char>>)
    requires
        lines.len() > 0,
        lines.last().len() > 0,
        forall|k: int, i: int|
            0 <= k < lines.len() && 0 <= i < lines[k].len() ==> #[trigger] lines[k][i] != '\n',
        forall|k: int|
            0 <= k < lines.len() ==> (#[trigger] lines[k]).len() == 0 || lines[k].last() != '\r',
    ensures
        lines_of(join(lines, seq!['\n'])) == lines,
        lines_of(join(lines, seq!['\n']).push('\n')) == lines,
{
    let s = join(lines, seq!['\n']);
    split_undoes_join(lines, '\n');
    let ended = lines.drop_last().map_values(|l: Seq<char>| strip_cr(l));
    assert(ended.push(lines.last()) =~= lines);
    let t = s.push('\n');
    assert(t.drop_last() =~= s);
    assert(split_on(t, '\n') == lines.push(Seq::empty()));
    assert(split_on(t, '\n').drop_last() =~= lines);
    assert(lines.map_values(|l: Seq<char>| strip_cr(l)) =~= lines);
}

/// A line loses the carriage return before its end, and no more.
pub proof fn one_carriage_return_goes(s: Seq<char>)
    ensures
        strip_cr(s.push('\r')) == s,
        s.len() == 0 || s.last() != '\r' ==> strip_cr(s) == s,
{
    assert(s.push('\r').drop_last() =~= s);
}

proof fn lemma_join_front(head: Seq<char>, t: Seq<Seq<char>>, sep: Seq<char>)
    requires
        t.len() > 0,
    ensures
        join(seq![head] + t, sep) == head + sep + join(t, sep),
    decreases t.len(),
{
    let all = seq![head] + t;
    if t.len() == 1 {
        assert(all.drop_last() =~= seq![head]);
        assert(all.last() == t[0]);
        assert(join(seq![head], sep) == head);
    } else {
        assert(all.drop_last() =~= seq![head] + t.drop_last());
        lemma_join_front(head, t.drop_last(), sep);
        assert(all.last() == t.last());
        assert(head + sep + join(t.drop_last(), sep) + sep + t.last() =~= head + sep + (join(
            t.drop_last(),
            sep,
        ) + sep + t.last()));
    }
}

proof fn lemma_join_glued(head: Seq<char>, t: Seq<Seq<char>>, sep: Seq<char>)
    requires
        t.len() > 0,
    ensures
        join(glued(head, t), sep) == head + join(t, sep),
{
    let rest = t.skip(1);
    if rest.len() == 0 {
        assert(glued(head, t) =~= seq![head + t[0]]);
    } else {
        lemma_join_front(head + t[0], rest, sep);
        lemma_join_front(t[0], rest, sep);
        assert(seq![t[0]] + rest =~= t);
        assert(head + t[0] + sep + join(rest, sep) =~= head + (t[0] + sep + join(rest, sep)));
    }
}

/// Splitting a text by another and joining the pieces with it gives the text back.
pub proof fn join_undoes_split_by(s: Seq<char>, p: Seq<char>)
    requires
        p.len() > 0,
    ensures
        join(split_by(s, p), p) == s,
    decreases s.len(),
{
    if s.len() > 0 {
        if p.is_prefix_of(s) {
            let rest = s.skip(p.len() as int);
            join_undoes_split_by(rest, p);
            lemma_split_by_nonempty(rest, p);
            lemma_join_front(Seq::empty(), split_by(rest, p), p);
            assert(p =~= s.take(p.len() as int));
            assert(Seq::<char>::empty() + p + rest =~= s);
        } else {
            let rest = s.skip(1);
            join_undoes_split_by(rest, p);
            lemma_split_by_nonempty(rest, p);
            lemma_join_glued(seq![s[0]], split_by(rest, p), p);
            assert(seq![s[0]] + rest =~= s);
        }
    }
}

/// Leading characters go as far as they are the same, and no further.
pub proof fn leading_characters_go(s: Seq<char>, c: char)
    ensures
        drop_leading(s, c).len() > 0 ==> drop_leading(s, c)[0] != c,
        drop_leading(s, c).len() <= s.len(),
        drop_leading(s, c) == s.skip(s.len() - drop_leading(s, c).len()),
        forall|i: int| 0 <= i < s.len() - drop_leading(s, c).len() ==> #[trigger] s[i] == c,
    decreases s.len(),
{
    if s.len() > 0 && s[0] == c {
        let rest = s.skip(1);
        leading_characters_go(rest, c);
        assert(drop_leading(s, c) =~= s.skip(s.len() - drop_leading(s, c).len()));
        assert forall|i: int| 0 <= i < s.len() - drop_leading(s, c).len() implies #[trigger] s[i]
            == c by {
            if i > 0 {
                assert(rest[i - 1] == s[i]);
            }
        }
    } else {
        assert(s =~= s.skip(0));
    }
}

/// A trailing text goes as often as it stands there.
pub proof fn trailing_texts_go(s: Seq<char>, p: Seq<char>)
    requires
        p.len() > 0,
    ensures
        drop_trailing(s + p, p) == drop_trailing(s, p),
        !p.is_suffix_of(s) ==> drop_trailing(s, p) == s,
        !p.is_suffix_of(drop_trailing(s, p)),
    decreases s.len(),
{
    let t = s + p;
    assert(t.skip(t.len() - p.len()) =~= p);
    assert(p.is_suffix_of(t)) by {
        assert(p =~= t.subrange(t.len() - p.len(), t.len() as int));
    }
    assert(t.take(t.len() - p.len()) =~= s);
    if p.is_suffix_of(s) {
        trailing_texts_go(s.take(s.len() - p.len()), p);
    }
}

/// The first characters that differ decide the order; what goes on stands behind
/// what it starts with.
pub proof fn first_differences_decide(p: Seq<char>, a: Seq<char>, b: Seq<char>)
    ensures
        text_le(p + a, p + b) == text_le(a, b),
        text_le(p, p + a),
        a.len() > 0 && b.len() > 0 && a[0] < b[0] ==> text_le(p + a, p + b) && !text_le(
            p + b,
            p + a,
        ),
    decreases p.len(),
{
    if p.len() > 0 {
        let q = p.skip(1);
        first_differences_decide(q, a, b);
        assert((p + a).skip(1) =~= q + a);
        assert((p + b).skip(1) =~= q + b);
    } else {
        assert(p + a =~= a);
        assert(p + b =~= b);
    }
}

/// A text is split again where it was joined, and one without the separator is
/// left whole.
pub proof fn what_was_joined_is_split(d: Seq<char>, c: char, f: Seq<char>)
    requires
        !f.contains(c),
    ensures
        after_last(d.push(c) + f, c) == f,
        before_last(d.push(c) + f, c) == Some(d),
        after_last(f, c) == f,
        before_last(f, c) is None,
{
    let s = d.push(c) + f;
    assert forall|j: int| d.len() + 1 <= j < s.len() implies s[j] != c by {
        assert(f[j - d.len() - 1] == s[j]);
    }
    lemma_after_last(s, c, d.len() as int + 1);
    assert(s.skip(d.len() as int + 1) =~= f);
    assert(s.take(d.len() as int) =~= d);
    assert forall|j: int| 0 <= j < f.len() implies f[j] != c by {
        assert(f.contains(f[j]));
    }
    lemma_after_last(f, c, 0);
    assert(f.skip(0) =~= f);
}

} // verus!
