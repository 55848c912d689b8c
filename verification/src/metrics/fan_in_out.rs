//! Which files import which.

use vstd::prelude::*;

use crate::fold;
use crate::analysis::source_filter;
use crate::analysis::source_filter::is_source_file;
use crate::blob;
use crate::messages;
use crate::order;
use crate::order::Ranked;
use crate::pattern;
use crate::pattern::{Match, MatchModel, Searcher};
use crate::report;
use crate::report::Row;
use crate::table;
use crate::table::TextMap;
use crate::text;
use crate::types;
use crate::types::{EntryModel, LocalizedMessage, MessageModel, MetricEntry, MetricResult, MetricValue, ResultModel, ValueModel, Values};

verus! {

/// Larger files are not searched for imports.
pub const MAX_BLOB_BYTES: u64 = 204_800;

pub const MAX_ENTRIES: usize = 150;

/// A `use` statement; group 1 is all between the keyword and the semicolon.
pub const RUST_USE: &'static str = "^[ \\t]*(?:pub\\s+)?use\\s+([^;]+);";

/// A `mod` declaration; group 1 is the name of the module.
pub const RUST_MOD: &'static str = "^[ \\t]*(?:pub\\s+)?mod\\s+([A-Za-z_]\\w*)\\s*;";

/// An import; group 1 or 2 is the dotted name of the module.
pub const PYTHON_IMPORT: &'static str =
    "^[ \\t]*(?:from\\s+([\\w.]+)\\s+import|import\\s+([\\w.]+))";

/// An import; group 1 is the path of the module.
pub const TS_IMPORT: &'static str = "(?:from|require\\()\\s*['\"]([^'\"]+)['\"]";

/// A language whose imports can be read.
#[derive(Debug, Clone, Copy, PartialEq, Eq, Structural)]
pub enum Lang {
    Rust,
    Python,
    TypeScript,
}

/// The language of a file, by what follows the last point of its path, or by the
/// whole path where there is none.
pub open spec fn lang_of(path: Seq<char>) -> Option<Lang> {
    let ext = text::after_last(path, '.');
    if ext == "rs"@ {
        Some(Lang::Rust)
    } else if ext == "py"@ || ext == "pyi"@ {
        Some(Lang::Python)
    } else if ext == "ts"@ || ext == "tsx"@ || ext == "js"@ || ext == "jsx"@ {
        Some(Lang::TypeScript)
    } else {
        None
    }
}

pub fn detect_lang(path: &str) -> (r: Option<Lang>)
    ensures
        r == lang_of(path@),
{
    let tail = text::tail_after(path, '.');
    let ext = tail.as_str();
    if text::same(ext, "rs") {
        Some(Lang::Rust)
    } else if text::same(ext, "py") || text::same(ext, "pyi") {
        Some(Lang::Python)
    } else if text::same(ext, "ts") || text::same(ext, "tsx") || text::same(ext, "js")
        || text::same(ext, "jsx") {
        Some(Lang::TypeScript)
    } else {
        None
    }
}

/// The part that a file plays among the others.
pub open spec fn role(fan_in: int, fan_out: int) -> MessageModel {
    let code = if fan_in >= 5 && fan_out <= 2 {
        messages::FAN_IN_OUT_ROLE_HUB@
    } else if fan_out >= 5 && fan_in <= 1 {
        messages::FAN_IN_OUT_ROLE_ORCHESTRATOR@
    } else if fan_in == 0 && fan_out > 0 {
        messages::FAN_IN_OUT_ROLE_LEAF@
    } else if fan_out == 0 && fan_in > 0 {
        messages::FAN_IN_OUT_ROLE_PURE_DEP@
    } else {
        messages::FAN_IN_OUT_ROLE_MIXED@
    };
    MessageModel::of(code).with_number("fan_in"@, fan_in).with_number("fan_out"@, fan_out)
}

pub fn classify(fan_in: u64, fan_out: u64) -> (r: LocalizedMessage)
    ensures
        r@ == role(fan_in as int, fan_out as int),
{
    let code = if fan_in >= 5 && fan_out <= 2 {
        messages::FAN_IN_OUT_ROLE_HUB
    } else if fan_out >= 5 && fan_in <= 1 {
        messages::FAN_IN_OUT_ROLE_ORCHESTRATOR
    } else if fan_in == 0 && fan_out > 0 {
        messages::FAN_IN_OUT_ROLE_LEAF
    } else if fan_out == 0 && fan_in > 0 {
        messages::FAN_IN_OUT_ROLE_PURE_DEP
    } else {
        messages::FAN_IN_OUT_ROLE_MIXED
    };
    LocalizedMessage::code(code).with_param("fan_in", fan_in).with_param("fan_out", fan_out)
}

// ---------------------------------------------------------------------------
// What a file imports
// ---------------------------------------------------------------------------

/// The pieces between the commas that stand outside braces, where `depth`
/// braces are open at the start.
pub open spec fn top_level_pieces(s: Seq<char>, depth: int) -> Seq<Seq<char>>
    decreases s.len(),
{
    if s.len() == 0 {
        seq![Seq::empty()]
    } else if s[0] == ',' && depth <= 0 {
        seq![Seq::<char>::empty()] + top_level_pieces(s.skip(1), depth)
    } else {
        let d = if s[0] == '{' {
            depth + 1
        } else if s[0] == '}' {
            depth - 1
        } else {
            depth
        };
        text::glued(seq![s[0]], top_level_pieces(s.skip(1), d))
    }
}

proof fn lemma_pieces_nonempty(s: Seq<char>, depth: int)
    ensures
        top_level_pieces(s, depth).len() >= 1,
    decreases s.len(),
{
    if s.len() > 0 {
        let d = if s[0] == '{' {
            depth + 1
        } else if s[0] == '}' {
            depth - 1
        } else {
            depth
        };
        lemma_pieces_nonempty(s.skip(1), depth);
        lemma_pieces_nonempty(s.skip(1), d);
    }
}

/// Splits on the commas that stand outside braces.
pub fn split_top_level_commas(s: &str) -> (r: Vec<String>)
    ensures
        text::views(r@) == top_level_pieces(s@, 0),
{
    let v = text::to_chars(s);
    let n: usize = v.len();
    let mut out: Vec<String> = Vec::new();
    let mut piece = String::new();
    let mut depth: i128 = 0;
    let mut i: usize = 0;
    proof {
        lemma_pieces_nonempty(s@, 0);
        assert(s@.skip(0) =~= s@);
        let t = top_level_pieces(s@, 0);
        assert(piece@ + t[0] =~= t[0]);
        assert(text::views(out@) + text::glued(piece@, t) =~= t);
    }
    while i < n
        invariant
            n == v@.len(),
            v@ == s@,
            i <= n,
            -i <= depth <= i,
            text::views(out@) + text::glued(
                piece@,
                top_level_pieces(s@.skip(i as int), depth as int),
            ) == top_level_pieces(s@, 0),
        decreases n - i,
    {
        let c = v[i];
        let ghost rest = s@.skip(i as int);
        let ghost next = s@.skip(i + 1);
        let ghost done = text::views(out@);
        let ghost held = piece@;
        proof {
            assert(rest.skip(1) =~= next);
            assert(rest[0] == c);
        }
        if c == ',' && depth <= 0 {
            proof {
                lemma_pieces_nonempty(next, depth as int);
                let t = top_level_pieces(next, depth as int);
                assert((seq![Seq::<char>::empty()] + t).skip(1) =~= t);
                assert(held + Seq::<char>::empty() =~= held);
                assert(text::glued(held, top_level_pieces(rest, depth as int)) =~= seq![held] + t);
                assert(text::glued(Seq::empty(), t) =~= t) by {
                    assert(Seq::<char>::empty() + t[0] =~= t[0]);
                }
                assert(done + (seq![held] + t) =~= done.push(held) + t);
            }
            out.push(piece);
            piece = String::new();
            proof {
                assert(text::views(out@) =~= done.push(held));
            }
        } else {
            let ghost before = depth as int;
            if c == '{' {
                depth += 1;
            } else if c == '}' {
                depth -= 1;
            }
            proof {
                lemma_pieces_nonempty(next, depth as int);
                let t = top_level_pieces(next, depth as int);
                assert(top_level_pieces(rest, before) == text::glued(seq![c], t));
                assert(text::glued(seq![c], t).skip(1) =~= t.skip(1));
                assert(held + (seq![c] + t[0]) =~= held.push(c) + t[0]);
                assert(text::glued(held, top_level_pieces(rest, before)) =~= text::glued(
                    held.push(c),
                    t,
                ));
            }
            piece.push(c);
        }
        i += 1;
    }
    let ghost done = text::views(out@);
    let ghost held = piece@;
    proof {
        assert(s@.skip(n as int).len() == 0);
        assert(held + Seq::<char>::empty() =~= held);
        assert(text::glued(held, seq![Seq::<char>::empty()]) =~= seq![held]);
        assert(done + seq![held] =~= done.push(held));
    }
    out.push(piece);
    proof {
        assert(text::views(out@) =~= done.push(held));
    }
    out
}

/// What an item of a group names: without a group of its own and an alias.
pub open spec fn item_head(item: Seq<char>) -> Seq<char> {
    text::trim(text::before_first(text::before_first(item, "::{"@), " as "@))
}

/// What an item imports, if anything. `self` and `*` stand for the module that
/// the prefix names.
pub open spec fn item_import(prefix: Seq<char>, item: Seq<char>) -> Option<Seq<char>> {
    let head = item_head(item);
    if head.len() == 0 {
        None
    } else if head == "self"@ || head == "*"@ {
        Some(text::drop_trailing(prefix, "::"@))
    } else {
        Some(prefix + head)
    }
}

/// What the first `n` items import.
pub open spec fn group_imports(prefix: Seq<char>, items: Seq<Seq<char>>, n: int) -> Seq<Seq<char>>
    decreases n,
{
    if n <= 0 {
        Seq::empty()
    } else {
        match item_import(prefix, items[n - 1]) {
            Some(x) => group_imports(prefix, items, n - 1).push(x),
            None => group_imports(prefix, items, n - 1),
        }
    }
}

/// The group between the first `{` and the last `}`, which may be missing. A
/// group that closes before it opens holds nothing.
pub open spec fn brace_group(body: Seq<char>) -> Seq<char> {
    let open = text::before_first(body, "{"@).len();
    let close = match text::before_last(body, '}') {
        Some(head) => head.len(),
        None => body.len(),
    };
    if close <= open {
        Seq::empty()
    } else {
        body.subrange(open as int + 1, close as int)
    }
}

/// What a `use` statement imports: its path, or one path for each item of its
/// group.
pub open spec fn use_imports(body: Seq<char>) -> Seq<Seq<char>> {
    let trimmed = text::trim(body);
    if text::contains(trimmed, "{"@) {
        let items = top_level_pieces(brace_group(trimmed), 0);
        group_imports(text::before_first(trimmed, "{"@), items, items.len() as int)
    } else {
        let head = text::trim(text::before_first(trimmed, " as "@));
        if head.len() == 0 {
            Seq::empty()
        } else {
            seq![head]
        }
    }
}

fn head_of_item(item: &str) -> (r: String)
    ensures
        r@ == item_head(item@),
{
    let plain = text::head_before_first(item, "::{");
    let named = text::head_before_first(plain.as_str(), " as ");
    text::trimmed(named.as_str())
}

fn group_between(body: &str) -> (r: String)
    requires
        text::contains(body@, "{"@),
    ensures
        r@ == brace_group(body@),
{
    let v = text::to_chars(body);
    let open: usize = text::to_chars(text::head_before_first(body, "{").as_str()).len();
    let close: usize = match text::head_before(body, '}') {
        Some(head) => text::to_chars(head.as_str()).len(),
        None => v.len(),
    };
    proof {
        text::lemma_before_first_shorter(body@, "{"@);
        text::lemma_before_last_shorter(body@, '}');
        reveal_strlit("{");
    }
    if close <= open {
        String::new()
    } else {
        let part = vstd::slice::slice_subrange(v.as_slice(), open + 1, close);
        proof {
            assert(part@ =~= brace_group(body@));
        }
        text::to_text(part)
    }
}

/// Expands the body of a Rust `use` into the paths it imports: `a::{b, c}`
/// gives `a::b` and `a::c`. One level of braces is told apart.
pub fn expand_rust_use(body: &str) -> (r: Vec<String>)
    ensures
        text::views(r@) == use_imports(body@),
{
    let trimmed_text = text::trimmed(body);
    let trimmed = trimmed_text.as_str();
    let mut out: Vec<String> = Vec::new();
    proof {
        assert(text::views(out@) =~= Seq::empty());
    }
    if !text::has(trimmed, "{") {
        let named = text::head_before_first(trimmed, " as ");
        let head = text::trimmed(named.as_str());
        if !head.as_str().is_empty() {
            out.push(head);
            proof {
                assert(text::views(out@) =~= seq![head@]);
            }
        }
        return out;
    }
    let prefix = text::head_before_first(trimmed, "{");
    let inner = group_between(trimmed);
    let items = split_top_level_commas(inner.as_str());
    let ghost all = text::views(items@);
    let n: usize = items.len();
    let mut i: usize = 0;
    while i < n
        invariant
            n == items@.len(),
            all == text::views(items@),
            i <= n,
            text::views(out@) == group_imports(prefix@, all, i as int),
        decreases n - i,
    {
        let ghost before = text::views(out@);
        proof {
            assert(all[i as int] == items@[i as int]@);
        }
        let head = head_of_item(items[i].as_str());
        if !head.as_str().is_empty() {
            let one = if text::same(head.as_str(), "self") || text::same(head.as_str(), "*") {
                text::without_trailing(prefix.as_str(), "::")
            } else {
                text::cat(prefix.as_str(), head.as_str())
            };
            out.push(one);
            proof {
                assert(text::views(out@) =~= before.push(one@));
            }
        }
        i += 1;
    }
    out
}

/// What a line of Rust imports, given the matches of a `use` and of a `mod`.
pub open spec fn rust_line(used: Option<MatchModel>, declared: Option<MatchModel>) -> Seq<Seq<char>> {
    let uses = match used {
        Some(m) => match pattern::group(m, 1) {
            Some(body) => use_imports(body),
            None => Seq::empty(),
        },
        None => Seq::empty(),
    };
    match declared {
        Some(m) => match pattern::group(m, 1) {
            Some(name) => uses.push("mod:"@ + name),
            None => uses,
        },
        None => uses,
    }
}

pub fn rust_line_imports(used: Option<Match>, declared: Option<Match>) -> (r: Vec<String>)
    ensures
        text::views(r@) == rust_line(pattern::opt_match(used), pattern::opt_match(declared)),
{
    let mut out: Vec<String> = Vec::new();
    proof {
        assert(text::views(out@) =~= Seq::empty());
    }
    if let Some(m) = &used {
        if let Some(body) = pattern::group_text(m, 1) {
            out = expand_rust_use(body);
        }
    }
    let ghost before = text::views(out@);
    if let Some(m) = &declared {
        if let Some(name) = pattern::group_text(m, 1) {
            let hint = text::cat("mod:", name);
            out.push(hint);
            proof {
                assert(text::views(out@) =~= before.push(hint@));
            }
        }
    }
    out
}

/// What a line of Python imports, given the match of an import.
pub open spec fn python_line(m: Option<MatchModel>) -> Option<Seq<char>> {
    match m {
        Some(m) => match pattern::group(m, 1) {
            Some(name) => Some(name),
            None => pattern::group(m, 2),
        },
        None => None,
    }
}

pub fn python_line_import(m: Option<Match>) -> (r: Option<String>)
    ensures
        pattern::opt_text(r) == python_line(pattern::opt_match(m)),
{
    match &m {
        Some(m) => match pattern::group_text(m, 1) {
            Some(name) => Some(text::copy_text(name)),
            None => match pattern::group_text(m, 2) {
                Some(name) => Some(text::copy_text(name)),
                None => None,
            },
        },
        None => None,
    }
}

/// What TypeScript or JavaScript imports, given the first `n` matches of an
/// import.
pub open spec fn ts_imports(s: Seq<MatchModel>, n: int) -> Seq<Seq<char>>
    decreases n,
{
    if n <= 0 {
        Seq::empty()
    } else {
        match pattern::group(s[n - 1], 1) {
            Some(path) => ts_imports(s, n - 1).push(path),
            None => ts_imports(s, n - 1),
        }
    }
}

pub fn ts_match_imports(found: &[Match]) -> (r: Vec<String>)
    ensures
        text::views(r@) == ts_imports(pattern::match_models(found@), found@.len() as int),
{
    let ghost all = pattern::match_models(found@);
    let n: usize = found.len();
    let mut out: Vec<String> = Vec::new();
    let mut i: usize = 0;
    proof {
        assert(text::views(out@) =~= Seq::empty());
    }
    while i < n
        invariant
            n == found@.len(),
            all == pattern::match_models(found@),
            i <= n,
            text::views(out@) == ts_imports(all, i as int),
        decreases n - i,
    {
        let ghost before = text::views(out@);
        proof {
            assert(all[i as int] == found@[i as int]@);
        }
        if let Some(path) = pattern::group_text(&found[i], 1) {
            let one = text::copy_text(path);
            out.push(one);
            proof {
                assert(text::views(out@) =~= before.push(one@));
            }
        }
        i += 1;
    }
    out
}

/// What the first `n` lines of Rust import.
pub open spec fn rust_imports(lines: Seq<Seq<char>>, n: int) -> Seq<Seq<char>>
    decreases n,
{
    if n <= 0 {
        Seq::empty()
    } else {
        rust_imports(lines, n - 1) + rust_line(
            pattern::found(RUST_USE@, lines[n - 1]),
            pattern::found(RUST_MOD@, lines[n - 1]),
        )
    }
}

/// What the first `n` lines of Python import.
pub open spec fn python_imports(lines: Seq<Seq<char>>, n: int) -> Seq<Seq<char>>
    decreases n,
{
    if n <= 0 {
        Seq::empty()
    } else {
        match python_line(pattern::found(PYTHON_IMPORT@, lines[n - 1])) {
            Some(name) => python_imports(lines, n - 1).push(name),
            None => python_imports(lines, n - 1),
        }
    }
}

/// What a file imports, in the order of the imports.
pub open spec fn imports(lang: Lang, source: Seq<char>) -> Seq<Seq<char>> {
    let lines = text::lines_of(source);
    match lang {
        Lang::Rust => rust_imports(lines, lines.len() as int),
        Lang::Python => python_imports(lines, lines.len() as int),
        Lang::TypeScript => {
            let found = pattern::found_all(TS_IMPORT@, source);
            ts_imports(found, found.len() as int)
        },
    }
}

fn extract_rust(source: &str) -> (r: Vec<String>)
    ensures
        text::views(r@) == imports(Lang::Rust, source@),
{
    let uses = Searcher::new(RUST_USE);
    let mods = Searcher::new(RUST_MOD);
    let lines = text::lines(source);
    let ghost all = text::views(lines@);
    let n: usize = lines.len();
    let mut out: Vec<String> = Vec::new();
    let mut i: usize = 0;
    proof {
        assert(text::views(out@) =~= Seq::empty());
    }
    while i < n
        invariant
            n == lines@.len(),
            all == text::views(lines@),
            uses.is_for(RUST_USE@),
            mods.is_for(RUST_MOD@),
            i <= n,
            text::views(out@) == rust_imports(all, i as int),
        decreases n - i,
    {
        let ghost before = text::views(out@);
        proof {
            assert(all[i as int] == lines@[i as int]@);
        }
        let line = lines[i].as_str();
        let mut more = rust_line_imports(uses.find(line), mods.find(line));
        let ghost added = text::views(more@);
        out.append(&mut more);
        proof {
            assert(text::views(out@) =~= before + added);
        }
        i += 1;
    }
    out
}

fn extract_python(source: &str) -> (r: Vec<String>)
    ensures
        text::views(r@) == imports(Lang::Python, source@),
{
    let finder = Searcher::new(PYTHON_IMPORT);
    let lines = text::lines(source);
    let ghost all = text::views(lines@);
    let n: usize = lines.len();
    let mut out: Vec<String> = Vec::new();
    let mut i: usize = 0;
    proof {
        assert(text::views(out@) =~= Seq::empty());
    }
    while i < n
        invariant
            n == lines@.len(),
            all == text::views(lines@),
            finder.is_for(PYTHON_IMPORT@),
            i <= n,
            text::views(out@) == python_imports(all, i as int),
        decreases n - i,
    {
        let ghost before = text::views(out@);
        proof {
            assert(all[i as int] == lines@[i as int]@);
        }
        if let Some(name) = python_line_import(finder.find(lines[i].as_str())) {
            out.push(name);
            proof {
                assert(text::views(out@) =~= before.push(name@));
            }
        }
        i += 1;
    }
    out
}

/// What a file imports, in the order of the imports. A module declared in Rust
/// is marked by `mod:`.
pub fn extract_imports(lang: Lang, source: &str) -> (r: Vec<String>)
    ensures
        text::views(r@) == imports(lang, source@),
{
    match lang {
        Lang::Rust => extract_rust(source),
        Lang::Python => extract_python(source),
        Lang::TypeScript => {
            let finder = Searcher::new(TS_IMPORT);
            let found = finder.find_all(source);
            proof {
                assert(pattern::match_models(found@).len() == found@.len());
            }
            ts_match_imports(&found)
        },
    }
}

// ---------------------------------------------------------------------------
// Where an import leads
// ---------------------------------------------------------------------------

/// The paths of a repository.
pub open spec fn is_known(paths: Seq<(Seq<char>, bool)>, path: Seq<char>) -> bool {
    table::keys(paths).contains(path)
}

/// Gathers the paths of a repository.
pub fn path_set(items: &[String]) -> (r: TextMap<bool>)
    ensures
        table::ascending(r@),
        forall|p: Seq<char>| #[trigger] is_known(r@, p) <==> text::views(items@).contains(p),
{
    let ghost all = text::views(items@);
    let mut set: TextMap<bool> = TextMap::new();
    let n: usize = items.len();
    let mut i: usize = 0;
    while i < n
        invariant
            n == items@.len(),
            all == text::views(items@),
            i <= n,
            table::ascending(set@),
            forall|p: Seq<char>| #[trigger]
                is_known(set@, p) <==> all.take(i as int).contains(p),
        decreases n - i,
    {
        let ghost before = set@;
        let path = items[i].clone();
        set.insert(path, true);
        proof {
            assert(all.take(i + 1) =~= all.take(i as int).push(path@));
            assert forall|p: Seq<char>| #[trigger]
                is_known(set@, p) <==> all.take(i + 1).contains(p) by {
                table::lookup_of_put(before, path@, true, p);
                table::lemma_lookup_some(before, p);
                table::lemma_lookup_some(set@, p);
                vstd::seq_lib::lemma_seq_contains_after_push(all.take(i as int), path@, p);
                assert(is_known(before, p) <==> all.take(i as int).contains(p));
            }
        }
        i += 1;
    }
    proof {
        assert(all.take(n as int) =~= all);
    }
    set
}

/// The first candidate from `i` on that is known.
pub open spec fn first_known(
    candidates: Seq<Seq<char>>,
    paths: Seq<(Seq<char>, bool)>,
    i: int,
) -> Option<Seq<char>>
    decreases candidates.len() - i,
{
    if i >= candidates.len() {
        None
    } else if is_known(paths, candidates[i]) {
        Some(candidates[i])
    } else {
        first_known(candidates, paths, i + 1)
    }
}

/// What is found is known, and nothing is found only where no candidate is
/// known.
pub proof fn found_is_known(candidates: Seq<Seq<char>>, paths: Seq<(Seq<char>, bool)>, i: int)
    requires
        0 <= i <= candidates.len(),
    ensures
        match first_known(candidates, paths, i) {
            Some(p) => is_known(paths, p) && candidates.contains(p),
            None => forall|k: int|
                i <= k < candidates.len() ==> !is_known(paths, #[trigger] candidates[k]),
        },
    decreases candidates.len() - i,
{
    if i < candidates.len() {
        found_is_known(candidates, paths, i + 1);
        assert(candidates.contains(candidates[i]));
    }
}

fn find_known(candidates: Vec<String>, paths: &TextMap<bool>) -> (r: Option<String>)
    requires
        table::ascending(paths@),
    ensures
        pattern::opt_text(r) == first_known(text::views(candidates@), paths@, 0),
{
    let ghost all = text::views(candidates@);
    let n: usize = candidates.len();
    let mut i: usize = 0;
    while i < n
        invariant
            n == candidates@.len(),
            all == text::views(candidates@),
            table::ascending(paths@),
            i <= n,
            first_known(all, paths@, 0) == first_known(all, paths@, i as int),
        decreases n - i,
    {
        proof {
            assert(all[i as int] == candidates@[i as int]@);
            table::lemma_lookup_some(paths@, candidates@[i as int]@);
        }
        if paths.get(candidates[i].as_str()).is_some() {
            return Some(candidates[i].clone());
        }
        i += 1;
    }
    None
}

/// The directory of a path; empty at the root.
pub open spec fn dir_of(path: Seq<char>) -> Seq<char> {
    match text::before_last(path, '/') {
        Some(d) => d,
        None => Seq::empty(),
    }
}

/// The name of a file without `.rs`.
pub open spec fn stem_of(path: Seq<char>) -> Seq<char> {
    let file = text::after_last(path, '/');
    if ".rs"@.is_suffix_of(file) {
        file.take(file.len() - ".rs"@.len())
    } else {
        file
    }
}

fn directory(path: &str) -> (r: String)
    ensures
        r@ == dir_of(path@),
{
    match text::head_before(path, '/') {
        Some(d) => d,
        None => String::new(),
    }
}

/// Splits a path into its directory and the name of the file without `.rs`.
pub fn split_dir_stem(path: &str) -> (r: (String, String))
    ensures
        r.0@ == dir_of(path@),
        r.1@ == stem_of(path@),
{
    let file = text::tail_after(path, '/');
    let stem = match text::strip_suffix(file.as_str(), ".rs") {
        Some(s) => s,
        None => file,
    };
    (directory(path), stem)
}

/// `name` in the directory.
pub open spec fn joined(dir: Seq<char>, name: Seq<char>) -> Seq<char> {
    if dir.len() == 0 {
        name
    } else {
        dir + "/"@ + name
    }
}

pub fn join_dir(dir: &str, name: &str) -> (r: String)
    ensures
        r@ == joined(dir@, name@),
{
    if dir.is_empty() {
        text::copy_text(name)
    } else {
        text::cat3(dir, "/", name)
    }
}

/// Whether the file declares the modules of its own directory.
pub open spec fn is_mod_stem(stem: Seq<char>) -> bool {
    stem == "mod"@ || stem == "lib"@ || stem == "main"@
}

/// The directories in which the submodules of a file lie.
pub open spec fn own_dirs(importer: Seq<char>) -> Seq<Seq<char>> {
    let dir = dir_of(importer);
    if is_mod_stem(stem_of(importer)) {
        seq![dir]
    } else {
        seq![dir, joined(dir, stem_of(importer))]
    }
}

/// The files that a module of that name in that directory may be.
pub open spec fn module_files(dir: Seq<char>, name: Seq<char>) -> Seq<Seq<char>> {
    seq![joined(dir, name) + ".rs"@, joined(dir, name) + "/mod.rs"@]
}

/// The files that a module of that name may be, in each of the first `n`
/// directories.
pub open spec fn files_in(dirs: Seq<Seq<char>>, name: Seq<char>, n: int) -> Seq<Seq<char>>
    decreases n,
{
    if n <= 0 {
        Seq::empty()
    } else {
        files_in(dirs, name, n - 1) + module_files(dirs[n - 1], name)
    }
}

/// The files for the first `take` segments, then for fewer and fewer of them.
pub open spec fn files_for(dirs: Seq<Seq<char>>, parts: Seq<Seq<char>>, take: int) -> Seq<Seq<char>>
    decreases take,
{
    if take <= 0 {
        Seq::empty()
    } else {
        files_in(dirs, text::join(parts.take(take), "/"@), dirs.len() as int) + files_for(
            dirs,
            parts,
            take - 1,
        )
    }
}

/// The pieces that are not empty.
pub open spec fn filled(s: Seq<Seq<char>>) -> Seq<Seq<char>>
    decreases s.len(),
{
    if s.len() == 0 {
        Seq::empty()
    } else if s.last().len() > 0 {
        filled(s.drop_last()).push(s.last())
    } else {
        filled(s.drop_last())
    }
}

/// Where a path starts to be looked up, and what is left of it; nothing for a
/// path into another crate.
pub open spec fn rust_start(raw: Seq<char>, importer: Seq<char>) -> Option<
    (Seq<Seq<char>>, Seq<char>),
> {
    if "crate::"@.is_prefix_of(raw) {
        Some((seq!["src"@], raw.skip("crate::"@.len() as int)))
    } else if "self::"@.is_prefix_of(raw) {
        Some((own_dirs(importer), raw.skip("self::"@.len() as int)))
    } else if "super::"@.is_prefix_of(raw) {
        let dir = dir_of(importer);
        let parent = if is_mod_stem(stem_of(importer)) {
            dir_of(dir)
        } else {
            dir
        };
        Some((seq![parent], raw.skip("super::"@.len() as int)))
    } else {
        None
    }
}

/// The files that a Rust import may lead to, the likeliest first.
pub open spec fn rust_candidates(raw: Seq<char>, importer: Seq<char>) -> Seq<Seq<char>> {
    if "mod:"@.is_prefix_of(raw) {
        let dirs = own_dirs(importer);
        files_in(dirs, raw.skip("mod:"@.len() as int), dirs.len() as int)
    } else {
        match rust_start(raw, importer) {
            None => Seq::empty(),
            Some((dirs, rest)) => {
                let parts = filled(text::split_by(rest, "::"@));
                files_for(dirs, parts, parts.len() as int)
            },
        }
    }
}

fn add_module_files(out: &mut Vec<String>, dir: &str, name: &str)
    ensures
        text::views(final(out)@) == text::views(old(out)@) + module_files(dir@, name@),
{
    let ghost before = text::views(out@);
    let path = join_dir(dir, name);
    let a = text::cat(path.as_str(), ".rs");
    let b = text::cat(path.as_str(), "/mod.rs");
    out.push(a);
    out.push(b);
    proof {
        assert(text::views(out@) =~= before + module_files(dir@, name@));
    }
}

fn add_files_in(out: &mut Vec<String>, dirs: &[String], name: &str)
    ensures
        text::views(final(out)@) == text::views(old(out)@) + files_in(
            text::views(dirs@),
            name@,
            dirs@.len() as int,
        ),
{
    let ghost before = text::views(out@);
    let ghost all = text::views(dirs@);
    let n: usize = dirs.len();
    let mut i: usize = 0;
    proof {
        assert(before + Seq::<Seq<char>>::empty() =~= before);
    }
    while i < n
        invariant
            n == dirs@.len(),
            all == text::views(dirs@),
            i <= n,
            text::views(out@) == before + files_in(all, name@, i as int),
        decreases n - i,
    {
        let ghost so_far = text::views(out@);
        add_module_files(out, dirs[i].as_str(), name);
        proof {
            assert(all[i as int] == dirs@[i as int]@);
            assert(so_far + module_files(all[i as int], name@) =~= before + files_in(
                all,
                name@,
                i + 1,
            ));
        }
        i += 1;
    }
}

fn submodule_dirs(importer: &str) -> (r: Vec<String>)
    ensures
        text::views(r@) == own_dirs(importer@),
{
    let (dir, stem) = split_dir_stem(importer);
    let mut out: Vec<String> = Vec::new();
    if is_mod_file(stem.as_str()) {
        out.push(dir);
    } else {
        let below = join_dir(dir.as_str(), stem.as_str());
        out.push(dir);
        out.push(below);
    }
    proof {
        assert(text::views(out@) =~= own_dirs(importer@));
    }
    out
}

fn is_mod_file(stem: &str) -> (r: bool)
    ensures
        r == is_mod_stem(stem@),
{
    text::same(stem, "mod") || text::same(stem, "lib") || text::same(stem, "main")
}

fn keep_filled(parts: Vec<String>) -> (r: Vec<String>)
    ensures
        text::views(r@) == filled(text::views(parts@)),
{
    let ghost all = text::views(parts@);
    let mut out: Vec<String> = Vec::new();
    proof {
        assert(all.take(0).len() == 0);
        assert(text::views(out@) =~= Seq::empty());
    }
    for part in it: parts
        invariant
            text::views(it.seq()) == all,
            text::views(out@) == filled(all.take(it.index() as int)),
    {
        let ghost before = text::views(out@);
        let ghost i = it.index() as int;
        proof {
            assert(text::views(it.seq())[i] == part@);
            assert(all.take(i + 1).drop_last() =~= all.take(i));
            assert(all.take(i + 1).last() == part@);
        }
        if !part.as_str().is_empty() {
            out.push(part);
            proof {
                assert(text::views(out@) =~= before.push(part@));
            }
        }
    }
    proof {
        assert(all.take(all.len() as int) =~= all);
    }
    out
}

fn start_of(raw: &str, importer: &str) -> (r: Option<(Vec<String>, String)>)
    ensures
        match r {
            Some((dirs, rest)) => rust_start(raw@, importer@) == Some((text::views(dirs@), rest@)),
            None => rust_start(raw@, importer@) is None,
        },
{
    if let Some(rest) = text::strip_prefix(raw, "crate::") {
        let mut dirs: Vec<String> = Vec::new();
        dirs.push(text::copy_text("src"));
        proof {
            assert(text::views(dirs@) =~= seq!["src"@]);
        }
        return Some((dirs, rest));
    }
    if let Some(rest) = text::strip_prefix(raw, "self::") {
        return Some((submodule_dirs(importer), rest));
    }
    match text::strip_prefix(raw, "super::") {
        None => None,
        Some(rest) => {
            let (dir, stem) = split_dir_stem(importer);
            let parent = if is_mod_file(stem.as_str()) {
                directory(dir.as_str())
            } else {
                dir
            };
            let mut dirs: Vec<String> = Vec::new();
            dirs.push(parent);
            proof {
                assert(text::views(dirs@) =~= seq![parent@]);
            }
            Some((dirs, rest))
        },
    }
}

fn candidates_for(raw: &str, importer: &str) -> (r: Vec<String>)
    ensures
        text::views(r@) == rust_candidates(raw@, importer@),
{
    let mut out: Vec<String> = Vec::new();
    proof {
        assert(text::views(out@) =~= Seq::empty());
    }
    if let Some(name) = text::strip_prefix(raw, "mod:") {
        let dirs = submodule_dirs(importer);
        add_files_in(&mut out, &dirs, name.as_str());
        proof {
            let dirs = own_dirs(importer@);
            assert(text::views(out@) =~= files_in(dirs, name@, dirs.len() as int));
        }
        return out;
    }
    if let Some((dirs, rest)) = start_of(raw, importer) {
        let parts = keep_filled(text::split_text(rest.as_str(), "::"));
        let ghost all = text::views(parts@);
        let ghost ds = text::views(dirs@);
        let mut take: usize = parts.len();
        proof {
            assert(Seq::<Seq<char>>::empty() + files_for(ds, all, take as int) =~= files_for(
                ds,
                all,
                take as int,
            ));
        }
        while take > 0
            invariant
                take <= parts@.len(),
                all == text::views(parts@),
                ds == text::views(dirs@),
                text::views(out@) + files_for(ds, all, take as int) == files_for(
                    ds,
                    all,
                    parts@.len() as int,
                ),
            decreases take,
        {
            let head = vstd::slice::slice_subrange(parts.as_slice(), 0, take);
            proof {
                assert(text::views(head@) =~= all.take(take as int));
            }
            let name = text::join_texts(head, "/");
            let ghost before = text::views(out@);
            add_files_in(&mut out, &dirs, name.as_str());
            proof {
                let added = files_in(ds, name@, ds.len() as int);
                assert(before + (added + files_for(ds, all, take - 1)) =~= (before + added)
                    + files_for(ds, all, take - 1));
            }
            take -= 1;
        }
        proof {
            assert(text::views(out@) + Seq::<Seq<char>>::empty() =~= text::views(out@));
        }
    }
    out
}

/// Finds the file that a Rust path (`crate::a::b`, `self::a`, `super::a`) or a
/// module declaration (`mod:a`) leads to. The longest part of a path that names
/// a file wins. A path into another crate leads nowhere.
pub fn resolve_rust(raw: &str, importer: &str, paths: &TextMap<bool>) -> (r: Option<String>)
    requires
        table::ascending(paths@),
    ensures
        pattern::opt_text(r) == first_known(rust_candidates(raw@, importer@), paths@, 0),
{
    find_known(candidates_for(raw, importer), paths)
}

/// The files that a dotted name may lead to.
pub open spec fn python_candidates(raw: Seq<char>) -> Seq<Seq<char>> {
    let dotted = text::drop_leading(raw, '.');
    if dotted.len() == 0 {
        Seq::empty()
    } else {
        let path = text::replace(dotted, "."@, "/"@);
        seq![
            path + ".py"@,
            path + "/__init__.py"@,
            "src/"@ + path + ".py"@,
            "src/"@ + path + "/__init__.py"@,
        ]
    }
}

pub fn resolve_python(raw: &str, paths: &TextMap<bool>) -> (r: Option<String>)
    requires
        table::ascending(paths@),
    ensures
        pattern::opt_text(r) == first_known(python_candidates(raw@), paths@, 0),
{
    let dotted = text::without_leading(raw, '.');
    if dotted.as_str().is_empty() {
        return None;
    }
    let path_text = text::replaced(dotted.as_str(), ".", "/");
    let path = path_text.as_str();
    let mut list: Vec<String> = Vec::new();
    list.push(text::cat(path, ".py"));
    list.push(text::cat(path, "/__init__.py"));
    list.push(text::cat3("src/", path, ".py"));
    list.push(text::cat3("src/", path, "/__init__.py"));
    proof {
        assert(text::views(list@) =~= python_candidates(raw@));
    }
    find_known(list, paths)
}

/// The segments that are left when `.` and empty ones are dropped and each `..`
/// takes the one before it away.
pub open spec fn settled(segs: Seq<Seq<char>>) -> Seq<Seq<char>>
    decreases segs.len(),
{
    if segs.len() == 0 {
        Seq::empty()
    } else {
        let head = settled(segs.drop_last());
        let seg = segs.last();
        if seg == Seq::<char>::empty() || seg == "."@ {
            head
        } else if seg == ".."@ {
            if head.len() > 0 {
                head.drop_last()
            } else {
                head
            }
        } else {
            head.push(seg)
        }
    }
}

/// The path without `.` and `..` segments.
pub open spec fn normalized(p: Seq<char>) -> Seq<char> {
    text::join(settled(text::split_on(p, '/')), "/"@)
}

/// Collapses `.` and `..` segments of a path.
pub fn normalize_path(p: &str) -> (r: String)
    ensures
        r@ == normalized(p@),
{
    let segs = text::split(p, '/');
    let ghost all = text::views(segs@);
    let mut out: Vec<String> = Vec::new();
    proof {
        assert(all.take(0).len() == 0);
        assert(text::views(out@) =~= Seq::empty());
    }
    for seg in it: segs
        invariant
            text::views(it.seq()) == all,
            text::views(out@) == settled(all.take(it.index() as int)),
    {
        let ghost before = text::views(out@);
        let ghost i = it.index() as int;
        proof {
            assert(text::views(it.seq())[i] == seg@);
            assert(all.take(i + 1).drop_last() =~= all.take(i));
            assert(all.take(i + 1).last() == seg@);
            assert(before.len() == out@.len());
        }
        if seg.as_str().is_empty() || text::same(seg.as_str(), ".") {
            proof {
                if seg@.len() == 0 {
                    assert(seg@ =~= Seq::empty());
                }
            }
        } else if text::same(seg.as_str(), "..") {
            let _ = out.pop();
            proof {
                if before.len() > 0 {
                    assert(text::views(out@) =~= before.drop_last());
                } else {
                    assert(text::views(out@) =~= before);
                }
            }
        } else {
            out.push(seg);
            proof {
                assert(text::views(out@) =~= before.push(seg@));
            }
        }
    }
    proof {
        assert(all.take(all.len() as int) =~= all);
    }
    text::join_texts(&out, "/")
}

/// A segment that names something.
pub open spec fn is_plain(seg: Seq<char>) -> bool {
    seg.len() > 0 && seg != "."@ && seg != ".."@
}

/// Settled segments are plain ones of the given segments.
pub proof fn settled_is_plain(segs: Seq<Seq<char>>)
    ensures
        forall|i: int|
            0 <= i < settled(segs).len() ==> is_plain(#[trigger] settled(segs)[i])
                && segs.contains(settled(segs)[i]),
        settled(segs).len() <= segs.len(),
    decreases segs.len(),
{
    if segs.len() > 0 {
        let init = segs.drop_last();
        settled_is_plain(init);
        assert forall|i: int| 0 <= i < settled(segs).len() implies is_plain(
            #[trigger] settled(segs)[i],
        ) && segs.contains(settled(segs)[i]) by {
            let x = settled(segs)[i];
            if i < settled(init).len() {
                assert(x == settled(init)[i]);
                let k = choose|k: int| 0 <= k < init.len() && init[k] == x;
                assert(segs[k] == x);
            } else {
                assert(segs[segs.len() - 1] == x);
                if x.len() == 0 {
                    assert(x =~= Seq::empty());
                }
            }
        }
    }
}

proof fn lemma_settled_of_plain(segs: Seq<Seq<char>>)
    requires
        forall|i: int| 0 <= i < segs.len() ==> is_plain(#[trigger] segs[i]),
    ensures
        settled(segs) == segs,
    decreases segs.len(),
{
    if segs.len() > 0 {
        let init = segs.drop_last();
        assert forall|i: int| 0 <= i < init.len() implies is_plain(#[trigger] init[i]) by {
            assert(init[i] == segs[i]);
        }
        lemma_settled_of_plain(init);
        assert(is_plain(segs[segs.len() - 1]));
        assert(init.push(segs.last()) =~= segs);
    } else {
        assert(settled(segs) =~= segs);
    }
}

/// A path that was collapsed once stays as it is.
pub proof fn normalizing_twice_is_once(p: Seq<char>)
    ensures
        normalized(normalized(p)) == normalized(p),
{
    reveal_strlit("/");
    assert("/"@ =~= seq!['/']);
    let given = text::split_on(p, '/');
    let segs = settled(given);
    settled_is_plain(given);
    text::split_pieces_lack_separator(p, '/');
    assert forall|k: int, i: int| 0 <= k < segs.len() && 0 <= i < segs[k].len() implies
        #[trigger] segs[k][i] != '/' by {
        assert(given.contains(segs[k]));
        let j = choose|j: int| 0 <= j < given.len() && given[j] == segs[k];
        assert(given[j][i] != '/');
    }
    if segs.len() > 0 {
        text::split_undoes_join(segs, '/');
        lemma_settled_of_plain(segs);
    } else {
        let empty = Seq::<char>::empty();
        assert(normalized(p) =~= empty);
        let once = text::split_on(empty, '/');
        assert(once =~= seq![empty]);
        assert(once.drop_last().len() == 0);
        assert(settled(once.drop_last()) =~= Seq::<Seq<char>>::empty());
        assert(once.last() == empty);
        assert(settled(once) =~= Seq::<Seq<char>>::empty());
    }
}

/// The files that a relative path may lead to, seen from the importer.
pub open spec fn ts_candidates(raw: Seq<char>, importer: Seq<char>) -> Seq<Seq<char>> {
    if "."@.is_prefix_of(raw) {
        let path = normalized(joined(dir_of(importer), raw));
        seq![
            path + "."@ + "ts"@,
            path + "."@ + "tsx"@,
            path + "."@ + "js"@,
            path + "."@ + "jsx"@,
            path + "/index."@ + "ts"@,
            path + "/index."@ + "tsx"@,
            path + "/index."@ + "js"@,
            path + "/index."@ + "jsx"@,
            path,
        ]
    } else {
        Seq::empty()
    }
}

pub fn resolve_ts(raw: &str, importer: &str, paths: &TextMap<bool>) -> (r: Option<String>)
    requires
        table::ascending(paths@),
    ensures
        pattern::opt_text(r) == first_known(ts_candidates(raw@, importer@), paths@, 0),
{
    if !text::starts_with(raw, ".") {
        return None;
    }
    let dir = directory(importer);
    let combined = join_dir(dir.as_str(), raw);
    let path_text = normalize_path(combined.as_str());
    let path = path_text.as_str();
    let mut list: Vec<String> = Vec::new();
    list.push(text::cat3(path, ".", "ts"));
    list.push(text::cat3(path, ".", "tsx"));
    list.push(text::cat3(path, ".", "js"));
    list.push(text::cat3(path, ".", "jsx"));
    list.push(text::cat3(path, "/index.", "ts"));
    list.push(text::cat3(path, "/index.", "tsx"));
    list.push(text::cat3(path, "/index.", "js"));
    list.push(text::cat3(path, "/index.", "jsx"));
    list.push(text::copy_text(path));
    proof {
        assert(text::views(list@) =~= ts_candidates(raw@, importer@));
    }
    find_known(list, paths)
}

pub open spec fn candidates(lang: Lang, raw: Seq<char>, importer: Seq<char>) -> Seq<Seq<char>> {
    match lang {
        Lang::Rust => rust_candidates(raw, importer),
        Lang::Python => python_candidates(raw),
        Lang::TypeScript => ts_candidates(raw, importer),
    }
}

/// Where an import leads.
pub open spec fn resolved(
    lang: Lang,
    raw: Seq<char>,
    importer: Seq<char>,
    paths: Seq<(Seq<char>, bool)>,
) -> Option<Seq<char>> {
    first_known(candidates(lang, raw, importer), paths, 0)
}

pub fn resolve_import(lang: Lang, raw: &str, importer: &str, paths: &TextMap<bool>) -> (r: Option<
    String,
>)
    requires
        table::ascending(paths@),
    ensures
        pattern::opt_text(r) == resolved(lang, raw@, importer@, paths@),
{
    match lang {
        Lang::Rust => resolve_rust(raw, importer, paths),
        Lang::Python => resolve_python(raw, paths),
        Lang::TypeScript => resolve_ts(raw, importer, paths),
    }
}

/// An import leads to a file of the repository or nowhere.
pub proof fn imports_lead_to_known_files(
    lang: Lang,
    raw: Seq<char>,
    importer: Seq<char>,
    paths: Seq<(Seq<char>, bool)>,
)
    ensures
        resolved(lang, raw, importer, paths) matches Some(p) ==> is_known(paths, p),
{
    found_is_known(candidates(lang, raw, importer), paths, 0);
}

/// Where the first `n` imports of a file lead; those that lead nowhere or back
/// to the file are passed over.
pub open spec fn targets(
    lang: Lang,
    raws: Seq<Seq<char>>,
    importer: Seq<char>,
    paths: Seq<(Seq<char>, bool)>,
    n: int,
) -> Seq<Seq<char>>
    decreases n,
{
    if n <= 0 {
        Seq::empty()
    } else {
        let so_far = targets(lang, raws, importer, paths, n - 1);
        match resolved(lang, raws[n - 1], importer, paths) {
            Some(t) => if t == importer {
                so_far
            } else {
                so_far.push(t)
            },
            None => so_far,
        }
    }
}

pub fn find_targets(lang: Lang, raws: &[String], importer: &str, paths: &TextMap<bool>) -> (r: Vec<
    String,
>)
    requires
        table::ascending(paths@),
    ensures
        text::views(r@) == targets(
            lang,
            text::views(raws@),
            importer@,
            paths@,
            raws@.len() as int,
        ),
{
    let ghost all = text::views(raws@);
    let n: usize = raws.len();
    let mut out: Vec<String> = Vec::new();
    let mut i: usize = 0;
    proof {
        assert(text::views(out@) =~= Seq::empty());
    }
    while i < n
        invariant
            n == raws@.len(),
            all == text::views(raws@),
            table::ascending(paths@),
            i <= n,
            text::views(out@) == targets(lang, all, importer@, paths@, i as int),
        decreases n - i,
    {
        let ghost before = text::views(out@);
        proof {
            assert(all[i as int] == raws@[i as int]@);
        }
        if let Some(t) = resolve_import(lang, raws[i].as_str(), importer, paths) {
            if !text::same(t.as_str(), importer) {
                out.push(t);
                proof {
                    assert(text::views(out@) =~= before.push(t@));
                }
            }
        }
        i += 1;
    }
    out
}

/// Where the imports of a file of that content lead: nowhere, unless it is a
/// source file of a language whose imports can be read, not too large, and
/// text. `None` where the file is not looked at.
pub open spec fn links(path: Seq<char>, data: Seq<u8>, paths: Seq<(Seq<char>, bool)>) -> Option<
    Seq<Seq<char>>,
> {
    if !source_filter::is_source(path) || data.len() > MAX_BLOB_BYTES {
        None
    } else {
        match (lang_of(path), blob::text_of(data)) {
            (Some(lang), Some(source)) => {
                let raws = imports(lang, source);
                Some(targets(lang, raws, path, paths, raws.len() as int))
            },
            _ => None,
        }
    }
}

pub open spec fn opt_views(r: Option<Vec<String>>) -> Option<Seq<Seq<char>>> {
    match r {
        Some(v) => Some(text::views(v@)),
        None => None,
    }
}

pub fn find_links(path: &str, data: &[u8], paths: &TextMap<bool>) -> (r: Option<Vec<String>>)
    requires
        table::ascending(paths@),
    ensures
        opt_views(r) == links(path@, data@, paths@),
{
    if !is_source_file(path) || data.len() as u64 > MAX_BLOB_BYTES {
        return None;
    }
    match detect_lang(path) {
        None => None,
        Some(lang) => match blob::as_text(data) {
            None => None,
            Some(source) => {
                let raws = extract_imports(lang, source);
                proof {
                    assert(text::views(raws@).len() == raws@.len());
                }
                Some(find_targets(lang, &raws, path, paths))
            },
        },
    }
}

// ---------------------------------------------------------------------------
// The report
// ---------------------------------------------------------------------------

/// How often a file is imported and imports. Neither goes beyond the largest
/// number.
#[derive(Debug)]
pub struct Counts {
    pub fan_in: u64,
    pub fan_out: u64,
}

pub struct CountsModel {
    pub fan_in: int,
    pub fan_out: int,
}

impl View for Counts {
    type V = CountsModel;

    open spec fn view(&self) -> CountsModel {
        CountsModel {
            fan_in: self.fan_in as int,
            fan_out: self.fan_out as int,
        }
    }
}

pub open spec fn one_more(n: int) -> int {
    if n < u64::MAX {
        n + 1
    } else {
        n
    }
}

pub open spec fn counts_of(m: Seq<(Seq<char>, CountsModel)>, path: Seq<char>) -> CountsModel {
    match table::lookup(m, path) {
        Some(c) => c,
        None => CountsModel { fan_in: 0, fan_out: 0 },
    }
}

pub open spec fn imported(m: Seq<(Seq<char>, CountsModel)>, path: Seq<char>) -> Seq<
    (Seq<char>, CountsModel),
> {
    let c = counts_of(m, path);
    table::put(m, path, CountsModel { fan_in: one_more(c.fan_in), fan_out: c.fan_out })
}

pub open spec fn importing(m: Seq<(Seq<char>, CountsModel)>, path: Seq<char>) -> Seq<
    (Seq<char>, CountsModel),
> {
    let c = counts_of(m, path);
    table::put(m, path, CountsModel { fan_in: c.fan_in, fan_out: one_more(c.fan_out) })
}

/// The counts with the first `n` imports of the file.
pub open spec fn linked_to(
    m: Seq<(Seq<char>, CountsModel)>,
    path: Seq<char>,
    ts: Seq<Seq<char>>,
    n: int,
) -> Seq<(Seq<char>, CountsModel)>
    decreases n,
{
    if n <= 0 {
        m
    } else {
        importing(imported(linked_to(m, path, ts, n - 1), ts[n - 1]), path)
    }
}

/// The counts with all imports of the file, which appears even without any.
pub open spec fn linked(m: Seq<(Seq<char>, CountsModel)>, path: Seq<char>, ts: Seq<Seq<char>>) ->
    Seq<(Seq<char>, CountsModel)> {
    let all = linked_to(m, path, ts, ts.len() as int);
    table::put(all, path, counts_of(all, path))
}

/// A file with its counts.
pub struct FileRole {
    pub path: String,
    pub fan_in: u64,
    pub fan_out: u64,
    pub instability: u64,
}

pub struct FileRoleModel {
    pub path: Seq<char>,
    pub fan_in: int,
    pub fan_out: int,
    pub instability: int,
}

impl View for FileRole {
    type V = FileRoleModel;

    open spec fn view(&self) -> FileRoleModel {
        FileRoleModel {
            path: self.path@,
            fan_in: self.fan_in as int,
            fan_out: self.fan_out as int,
            instability: self.instability as int,
        }
    }
}

impl Row for FileRole {
    open spec fn entry(f: FileRoleModel) -> EntryModel {
        EntryModel {
            key: f.path,
            values: Map::empty().insert(
                "fan_in"@,
                ValueModel::Count(f.fan_in),
            ).insert(
                "fan_out"@,
                ValueModel::Count(f.fan_out),
            ).insert(
                "instability_pct"@,
                ValueModel::Count(f.instability),
            ).insert(
                "role"@,
                ValueModel::Message(role(f.fan_in, f.fan_out)),
            ),
        }
    }

    fn to_entry(self) -> (r: MetricEntry) {
        let mut values = Values::new();
        values.insert("fan_in", MetricValue::Count(self.fan_in));
        values.insert("fan_out", MetricValue::Count(self.fan_out));
        values.insert("instability_pct", MetricValue::Count(self.instability));
        values.insert("role", MetricValue::Message(classify(self.fan_in, self.fan_out)));
        MetricEntry { key: self.path, values }
    }
}

/// The most imported first.
impl Ranked for FileRole {
    open spec fn le(a: FileRoleModel, b: FileRoleModel) -> bool {
        a.fan_in >= b.fan_in
    }

    proof fn le_total(a: FileRoleModel, b: FileRoleModel) {
    }

    proof fn le_transitive(a: FileRoleModel, b: FileRoleModel, c: FileRoleModel) {
    }

    fn not_after(&self, other: &FileRole) -> (r: bool) {
        self.fan_in >= other.fan_in
    }
}

/// The share of imports made in all imports made and received, in percent;
/// hundred times the imports made is cut at the largest number.
pub open spec fn instability(c: CountsModel) -> int {
    let scaled = if c.fan_out * 100 > u64::MAX {
        u64::MAX as int
    } else {
        c.fan_out * 100
    };
    if c.fan_in + c.fan_out == 0 {
        0
    } else {
        scaled / (c.fan_in + c.fan_out)
    }
}

/// Instability is the share of the imports made in all imports made and
/// received, in per cent and rounded down: nothing for a file that imports
/// nothing, all for one that nothing imports.
pub proof fn instability_is_the_share_of_imports_made(c: CountsModel)
    requires
        0 <= c.fan_in,
        0 <= c.fan_out,
        c.fan_in + c.fan_out > 0,
        100 * c.fan_out <= u64::MAX,
    ensures
        instability(c) * (c.fan_in + c.fan_out) <= 100 * c.fan_out,
        100 * c.fan_out < (instability(c) + 1) * (c.fan_in + c.fan_out),
        c.fan_out == 0 ==> instability(c) == 0,
        c.fan_in == 0 ==> instability(c) == 100,
{
    let all = c.fan_in + c.fan_out;
    let p = (c.fan_out * 100) / all;
    assert(p * all <= c.fan_out * 100 && c.fan_out * 100 < (p + 1) * all) by (nonlinear_arith)
        requires
            all > 0,
            p == (c.fan_out * 100) / all,
    ;
    if c.fan_out == 0 {
        assert(p == 0) by (nonlinear_arith)
            requires
                all > 0,
                p == 0int / all,
        ;
    }
    if c.fan_in == 0 {
        assert(p == 100) by (nonlinear_arith)
            requires
                all > 0,
                all * 100 < (p + 1) * all,
                p * all <= all * 100,
        ;
    }
}

/// The more a file imports the less stable it is, and the more it is imported
/// the more stable.
pub proof fn instability_grows_with_imports_made(a: CountsModel, b: CountsModel)
    requires
        0 <= a.fan_out <= b.fan_out,
        0 <= b.fan_in <= a.fan_in,
        100 * b.fan_out <= u64::MAX,
    ensures
        instability(a) <= instability(b),
{
    if a.fan_in + a.fan_out > 0 {
        instability_is_the_share_of_imports_made(a);
        if b.fan_in + b.fan_out > 0 {
            instability_is_the_share_of_imports_made(b);
            let p = instability(a);
            let q = instability(b);
            let n = a.fan_in + a.fan_out;
            let m = b.fan_in + b.fan_out;
            assert(p <= q) by (nonlinear_arith)
                requires
                    p * n <= 100 * a.fan_out,
                    100 * b.fan_out < (q + 1) * m,
                    n == a.fan_in + a.fan_out,
                    m == b.fan_in + b.fan_out,
                    0 <= a.fan_out <= b.fan_out,
                    0 <= b.fan_in <= a.fan_in,
                    n > 0,
                    m > 0,
            ;
        }
    }
}

pub open spec fn role_rows(m: Seq<(Seq<char>, CountsModel)>) -> Seq<FileRoleModel>
    decreases m.len(),
{
    if m.len() == 0 {
        Seq::empty()
    } else {
        let (path, c) = m.last();
        if c.fan_in + c.fan_out > 0 {
            role_rows(m.drop_last()).push(
                FileRoleModel {
                    path,
                    fan_in: c.fan_in,
                    fan_out: c.fan_out,
                    instability: instability(c),
                },
            )
        } else {
            role_rows(m.drop_last())
        }
    }
}

pub open spec fn fan_columns() -> Seq<Seq<char>> {
    seq![
        "fan_in"@,
        "fan_out"@,
        "instability_pct"@,
        "role"@,
    ]
}

pub open spec fn fan_report(m: Seq<(Seq<char>, CountsModel)>) -> ResultModel {
    types::report_of(
        "fan_in_out"@,
        fan_columns(),
        report::entries_of::<FileRole>(
            report::top_ranked::<FileRole>(role_rows(m), MAX_ENTRIES as int),
        ),
    )
}

fn instability_of(fan_in: u64, fan_out: u64) -> (r: u64)
    ensures
        r == instability(CountsModel { fan_in: fan_in as int, fan_out: fan_out as int }),
{
    let all: u128 = fan_in as u128 + fan_out as u128;
    if all == 0 {
        return 0;
    }
    let wide: u128 = fan_out as u128 * 100;
    let scaled: u128 = if wide > u64::MAX as u128 {
        u64::MAX as u128
    } else {
        wide
    };
    proof {
        assert(scaled / all <= scaled) by (nonlinear_arith)
            requires
                all >= 1,
                scaled >= 0,
        ;
    }
    (scaled / all) as u64
}

fn bumped(n: u64) -> (r: u64)
    ensures
        r == one_more(n as int),
{
    if n < u64::MAX {
        n + 1
    } else {
        n
    }
}

pub struct FanInOutCollector {
    pub counts: TextMap<Counts>,
}

impl Default for FanInOutCollector {
    fn default() -> (r: Self)
        ensures
            r.counts@.len() == 0,
    {
        FanInOutCollector::new()
    }
}

impl FanInOutCollector {
    pub fn new() -> (r: Self)
        ensures
            r.counts@.len() == 0,
    {
        FanInOutCollector { counts: TextMap::new() }
    }

    pub fn name(&self) -> (r: &str)
        ensures
            r@ == "fan_in_out"@,
    {
        "fan_in_out"
    }

    fn held(&self, path: &str) -> (r: Counts)
        requires
            table::ascending(self.counts@),
        ensures
            r@ == counts_of(self.counts@, path@),
    {
        match self.counts.get(path) {
            Some(c) => Counts { fan_in: c.fan_in, fan_out: c.fan_out },
            None => Counts { fan_in: 0, fan_out: 0 },
        }
    }

    /// Counts the imports of a file, given where they lead.
    pub fn link(&mut self, path: &str, ts: &[String])
        requires
            table::ascending(old(self).counts@),
        ensures
            final(self).counts@ == linked(old(self).counts@, path@, text::views(ts@)),
            table::ascending(final(self).counts@),
    {
        let ghost m = self.counts@;
        let ghost all = text::views(ts@);
        let n: usize = ts.len();
        let mut i: usize = 0;
        while i < n
            invariant
                n == ts@.len(),
                all == text::views(ts@),
                i <= n,
                table::ascending(self.counts@),
                self.counts@ == linked_to(m, path@, all, i as int),
            decreases n - i,
        {
            proof {
                assert(all[i as int] == ts@[i as int]@);
            }
            let target = ts[i].as_str();
            let c = self.held(target);
            self.counts.insert(
                text::copy_text(target),
                Counts { fan_in: bumped(c.fan_in), fan_out: c.fan_out },
            );
            let c = self.held(path);
            self.counts.insert(
                text::copy_text(path),
                Counts { fan_in: c.fan_in, fan_out: bumped(c.fan_out) },
            );
            i += 1;
        }
        let c = self.held(path);
        self.counts.insert(text::copy_text(path), c);
    }

    /// Counts the imports of a file of the tree.
    pub fn inspect_blob(&mut self, path: &str, data: &[u8], paths: &TextMap<bool>)
        requires
            table::ascending(old(self).counts@),
            table::ascending(paths@),
        ensures
            final(self).counts@ == (match links(path@, data@, paths@) {
                Some(ts) => linked(old(self).counts@, path@, ts),
                None => old(self).counts@,
            }),
            table::ascending(final(self).counts@),
    {
        if let Some(ts) = find_links(path, data, paths) {
            self.link(path, &ts);
        }
    }

    /// Reports the counts and forgets them.
    pub fn finalize(&mut self) -> (r: MetricResult)
        ensures
            r@ == fan_report(old(self).counts@),
            final(self).counts@.len() == 0,
    {
        let mut counts: TextMap<Counts> = TextMap::new();
        std::mem::swap(&mut counts, &mut self.counts);
        let ghost m = counts@;
        let n: usize = counts.len();
        let mut list: Vec<FileRole> = Vec::new();
        let mut i: usize = 0;
        proof {
            assert(m.take(0).len() == 0);
            assert(order::models(list@) =~= Seq::empty());
        }
        while i < n
            invariant
                n == m.len(),
                m == counts@,
                i <= n,
                order::models(list@) == role_rows(m.take(i as int)),
            decreases n - i,
        {
            let ghost before = order::models(list@);
            proof {
                assert(m.take(i + 1).drop_last() =~= m.take(i as int));
                assert(m.take(i + 1).last() == m[i as int]);
            }
            let c = counts.value_at(i);
            if c.fan_in > 0 || c.fan_out > 0 {
                let row = FileRole {
                    path: counts.key_at(i).clone(),
                    fan_in: c.fan_in,
                    fan_out: c.fan_out,
                    instability: instability_of(c.fan_in, c.fan_out),
                };
                list.push(row);
                proof {
                    assert(order::models(list@) =~= before.push(row@));
                }
            }
            i += 1;
        }
        proof {
            assert(m.take(n as int) =~= m);
        }
        let entries = report::ranked_entries(list, MAX_ENTRIES);
        let columns = [
            "fan_in",
            "fan_out",
            "instability_pct",
            "role",
        ];
        proof {
            assert(types::str_views(columns@) =~= fan_columns());
        }
        MetricResult::report("fan_in_out", &columns, entries)
    }
}

pub open spec fn leads_to(q: Seq<char>) -> spec_fn(Seq<char>) -> bool {
    |t: Seq<char>| t == q
}

proof fn lemma_linked_to(
    m: Seq<(Seq<char>, CountsModel)>,
    path: Seq<char>,
    ts: Seq<Seq<char>>,
    n: int,
    q: Seq<char>,
)
    requires
        table::ascending(m),
        0 <= n <= ts.len(),
        forall|p: Seq<char>|
            (#[trigger] counts_of(m, p)).fan_in + ts.len() < u64::MAX && counts_of(m, p).fan_out
                + ts.len() < u64::MAX,
    ensures
        table::ascending(linked_to(m, path, ts, n)),
        counts_of(linked_to(m, path, ts, n), q).fan_in == counts_of(m, q).fan_in + fold::count(
            ts.take(n),
            leads_to(q),
        ),
        counts_of(linked_to(m, path, ts, n), q).fan_out == counts_of(m, q).fan_out + if q == path {
            n
        } else {
            0
        },
        fold::count(ts.take(n), leads_to(q)) <= n,
    decreases n,
{
    if n > 0 {
        let t = ts[n - 1];
        let was = linked_to(m, path, ts, n - 1);
        lemma_linked_to(m, path, ts, n - 1, q);
        lemma_linked_to(m, path, ts, n - 1, t);
        lemma_linked_to(m, path, ts, n - 1, path);
        fold::lemma_count_step(ts, leads_to(q), n - 1);
        assert(counts_of(m, t).fan_in + ts.len() < u64::MAX);
        assert(counts_of(m, path).fan_out + ts.len() < u64::MAX);
        let c = counts_of(was, t);
        let cv = CountsModel { fan_in: one_more(c.fan_in), fan_out: c.fan_out };
        let mid = imported(was, t);
        table::put_ascends(was, t, cv);
        table::lookup_of_put(was, t, cv, q);
        table::lookup_of_put(was, t, cv, path);
        let d = counts_of(mid, path);
        let dv = CountsModel { fan_in: d.fan_in, fan_out: one_more(d.fan_out) };
        table::put_ascends(mid, path, dv);
        table::lookup_of_put(mid, path, dv, q);
    } else {
        assert(ts.take(0) =~= Seq::empty());
    }
}

/// The imports of a file add to what it imports as many as there are, and to what
/// imports another file as many as lead there; nothing else changes.
pub proof fn imports_are_counted_at_both_ends(
    m: Seq<(Seq<char>, CountsModel)>,
    path: Seq<char>,
    ts: Seq<Seq<char>>,
    q: Seq<char>,
)
    requires
        table::ascending(m),
        forall|p: Seq<char>|
            (#[trigger] counts_of(m, p)).fan_in + ts.len() < u64::MAX && counts_of(m, p).fan_out
                + ts.len() < u64::MAX,
    ensures
        counts_of(linked(m, path, ts), q).fan_in == counts_of(m, q).fan_in + fold::count(
            ts,
            leads_to(q),
        ),
        q == path ==> counts_of(linked(m, path, ts), q).fan_out == counts_of(m, q).fan_out
            + ts.len(),
        q != path ==> counts_of(linked(m, path, ts), q).fan_out == counts_of(m, q).fan_out,
        table::lookup(linked(m, path, ts), path) is Some,
        table::ascending(linked(m, path, ts)),
{
    lemma_linked_to(m, path, ts, ts.len() as int, q);
    assert(ts.take(ts.len() as int) =~= ts);
    let all = linked_to(m, path, ts, ts.len() as int);
    table::lookup_of_put(all, path, counts_of(all, path), q);
    table::lookup_of_put(all, path, counts_of(all, path), path);
    table::put_ascends(all, path, counts_of(all, path));
}

/// A file leads to where one of its imports leads, and to nothing else, never to
/// itself.
pub proof fn targets_are_where_imports_lead(
    lang: Lang,
    raws: Seq<Seq<char>>,
    importer: Seq<char>,
    paths: Seq<(Seq<char>, bool)>,
    n: int,
    t: Seq<char>,
)
    requires
        0 <= n <= raws.len(),
    ensures
        targets(lang, raws, importer, paths, n).contains(t) <==> t != importer && exists|k: int|
            0 <= k < n && resolved(lang, #[trigger] raws[k], importer, paths) == Some(t),
    decreases n,
{
    if n > 0 {
        targets_are_where_imports_lead(lang, raws, importer, paths, n - 1, t);
        let was = targets(lang, raws, importer, paths, n - 1);
        let is = targets(lang, raws, importer, paths, n);
        if is.contains(t) {
            let i = choose|i: int| 0 <= i < is.len() && is[i] == t;
            if i < was.len() {
                assert(was[i] == t);
            } else {
                assert(resolved(lang, raws[n - 1], importer, paths) == Some(t));
            }
        }
        if t != importer && exists|k: int|
            0 <= k < n && resolved(lang, #[trigger] raws[k], importer, paths) == Some(t) {
            let k = choose|k: int|
                0 <= k < n && resolved(lang, #[trigger] raws[k], importer, paths) == Some(t);
            if k < n - 1 {
                let i = choose|i: int| 0 <= i < was.len() && was[i] == t;
                assert(is[i] == t);
            } else {
                assert(is[is.len() - 1] == t);
            }
        }
    }
}

/// Of the candidates the first that is known is taken.
pub proof fn the_first_known_is_taken(
    candidates: Seq<Seq<char>>,
    paths: Seq<(Seq<char>, bool)>,
    i: int,
    k: int,
)
    requires
        0 <= i <= k < candidates.len(),
        is_known(paths, candidates[k]),
        forall|j: int| i <= j < k ==> !is_known(paths, #[trigger] candidates[j]),
    ensures
        first_known(candidates, paths, i) == Some(candidates[k]),
    decreases k - i,
{
    if i < k {
        assert(!is_known(paths, candidates[i]));
        the_first_known_is_taken(candidates, paths, i + 1, k);
    }
}

/// The part that a file plays: a hub is imported by five files or more and imports
/// two at most, an orchestrator imports five or more and is imported by one at
/// most, a leaf is not imported at all and a pure dependency imports nothing.
pub proof fn roles_are_these(i: int, o: int)
    requires
        0 <= i,
        0 <= o,
    ensures
        i >= 5 && o <= 2 ==> role(i, o).code == messages::FAN_IN_OUT_ROLE_HUB@,
        o >= 5 && i <= 1 ==> role(i, o).code == messages::FAN_IN_OUT_ROLE_ORCHESTRATOR@,
        i == 0 && 0 < o < 5 ==> role(i, o).code == messages::FAN_IN_OUT_ROLE_LEAF@,
        o == 0 && 0 < i < 5 ==> role(i, o).code == messages::FAN_IN_OUT_ROLE_PURE_DEP@,
        i == 0 && o == 0 ==> role(i, o).code == messages::FAN_IN_OUT_ROLE_MIXED@,
        0 < i < 5 && 0 < o < 5 ==> role(i, o).code == messages::FAN_IN_OUT_ROLE_MIXED@,
        i >= 5 && o > 2 ==> role(i, o).code == messages::FAN_IN_OUT_ROLE_MIXED@,
        o >= 5 && i > 1 ==> role(i, o).code == messages::FAN_IN_OUT_ROLE_MIXED@,
        role(i, o).params == seq![
            ("fan_in"@, types::ParamModel::Number(i)),
            ("fan_out"@, types::ParamModel::Number(o)),
        ],
{
    reveal_with_fuel(types::params_with, 3);
    reveal_strlit("fan_in");
    reveal_strlit("fan_out");
    assert("fan_in"@.len() != "fan_out"@.len());
    assert(role(i, o).params =~= seq![
        ("fan_in"@, types::ParamModel::Number(i)),
        ("fan_out"@, types::ParamModel::Number(o)),
    ]);
}

proof fn lemma_role_rows(m: Seq<(Seq<char>, CountsModel)>, x: FileRoleModel)
    ensures
        role_rows(m).contains(x) <==> exists|k: int|
            0 <= k < m.len() && (#[trigger] m[k]).1.fan_in + (#[trigger] m[k]).1.fan_out > 0 && x == (FileRoleModel { path: m[k].0, fan_in: m[k].1.fan_in, fan_out: m[k].1.fan_out, instability: instability(m[k].1) }),
        role_rows(m).len() <= m.len(),
    decreases m.len(),
{
    if m.len() > 0 {
        let front = m.drop_last();
        let last = m.last();
        let was = role_rows(front);
        let is = role_rows(m);
        lemma_role_rows(front, x);
        assert(m[m.len() - 1] == last);
        assert(forall|k: int| 0 <= k < front.len() ==> front[k] == m[k]);
        if is.contains(x) {
            let i = choose|i: int| 0 <= i < is.len() && is[i] == x;
            if i < was.len() {
                assert(was[i] == x);
                let k = choose|k: int|
                    0 <= k < front.len() && (#[trigger] front[k]).1.fan_in + (#[trigger] front[k]).1.fan_out > 0 && x == (FileRoleModel { path: front[k].0, fan_in: front[k].1.fan_in, fan_out: front[k].1.fan_out, instability: instability(front[k].1) });
                assert(m[k] == front[k]);
            }
        }
        if exists|k: int| 0 <= k < m.len() && (#[trigger] m[k]).1.fan_in + (#[trigger] m[k]).1.fan_out > 0 && x == (FileRoleModel { path: m[k].0, fan_in: m[k].1.fan_in, fan_out: m[k].1.fan_out, instability: instability(m[k].1) }) {
            let k = choose|k: int|
                0 <= k < m.len() && (#[trigger] m[k]).1.fan_in + (#[trigger] m[k]).1.fan_out > 0 && x == (FileRoleModel { path: m[k].0, fan_in: m[k].1.fan_in, fan_out: m[k].1.fan_out, instability: instability(m[k].1) });
            if k < front.len() {
                assert(front[k] == m[k]);
                let i = choose|i: int| 0 <= i < was.len() && was[i] == x;
                assert(is[i] == x);
            } else {
                assert(is[is.len() - 1] == x);
            }
        }
    }
}

/// Every file that imports or is imported is shown with its part, unless there are
/// more than the report holds.
pub proof fn every_linked_file_is_shown(m: Seq<(Seq<char>, CountsModel)>, k: int)
    requires
        0 <= k < m.len(),
        m[k].1.fan_in + m[k].1.fan_out > 0,
        m.len() <= 150,
    ensures
        exists|i: int|
            0 <= i < fan_report(m).entries.len() && ({
                let e = #[trigger] fan_report(m).entries[i];
                let r = m[k];
                &&& e.key == r.0
                &&& e.values["fan_in"@] == ValueModel::Count(r.1.fan_in)
                &&& e.values["fan_out"@] == ValueModel::Count(r.1.fan_out)
                &&& e.values["instability_pct"@] == ValueModel::Count(instability(r.1))
                &&& e.values["role"@] == ValueModel::Message(role(r.1.fan_in, r.1.fan_out))
            }),
{
    let s = role_rows(m);
    let x = (FileRoleModel { path: m[k].0, fan_in: m[k].1.fan_in, fan_out: m[k].1.fan_out, instability: instability(m[k].1) });
    let ranked = report::top_ranked::<FileRole>(role_rows(m), 150);
    lemma_role_rows(m, x);
    report::top_ranked_members::<FileRole>(role_rows(m), 150);
    report::top_ranked_len::<FileRole>(role_rows(m), 150);
    assert(s.contains(x));
    assert(ranked.contains(x));
    let i = choose|i: int| 0 <= i < ranked.len() && ranked[i] == x;
    assert(fan_report(m).entries[i] == FileRole::entry(x));
    reveal_strlit("fan_in");
    reveal_strlit("fan_out");
    reveal_strlit("instability_pct");
    reveal_strlit("role");
    assert("fan_in"@.len() != "fan_out"@.len());
    assert("fan_in"@.len() != "instability_pct"@.len());
    assert("fan_in"@.len() != "role"@.len());
    assert("fan_out"@.len() != "instability_pct"@.len());
    assert("fan_out"@.len() != "role"@.len());
    assert("instability_pct"@.len() != "role"@.len());
}

/// Whatever is shown imports or is imported, and there are at most a hundred and
/// fifty files.
pub proof fn only_linked_files_are_shown(m: Seq<(Seq<char>, CountsModel)>, i: int)
    requires
        0 <= i < fan_report(m).entries.len(),
    ensures
        fan_report(m).entries.len() <= 150,
        exists|k: int|
            0 <= k < m.len() && ({
                let e = fan_report(m).entries[i];
                let r = #[trigger] m[k];
                &&& r.1.fan_in + r.1.fan_out > 0
                &&& e.key == r.0
                &&& e.values["fan_in"@] == ValueModel::Count(r.1.fan_in)
                &&& e.values["fan_out"@] == ValueModel::Count(r.1.fan_out)
                &&& e.values["instability_pct"@] == ValueModel::Count(instability(r.1))
                &&& e.values["role"@] == ValueModel::Message(role(r.1.fan_in, r.1.fan_out))
            }),
{
    let s = role_rows(m);
    let ranked = report::top_ranked::<FileRole>(role_rows(m), 150);
    let x = ranked[i];
    report::top_ranked_members::<FileRole>(role_rows(m), 150);
    report::top_ranked_len::<FileRole>(role_rows(m), 150);
    assert(ranked.contains(x));
    assert(s.contains(x));
    lemma_role_rows(m, x);
    assert(fan_report(m).entries[i] == FileRole::entry(x));
    let k = choose|k: int| 0 <= k < m.len() && (#[trigger] m[k]).1.fan_in + (#[trigger] m[k]).1.fan_out > 0 && x == (FileRoleModel { path: m[k].0, fan_in: m[k].1.fan_in, fan_out: m[k].1.fan_out, instability: instability(m[k].1) });
    assert(m[k] == m[k]);
    reveal_strlit("fan_in");
    reveal_strlit("fan_out");
    reveal_strlit("instability_pct");
    reveal_strlit("role");
    assert("fan_in"@.len() != "fan_out"@.len());
    assert("fan_in"@.len() != "instability_pct"@.len());
    assert("fan_in"@.len() != "role"@.len());
    assert("fan_out"@.len() != "instability_pct"@.len());
    assert("fan_out"@.len() != "role"@.len());
    assert("instability_pct"@.len() != "role"@.len());
}

/// The files that are imported most stand first.
pub proof fn most_imported_first(m: Seq<(Seq<char>, CountsModel)>, i: int, j: int)
    requires
        0 <= i < j < fan_report(m).entries.len(),
    ensures
        ({
            let a = fan_report(m).entries[i].values;
            let b = fan_report(m).entries[j].values;
            a["fan_in"@]->Count_0 >= b["fan_in"@]->Count_0
        }),
{
    let ranked = report::top_ranked::<FileRole>(role_rows(m), 150);
    report::top_ranked_leads::<FileRole>(role_rows(m), 150);
    assert(fan_report(m).entries[i] == FileRole::entry(ranked[i]));
    assert(fan_report(m).entries[j] == FileRole::entry(ranked[j]));
    assert(FileRole::le(ranked[i], ranked[j]));
    reveal_strlit("fan_in");
    reveal_strlit("fan_out");
    reveal_strlit("instability_pct");
    reveal_strlit("role");
    assert("fan_in"@.len() != "fan_out"@.len());
    assert("fan_in"@.len() != "instability_pct"@.len());
    assert("fan_in"@.len() != "role"@.len());
    assert("fan_out"@.len() != "instability_pct"@.len());
    assert("fan_out"@.len() != "role"@.len());
    assert("instability_pct"@.len() != "role"@.len());
}

/// The imports of three languages are read, told by what the path ends in.
pub proof fn three_languages_are_read(path: Seq<char>)
    ensures
        ({
            let ext = text::after_last(path, '.');
            &&& lang_of(path) == Some(Lang::Rust) <==> ext == "rs"@
            &&& lang_of(path) == Some(Lang::Python) <==> ext == "py"@ || ext == "pyi"@
            &&& lang_of(path) == Some(Lang::TypeScript) <==> ext == "ts"@ || ext == "tsx"@ || ext
                == "js"@ || ext == "jsx"@
            &&& lang_of(path) is None <==> ext != "rs"@ && ext != "py"@ && ext != "pyi"@ && ext
                != "ts"@ && ext != "tsx"@ && ext != "js"@ && ext != "jsx"@
        }),
{
    reveal_strlit("rs");
    reveal_strlit("py");
    reveal_strlit("pyi");
    reveal_strlit("ts");
    reveal_strlit("tsx");
    reveal_strlit("js");
    reveal_strlit("jsx");
    assert("rs"@[0] != "py"@[0]);
    assert("rs"@.len() != "pyi"@.len());
    assert("rs"@[0] != "ts"@[0]);
    assert("rs"@.len() != "tsx"@.len());
    assert("rs"@[0] != "js"@[0]);
    assert("rs"@.len() != "jsx"@.len());
    assert("py"@.len() != "pyi"@.len());
    assert("py"@[0] != "ts"@[0]);
    assert("py"@.len() != "tsx"@.len());
    assert("py"@[0] != "js"@[0]);
    assert("py"@.len() != "jsx"@.len());
    assert("pyi"@.len() != "ts"@.len());
    assert("pyi"@[0] != "tsx"@[0]);
    assert("pyi"@.len() != "js"@.len());
    assert("pyi"@[0] != "jsx"@[0]);
    assert("ts"@.len() != "tsx"@.len());
    assert("ts"@[0] != "js"@[0]);
    assert("ts"@.len() != "jsx"@.len());
    assert("tsx"@.len() != "js"@.len());
    assert("tsx"@[0] != "jsx"@[0]);
    assert("js"@.len() != "jsx"@.len());
}

/// Only source files of up to two hundred kibibytes of text in one of these
/// languages are looked at.
pub proof fn only_readable_sources_are_linked(
    path: Seq<char>,
    data: Seq<u8>,
    paths: Seq<(Seq<char>, bool)>,
)
    ensures
        links(path, data, paths) is Some <==> source_filter::is_source(path) && data.len()
            <= 204_800 && lang_of(path) is Some && blob::text_of(data) is Some,
        links(path, data, paths) matches Some(ts) ==> {
            let raws = imports(lang_of(path)->0, blob::text_of(data)->0);
            forall|t: Seq<char>| #[trigger]
                ts.contains(t) <==> t != path && exists|k: int|
                    0 <= k < raws.len() && resolved(
                        lang_of(path)->0,
                        #[trigger] raws[k],
                        path,
                        paths,
                    ) == Some(t)
        },
{
    if links(path, data, paths) is Some {
        let raws = imports(lang_of(path)->0, blob::text_of(data)->0);
        assert forall|t: Seq<char>| #[trigger]
            links(path, data, paths)->0.contains(t) <==> t != path && exists|k: int|
                0 <= k < raws.len() && resolved(
                    lang_of(path)->0,
                    #[trigger] raws[k],
                    path,
                    paths,
                ) == Some(t) by {
            targets_are_where_imports_lead(
                lang_of(path)->0,
                raws,
                path,
                paths,
                raws.len() as int,
                t,
            );
        }
    }
}

/// A segment more leads down, `..` leads back up, and `.` or nothing stays.
pub proof fn segments_lead_down_and_up(segs: Seq<Seq<char>>, seg: Seq<char>)
    ensures
        is_plain(seg) ==> settled(segs.push(seg)) == settled(segs).push(seg),
        seg == "."@ || seg.len() == 0 ==> settled(segs.push(seg)) == settled(segs),
        seg == ".."@ && settled(segs).len() > 0 ==> settled(segs.push(seg)) == settled(
            segs,
        ).drop_last(),
        seg == ".."@ && settled(segs).len() == 0 ==> settled(segs.push(seg)).len() == 0,
{
    assert(segs.push(seg).drop_last() =~= segs);
    reveal_strlit(".");
    reveal_strlit("..");
    assert("."@.len() != ".."@.len());
    if seg.len() == 0 {
        assert(seg =~= Seq::<char>::empty());
    }
}

/// A module may be a file of its name or a file in a directory of its name.
pub proof fn modules_are_files_or_directories(dir: Seq<char>, name: Seq<char>)
    ensures
        module_files(dir, name).len() == 2,
        dir.len() == 0 ==> module_files(dir, name)[0] == name + ".rs"@ && module_files(dir, name)[1]
            == name + "/mod.rs"@,
        dir.len() > 0 ==> module_files(dir, name)[0] == dir + "/"@ + name + ".rs"@ && module_files(
            dir,
            name,
        )[1] == dir + "/"@ + name + "/mod.rs"@,
{
}

/// A path from the crate's root is looked up in `src`, one from the module itself
/// where its submodules lie, one from the module above in the directory above;
/// any other path leads out of the crate.
pub proof fn paths_start_where_they_say(rest: Seq<char>, importer: Seq<char>)
    ensures
        rust_start("crate::"@ + rest, importer) == Some((seq!["src"@], rest)),
        rust_start("self::"@ + rest, importer) == Some((own_dirs(importer), rest)),
        is_mod_stem(stem_of(importer)) ==> rust_start("super::"@ + rest, importer) == Some(
            (seq![dir_of(dir_of(importer))], rest),
        ),
        !is_mod_stem(stem_of(importer)) ==> rust_start("super::"@ + rest, importer) == Some(
            (seq![dir_of(importer)], rest),
        ),
        !"crate::"@.is_prefix_of(rest) && !"self::"@.is_prefix_of(rest) && !"super::"@.is_prefix_of(
            rest,
        ) ==> rust_start(rest, importer) is None,
        is_mod_stem(stem_of(importer)) ==> own_dirs(importer) == seq![dir_of(importer)],
        !is_mod_stem(stem_of(importer)) ==> own_dirs(importer) == seq![
            dir_of(importer),
            joined(dir_of(importer), stem_of(importer)),
        ],
{
    reveal_strlit("crate::");
    reveal_strlit("self::");
    reveal_strlit("super::");
    let a = "crate::"@ + rest;
    let b = "self::"@ + rest;
    let c = "super::"@ + rest;
    assert("crate::"@ =~= a.take("crate::"@.len() as int));
    assert("self::"@ =~= b.take("self::"@.len() as int));
    assert("super::"@ =~= c.take("super::"@.len() as int));
    assert(a.skip("crate::"@.len() as int) =~= rest);
    assert(b.skip("self::"@.len() as int) =~= rest);
    assert(c.skip("super::"@.len() as int) =~= rest);
    assert(b[0] == 's' && c[0] == 's' && b[1] == 'e' && c[1] == 'u');
    if "crate::"@.is_prefix_of(b) {
        assert("crate::"@[0] == b[0]);
    }
    if "crate::"@.is_prefix_of(c) {
        assert("crate::"@[0] == c[0]);
    }
    if "self::"@.is_prefix_of(c) {
        assert("self::"@[1] == c[1]);
    }
}

/// A dotted name is looked up as a module and as a package, at the root and then
/// in `src`.
pub proof fn dotted_names_are_modules_or_packages(raw: Seq<char>)
    ensures
        ({
            let dotted = text::drop_leading(raw, '.');
            let path = text::replace(dotted, "."@, "/"@);
            let c = python_candidates(raw);
            &&& dotted.len() == 0 ==> c.len() == 0
            &&& dotted.len() > 0 ==> c.len() == 4 && c[0] == path + ".py"@ && c[1] == path
                + "/__init__.py"@ && c[2] == "src/"@ + path + ".py"@ && c[3] == "src/"@ + path
                + "/__init__.py"@
        }),
{
}

/// Only a relative path leads to files: with one of four endings, as the index of
/// a directory, or as it is.
pub proof fn relative_paths_lead_to_files(raw: Seq<char>, importer: Seq<char>)
    ensures
        !"."@.is_prefix_of(raw) ==> ts_candidates(raw, importer).len() == 0,
        "."@.is_prefix_of(raw) ==> {
            let c = ts_candidates(raw, importer);
            let path = normalized(joined(dir_of(importer), raw));
            &&& c.len() == 9
            &&& c[0] == path + ".ts"@
            &&& c[1] == path + ".tsx"@
            &&& c[2] == path + ".js"@
            &&& c[3] == path + ".jsx"@
            &&& c[4] == path + "/index.ts"@
            &&& c[5] == path + "/index.tsx"@
            &&& c[6] == path + "/index.js"@
            &&& c[7] == path + "/index.jsx"@
            &&& c[8] == path
        },
{
    reveal_strlit(".");
    reveal_strlit("ts");
    reveal_strlit("tsx");
    reveal_strlit("js");
    reveal_strlit("jsx");
    reveal_strlit("/index.");
    reveal_strlit(".ts");
    reveal_strlit(".tsx");
    reveal_strlit(".js");
    reveal_strlit(".jsx");
    reveal_strlit("/index.ts");
    reveal_strlit("/index.tsx");
    reveal_strlit("/index.js");
    reveal_strlit("/index.jsx");
    assert("."@ + "ts"@ =~= ".ts"@);
    assert("/index."@ + "ts"@ =~= "/index.ts"@);
    assert("."@ + "tsx"@ =~= ".tsx"@);
    assert("/index."@ + "tsx"@ =~= "/index.tsx"@);
    assert("."@ + "js"@ =~= ".js"@);
    assert("/index."@ + "js"@ =~= "/index.js"@);
    assert("."@ + "jsx"@ =~= ".jsx"@);
    assert("/index."@ + "jsx"@ =~= "/index.jsx"@);
    let path = normalized(joined(dir_of(importer), raw));
    assert(path + "."@ + "ts"@ =~= path + ("."@ + "ts"@));
    assert(path + "/index."@ + "ts"@ =~= path + ("/index."@ + "ts"@));
    assert(path + "."@ + "tsx"@ =~= path + ("."@ + "tsx"@));
    assert(path + "/index."@ + "tsx"@ =~= path + ("/index."@ + "tsx"@));
    assert(path + "."@ + "js"@ =~= path + ("."@ + "js"@));
    assert(path + "/index."@ + "js"@ =~= path + ("/index."@ + "js"@));
    assert(path + "."@ + "jsx"@ =~= path + ("."@ + "jsx"@));
    assert(path + "/index."@ + "jsx"@ =~= path + ("/index."@ + "jsx"@));
}

/// An item imports the path before it and its own name; `self` and `*` import
/// what the path names.
pub proof fn items_import_their_names(prefix: Seq<char>, item: Seq<char>)
    requires
        text::before_first(item, "::{"@) == item,
        text::before_first(item, " as "@) == item,
    ensures
        ({
            let name = text::trim(item);
            &&& name.len() == 0 ==> item_import(prefix, item) is None
            &&& name == "self"@ || name == "*"@ ==> item_import(prefix, item) == Some(
                text::drop_trailing(prefix, "::"@),
            )
            &&& name.len() > 0 && name != "self"@ && name != "*"@ ==> item_import(prefix, item)
                == Some(prefix + name)
        }),
{
    reveal_strlit("self");
    reveal_strlit("*");
}

/// Every item of a group imports what it names, and nothing else is imported.
pub proof fn every_item_is_imported(
    prefix: Seq<char>,
    items: Seq<Seq<char>>,
    n: int,
    x: Seq<char>,
)
    requires
        0 <= n <= items.len(),
    ensures
        group_imports(prefix, items, n).contains(x) <==> exists|k: int|
            0 <= k < n && item_import(prefix, #[trigger] items[k]) == Some(x),
    decreases n,
{
    if n > 0 {
        every_item_is_imported(prefix, items, n - 1, x);
        let was = group_imports(prefix, items, n - 1);
        let is = group_imports(prefix, items, n);
        if is.contains(x) {
            let i = choose|i: int| 0 <= i < is.len() && is[i] == x;
            if i < was.len() {
                assert(was[i] == x);
            } else {
                assert(item_import(prefix, items[n - 1]) == Some(x));
            }
        }
        if exists|k: int| 0 <= k < n && item_import(prefix, #[trigger] items[k]) == Some(x) {
            let k = choose|k: int|
                0 <= k < n && item_import(prefix, #[trigger] items[k]) == Some(x);
            if k < n - 1 {
                let i = choose|i: int| 0 <= i < was.len() && was[i] == x;
                assert(is[i] == x);
            } else {
                assert(is[is.len() - 1] == x);
            }
        }
    }
}

/// A statement without a group imports its path, without what it is called.
pub proof fn a_plain_use_imports_its_path(body: Seq<char>)
    requires
        !text::contains(text::trim(body), "{"@),
    ensures
        ({
            let path = text::trim(text::before_first(text::trim(body), " as "@));
            &&& path.len() > 0 ==> use_imports(body) == seq![path]
            &&& path.len() == 0 ==> use_imports(body).len() == 0
        }),
{
}

/// A line imports what its `use` names and the module that it declares.
pub proof fn a_line_imports_uses_and_modules(u: MatchModel, d: MatchModel)
    ensures
        rust_line(None, None).len() == 0,
        pattern::group(u, 1) matches Some(body) ==> rust_line(Some(u), None) == use_imports(body),
        pattern::group(d, 1) matches Some(name) ==> rust_line(None, Some(d)) == seq![
            "mod:"@ + name,
        ],
        pattern::group(u, 1) matches Some(name) ==> python_line(Some(u)) == Some(name),
        pattern::group(u, 1) is None ==> python_line(Some(u)) == pattern::group(u, 2),
        python_line(None) is None,
{
    match pattern::group(d, 1) {
        Some(name) => {
            assert(Seq::<Seq<char>>::empty().push("mod:"@ + name) =~= seq!["mod:"@ + name]);
        },
        None => {},
    }
}

/// A comma splits a group only outside of braces.
pub proof fn only_outer_commas_split(s: Seq<char>, depth: int)
    requires
        s.len() > 0,
    ensures
        s[0] == ',' && depth <= 0 ==> top_level_pieces(s, depth).len() == top_level_pieces(
            s.skip(1),
            depth,
        ).len() + 1 && top_level_pieces(s, depth)[0].len() == 0,
        s[0] == ',' && depth > 0 ==> top_level_pieces(s, depth) == text::glued(
            seq![','],
            top_level_pieces(s.skip(1), depth),
        ),
        s[0] == '{' ==> top_level_pieces(s, depth) == text::glued(
            seq!['{'],
            top_level_pieces(s.skip(1), depth + 1),
        ),
        s[0] == '}' ==> top_level_pieces(s, depth) == text::glued(
            seq!['}'],
            top_level_pieces(s.skip(1), depth - 1),
        ),
{
}

/// The report has these columns, in this order.
pub proof fn the_columns_are_these(m: Seq<(Seq<char>, CountsModel)>)
    ensures
        fan_report(m).name == "fan_in_out"@,
        fan_report(m).columns.len() == 4,
        fan_report(m).columns[0].value == "fan_in"@,
        fan_report(m).columns[1].value == "fan_out"@,
        fan_report(m).columns[2].value == "instability_pct"@,
        fan_report(m).columns[3].value == "role"@,
{
}

/// The limits that hold here.
pub proof fn the_limits_are_these()
    ensures
        MAX_BLOB_BYTES == 204_800,
        MAX_ENTRIES == 150,
{
}

proof fn lemma_filled(s: Seq<Seq<char>>, x: Seq<char>)
    ensures
        filled(s).contains(x) <==> exists|k: int|
            0 <= k < s.len() && (#[trigger] s[k]).len() > 0 && x == s[k],
        filled(s).len() <= s.len(),
    decreases s.len(),
{
    if s.len() > 0 {
        let front = s.drop_last();
        let last = s.last();
        let was = filled(front);
        let is = filled(s);
        lemma_filled(front, x);
        assert(s[s.len() - 1] == last);
        assert(forall|k: int| 0 <= k < front.len() ==> front[k] == s[k]);
        if is.contains(x) {
            let i = choose|i: int| 0 <= i < is.len() && is[i] == x;
            if i < was.len() {
                assert(was[i] == x);
                let k = choose|k: int|
                    0 <= k < front.len() && (#[trigger] front[k]).len() > 0 && x == front[k];
                assert(s[k] == front[k]);
            }
        }
        if exists|k: int| 0 <= k < s.len() && (#[trigger] s[k]).len() > 0 && x == s[k] {
            let k = choose|k: int|
                0 <= k < s.len() && (#[trigger] s[k]).len() > 0 && x == s[k];
            if k < front.len() {
                assert(front[k] == s[k]);
                let i = choose|i: int| 0 <= i < was.len() && was[i] == x;
                assert(is[i] == x);
            } else {
                assert(is[is.len() - 1] == x);
            }
        }
    }
}

/// A declared module is looked for where the submodules of the file lie: in its
/// directory, and, unless it declares those of its directory, in the one of its
/// own name.
pub proof fn declared_modules_are_looked_for(name: Seq<char>, importer: Seq<char>)
    ensures
        ({
            let dir = dir_of(importer);
            let stem = stem_of(importer);
            let c = rust_candidates("mod:"@ + name, importer);
            &&& stem == "mod"@ || stem == "lib"@ || stem == "main"@ ==> c == module_files(dir, name)
            &&& stem != "mod"@ && stem != "lib"@ && stem != "main"@ ==> c == module_files(dir, name)
                + module_files(joined(dir, stem), name)
        }),
{
    let raw = "mod:"@ + name;
    let dir = dir_of(importer);
    let stem = stem_of(importer);
    assert("mod:"@ =~= raw.take("mod:"@.len() as int));
    assert(raw.skip("mod:"@.len() as int) =~= name);
    reveal_with_fuel(files_in, 3);
    let dirs = own_dirs(importer);
    if is_mod_stem(stem) {
        assert(dirs.len() == 1);
        assert(files_in(dirs, name, 1) =~= module_files(dir, name));
    } else {
        assert(dirs.len() == 2);
        assert(files_in(dirs, name, 2) =~= module_files(dir, name) + module_files(
            joined(dir, stem),
            name,
        ));
    }
}

/// A path is looked up by its filled segments, all of them first, then by fewer
/// and fewer.
pub proof fn longer_paths_are_looked_up_first(
    dir: Seq<char>,
    parts: Seq<Seq<char>>,
    take: int,
)
    requires
        0 < take <= parts.len(),
    ensures
        files_for(seq![dir], parts, take) == module_files(
            dir,
            text::join(parts.take(take), "/"@),
        ) + files_for(seq![dir], parts, take - 1),
        files_for(seq![dir], parts, 0).len() == 0,
{
    reveal_with_fuel(files_in, 2);
    let name = text::join(parts.take(take), "/"@);
    assert(files_in(seq![dir], name, 1) =~= module_files(dir, name));
}

/// A path that starts in the crate is looked up there by all its filled segments.
pub proof fn paths_are_looked_up_by_segments(raw: Seq<char>, importer: Seq<char>)
    requires
        !"mod:"@.is_prefix_of(raw),
    ensures
        match rust_start(raw, importer) {
            Some((dirs, rest)) => {
                let parts = filled(text::split_by(rest, "::"@));
                rust_candidates(raw, importer) == files_for(dirs, parts, parts.len() as int)
            },
            None => rust_candidates(raw, importer).len() == 0,
        },
{
}

/// Only segments with something in them are kept.
pub proof fn only_filled_segments_are_kept(s: Seq<Seq<char>>, x: Seq<char>)
    ensures
        filled(s).contains(x) <==> s.contains(x) && x.len() > 0,
{
    lemma_filled(s, x);
    if s.contains(x) && x.len() > 0 {
        let k = choose|k: int| 0 <= k < s.len() && s[k] == x;
        assert(s[k].len() > 0);
    }
}

/// One more line adds what it imports behind what the others import.
pub proof fn lines_are_read_one_by_one(lines: Seq<Seq<char>>, found: Seq<MatchModel>, n: int)
    requires
        0 <= n,
    ensures
        n < lines.len() ==> rust_imports(lines, n + 1) == rust_imports(lines, n) + rust_line(
            pattern::found(RUST_USE@, lines[n]),
            pattern::found(RUST_MOD@, lines[n]),
        ),
        n < lines.len() ==> (match python_line(pattern::found(PYTHON_IMPORT@, lines[n])) {
            Some(name) => python_imports(lines, n + 1) == python_imports(lines, n).push(name),
            None => python_imports(lines, n + 1) == python_imports(lines, n),
        }),
        n < found.len() ==> (match pattern::group(found[n], 1) {
            Some(path) => ts_imports(found, n + 1) == ts_imports(found, n).push(path),
            None => ts_imports(found, n + 1) == ts_imports(found, n),
        }),
        rust_imports(lines, 0).len() == 0,
        python_imports(lines, 0).len() == 0,
        ts_imports(found, 0).len() == 0,
{
}

/// All lines of a file are read, in TypeScript all matches.
pub proof fn whole_files_are_read(source: Seq<char>)
    ensures
        imports(Lang::Rust, source) == rust_imports(
            text::lines_of(source),
            text::lines_of(source).len() as int,
        ),
        imports(Lang::Python, source) == python_imports(
            text::lines_of(source),
            text::lines_of(source).len() as int,
        ),
        imports(Lang::TypeScript, source) == ts_imports(
            pattern::found_all(TS_IMPORT@, source),
            pattern::found_all(TS_IMPORT@, source).len() as int,
        ),
{
}

/// The group of a statement stands between its first opening brace and its last
/// closing one.
pub proof fn groups_stand_in_braces(a: Seq<char>, g: Seq<char>, b: Seq<char>)
    requires
        !a.contains('{'),
        !b.contains('}'),
    ensures
        brace_group(a + seq!['{'] + g + seq!['}'] + b) == g,
{
    let body = a + seq!['{'] + g + seq!['}'] + b;
    reveal_strlit("{");
    assert("{"@ =~= seq!['{']);
    assert(text::occurs_at(body, seq!['{'], a.len() as int)) by {
        assert(body.subrange(a.len() as int, a.len() as int + 1) =~= seq!['{']);
    }
    assert forall|j: int| 0 <= j < a.len() implies !text::occurs_at(body, seq!['{'], j) by {
        if text::occurs_at(body, seq!['{'], j) {
            assert(body.subrange(j, j + 1)[0] == body[j]);
            assert(a[j] == '{');
        }
    }
    text::lemma_before_first(body, seq!['{'], a.len() as int);
    let head = a + seq!['{'] + g;
    assert(body =~= head.push('}') + b);
    lemma_last_brace(head, b);
    assert(body.subrange(a.len() as int + 1, head.len() as int) =~= g);
}

proof fn lemma_last_brace(head: Seq<char>, b: Seq<char>)
    requires
        !b.contains('}'),
    ensures
        text::before_last(head.push('}') + b, '}') == Some(head),
    decreases b.len(),
{
    let s = head.push('}') + b;
    if b.len() == 0 {
        assert(s =~= head.push('}'));
        assert(s.drop_last() =~= head);
    } else {
        let c = b.drop_last();
        if c.contains('}') {
            let i = choose|i: int| 0 <= i < c.len() && c[i] == '}';
            assert(b[i] == '}');
        }
        lemma_last_brace(head, c);
        assert(s.drop_last() =~= head.push('}') + c);
        assert(s.last() == b.last());
        assert(b.contains(b.last())) by {
            assert(b[b.len() - 1] == b.last());
        }
    }
}

/// A file lies in the directory that it was put into, and its stem is its name
/// without `.rs`.
pub proof fn files_lie_where_they_were_put(dir: Seq<char>, name: Seq<char>)
    requires
        !name.contains('/'),
    ensures
        dir_of(joined(dir, name)) == dir,
        dir_of(joined(dir, name + ".rs"@)) == dir,
        stem_of(joined(dir, name + ".rs"@)) == name,
        !".rs"@.is_suffix_of(name) ==> stem_of(joined(dir, name)) == name,
        joined(Seq::empty(), name) == name,
        dir.len() > 0 ==> joined(dir, name) == dir.push('/') + name,
{
    reveal_strlit("/");
    reveal_strlit(".rs");
    let file = name + ".rs"@;
    assert(!file.contains('/')) by {
        if file.contains('/') {
            let j = choose|j: int| 0 <= j < file.len() && file[j] == '/';
            if j < name.len() {
                assert(name.contains(name[j]));
            }
        }
    }
    text::what_was_joined_is_split(dir, '/', name);
    text::what_was_joined_is_split(dir, '/', file);
    assert(dir + "/"@ + name =~= dir.push('/') + name);
    assert(dir + "/"@ + file =~= dir.push('/') + file);
    assert(file.subrange(file.len() - 3, file.len() as int) =~= ".rs"@);
    assert(file.take(file.len() - 3) =~= name);
    if dir.len() == 0 {
        assert(dir =~= Seq::empty());
    }
}

/// The root files of a crate and of a module stand for their directory, and no
/// other files do.
pub proof fn root_files_stand_for_their_directory(stem: Seq<char>)
    ensures
        is_mod_stem("mod"@),
        is_mod_stem("lib"@),
        is_mod_stem("main"@),
        stem != "mod"@ && stem != "lib"@ && stem != "main"@ ==> !is_mod_stem(stem),
{
}

} // verus!
