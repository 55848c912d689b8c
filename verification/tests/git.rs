use repo_analyzer::git::constructs::touched_constructs;
use repo_analyzer::git::diff::{lines_touched, ChangeKind, DiffExtractor, FileStatus, Hunk, TreeChange};
use repo_analyzer::git::walker::{CommitTimes, GitWalker, Step};
use repo_analyzer::types::{Date, Duration, TimeRange};

const DAY: i64 = 86400;

fn at(committer: i64, author: i64) -> CommitTimes {
    CommitTimes { committer, author, offset: 0 }
}

fn walk(range: TimeRange, commits: &[CommitTimes], now: i64) -> (Vec<Step>, u64) {
    let mut w = GitWalker::new(range);
    let steps = commits.iter().map(|c| w.step(*c, now, 0)).collect();
    (steps, w.taken)
}

#[test]
fn all_commits_are_taken() {
    let (steps, taken) = walk(TimeRange::All, &[at(2, 1), at(1, 0), at(i64::MIN, i64::MAX)], 0);
    assert_eq!(steps, vec![Step::Take; 3]);
    assert_eq!(taken, 3);
}

#[test]
fn a_walk_stops_by_the_time_of_the_committer() {
    let range = TimeRange::Between { from: Date { days: 10 }, to: Date { days: 12 } };
    // The second was rebased: written long before, committed in the range.
    let commits = [at(13 * DAY, 13 * DAY), at(12 * DAY, 3 * DAY), at(11 * DAY, 11 * DAY), at(9 * DAY, 9 * DAY), at(8 * DAY, 10 * DAY)];
    let (steps, taken) = walk(range, &commits, 0);
    assert_eq!(steps, vec![Step::Skip, Step::Skip, Step::Take, Step::Stop, Step::Stop]);
    assert_eq!(taken, 1);
}

#[test]
fn spans_reach_back_from_now() {
    let now = 1_750_000_000;
    let w = GitWalker::new(TimeRange::Since(Duration { days: 1 }));
    assert!(w.in_time_range(now - DAY, 0, now, 0));
    assert!(!w.in_time_range(now - DAY, 0, now, 1));
    assert!(w.before_time_range(now - DAY - 1, now, 0));
}

#[test]
fn days_are_those_of_the_author() {
    let w = GitWalker::new(TimeRange::Between { from: Date { days: 1 }, to: Date { days: 1 } });
    assert!(!w.in_time_range(DAY - 1, 0, 0, 0));
    assert!(w.in_time_range(DAY - 1, 3600, 0, 0));
    assert!(!w.in_time_range(DAY - 1, 90000, 0, 0));
    assert!(w.before_time_range(-1, 0, 0));
}

fn change(kind: ChangeKind, is_blob: bool) -> TreeChange {
    TreeChange { kind, is_blob, path: "new.rs".into(), source: "old.rs".into() }
}

#[test]
fn changes_become_records() {
    let x = DiffExtractor::new();
    let hunk = Hunk::of_ranges(4, 5, 4, 6);
    assert_eq!((hunk.old_start, hunk.old_lines, hunk.new_start, hunk.new_lines), (5, 1, 5, 2));
    let d = x.record(change(ChangeKind::Modification, true), Some((2, 1)), vec![hunk]).expect("record");
    assert_eq!((d.status, d.additions, d.deletions, d.hunks.len(), d.has_content), (FileStatus::Modified, 2, 1, 1, true));
    assert_eq!(d.old_path, None);
    let d = x.record(change(ChangeKind::Rewrite { copy: false }, true), None, vec![hunk]).expect("record");
    assert_eq!((d.status, d.old_path.as_deref(), d.hunks.len()), (FileStatus::Renamed, Some("old.rs"), 0));
    let d = x.record(change(ChangeKind::Rewrite { copy: true }, true), None, vec![]).expect("record");
    assert_eq!(d.status, FileStatus::Modified);
    let d = x.record(change(ChangeKind::Deletion, true), Some((0, 3)), vec![]).expect("record");
    assert_eq!((d.status, d.has_content), (FileStatus::Deleted, false));
    let d = x.record(change(ChangeKind::Addition, true), Some((3, 0)), vec![]).expect("record");
    assert_eq!(d.status, FileStatus::Added);
    assert!(x.record(change(ChangeKind::Addition, false), Some((3, 0)), vec![]).is_none());
}

#[test]
fn hunks_touch_the_lines_they_share() {
    let hunks = [Hunk::of_ranges(0, 0, 4, 9), Hunk::of_ranges(9, 9, 19, 20)];
    assert_eq!(lines_touched(&hunks, 1, 4), 0);
    assert_eq!(lines_touched(&hunks, 1, 5), 1);
    assert_eq!(lines_touched(&hunks, 7, 8), 2);
    assert_eq!(lines_touched(&hunks, 9, 20), 2);
    assert_eq!(lines_touched(&hunks, 1, u32::MAX), 6);
}

#[test]
fn changes_touch_functions() {
    let source = "fn a() {\n    1;\n}\n\nfn b() {\n    2;\n}\n";
    let names = |hunks: &[Hunk]| -> Vec<(String, u64)> {
        touched_constructs("src/x.rs", source, hunks).into_iter().map(|t| (t.qualified_name, t.lines)).collect()
    };
    assert_eq!(names(&[Hunk::of_ranges(0, 0, 5, 6)]), vec![("b".to_string(), 1)]);
    assert_eq!(names(&[Hunk::of_ranges(0, 0, 1, 6)]), vec![("a".to_string(), 2), ("b".to_string(), 2)]);
    assert!(names(&[Hunk::of_ranges(0, 0, 3, 4)]).is_empty());
    assert!(touched_constructs("notes.txt", source, &[Hunk::of_ranges(0, 0, 0, 7)]).is_empty());
}

#[test]
fn commits_are_counted_by_the_committers_time() {
    let w = GitWalker::new(TimeRange::Since(Duration { days: 2 }));
    let now = 10 * DAY;
    assert_eq!(w.count(&[10 * DAY, 9 * DAY, 8 * DAY, 7 * DAY, 9 * DAY], now, 0), 3);
    assert_eq!(GitWalker::new(TimeRange::All).count(&[1, 2, 3], now, 0), 3);
    let between = TimeRange::Between { from: Date { days: 8 }, to: Date { days: 9 } };
    assert_eq!(GitWalker::new(between).count(&[10 * DAY, 9 * DAY, 8 * DAY, 7 * DAY], now, 0), 2);
}

fn constructs(path: &str, source: &str) -> Vec<(String, String)> {
    let all = Hunk::of_ranges(0, 0, 0, source.lines().count() as u32);
    touched_constructs(path, source, &[all]).into_iter().map(|t| (t.kind, t.qualified_name)).collect()
}

fn pairs(expected: &[(&str, &str)]) -> Vec<(String, String)> {
    expected.iter().map(|(k, n)| (k.to_string(), n.to_string())).collect()
}

#[test]
fn constructs_are_qualified_by_what_is_around_them() {
    let rust = "mod m {\n    struct A;\n    impl A {\n        fn new() {}\n    }\n    impl B {\n        fn new() {}\n    }\n}\nfn f() {\n    let g = |x: u8| x;\n}\n";
    assert_eq!(
        constructs("src/x.rs", rust),
        pairs(&[("class", "m::A"), ("method", "m::A::new"), ("method", "m::B::new"), ("function", "f")]),
    );
    let python = "class A:\n    def f(self):\n        def g():\n            pass\n        return lambda: 1\n";
    assert_eq!(
        constructs("x.py", python),
        pairs(&[("class", "A"), ("method", "A::f"), ("function", "A::f::g")]),
    );
    let go = "package p\n\ntype S struct{}\n\nfunc (s *S) Run() {}\n\nfunc Run() {}\n";
    assert_eq!(
        constructs("x.go", go),
        pairs(&[("class", "S"), ("method", "S::Run"), ("function", "Run")]),
    );
}

#[test]
fn lambdas_are_no_constructs() {
    let js = "class A {\n  m() { return [1].map(x => x + 1); }\n}\nconst f = () => 1;\n";
    assert_eq!(constructs("x.js", js), pairs(&[("class", "A"), ("method", "A::m")]));
    let java = "class A {\n  A() {}\n  Runnable r() { return () -> {}; }\n}\n";
    assert_eq!(
        constructs("A.java", java),
        pairs(&[("class", "A"), ("method", "A::A"), ("method", "A::r")]),
    );
    let kotlin = "class A {\n    fun f() = listOf(1).map { it }\n}\n";
    assert_eq!(constructs("A.kt", kotlin), pairs(&[("class", "A"), ("method", "A::f")]));
    let ts = "interface I { n: number }\nclass A {\n  m(): number { return 1; }\n}\n";
    assert_eq!(constructs("a.ts", ts), pairs(&[("class", "I"), ("class", "A"), ("method", "A::m")]));
    let dart = "class A {\n  int m(int x) {\n    return x;\n  }\n}\nvoid f() {}\n";
    assert_eq!(constructs("a.dart", dart), pairs(&[("class", "A"), ("method", "A::m"), ("function", "f")]));
}

#[test]
fn further_languages_are_searched_for_constructs() {
    let cpp = "namespace n {\nclass A {\n  int f() { return 1; }\n};\nstruct B *g(struct B *b) { return b; }\nint A::h() { return 2; }\n}\n";
    assert_eq!(
        constructs("a.cpp", cpp),
        pairs(&[("class", "n::A"), ("method", "n::A::f"), ("function", "n::g"), ("function", "n::A::h")]),
    );
    let cs = "namespace N {\n  class A {\n    A() {}\n    int F() { return 1; }\n  }\n}\n";
    assert_eq!(
        constructs("a.cs", cs),
        pairs(&[("class", "N::A"), ("method", "N::A::A"), ("method", "N::A::F")]),
    );
    let php = "<?php\nclass A {\n  function f() {}\n}\nfunction g() {}\n";
    assert_eq!(constructs("a.php", php), pairs(&[("class", "A"), ("method", "A::f"), ("function", "g")]));
    let ruby = "module M\n  class A\n    def f\n    end\n    def self.g\n    end\n  end\nend\n";
    assert_eq!(
        constructs("a.rb", ruby),
        pairs(&[("class", "M"), ("class", "M::A"), ("method", "M::A::f"), ("method", "M::A::g")]),
    );
    let scala = "object O {\n  def f(x: Int): Int = x\n}\n";
    assert_eq!(constructs("a.scala", scala), pairs(&[("class", "O"), ("method", "O::f")]));
    let swift = "class A {\n  func f() {}\n}\nfunc g() {}\n";
    assert_eq!(constructs("a.swift", swift), pairs(&[("class", "A"), ("method", "A::f"), ("function", "g")]));
    let bash = "f() {\n  echo 1\n}\n";
    assert_eq!(constructs("a.sh", bash), pairs(&[("function", "f")]));
    assert!(constructs("sh", bash).is_empty());
}
