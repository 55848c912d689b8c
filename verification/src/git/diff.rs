//! What a commit does to a file.

use vstd::prelude::*;

use crate::fold;

verus! {

/// What became of a file.
#[derive(Debug, Clone, Copy, PartialEq, Eq, Structural)]
pub enum FileStatus {
    Added,
    Modified,
    Deleted,
    Renamed,
}

/// The lines that a piece of a change touches, counted from 1: where they stood
/// and where they stand.
#[derive(Debug, Clone, Copy, PartialEq, Eq, Structural)]
pub struct Hunk {
    pub old_start: u32,
    pub old_lines: u32,
    pub new_start: u32,
    pub new_lines: u32,
}

impl Hunk {
    /// The hunk of two ranges of lines, counted from 0, without their ends.
    pub fn of_ranges(old_from: u32, old_to: u32, new_from: u32, new_to: u32) -> (r: Hunk)
        requires
            old_from <= old_to,
            new_from <= new_to,
            old_from < u32::MAX,
            new_from < u32::MAX,
        ensures
            r.old_start == old_from + 1,
            r.old_lines == old_to - old_from,
            r.new_start == new_from + 1,
            r.new_lines == new_to - new_from,
    {
        Hunk {
            old_start: old_from + 1,
            old_lines: old_to - old_from,
            new_start: new_from + 1,
            new_lines: new_to - new_from,
        }
    }

    /// Whether a line of the new text belongs to the hunk.
    pub open spec fn holds(self, line: int) -> bool {
        self.new_start <= line < self.new_start + self.new_lines
    }
}

/// A hunk holds just the lines of its range.
pub proof fn hunk_holds_its_range(h: Hunk, from: int, to: int, line: int)
    requires
        0 <= from <= to,
        h.new_start == from + 1,
        h.new_lines == to - from,
    ensures
        h.holds(line) <==> from <= line - 1 < to,
{
}

/// How many lines of the new text a hunk touches between two lines, both of
/// them taken along.
pub open spec fn touched_between(first: int, last: int) -> spec_fn(Hunk) -> nat {
    |h: Hunk|
        {
            let from = if h.new_start < first {
                first
            } else {
                h.new_start as int
            };
            let to = if last < h.new_start + h.new_lines - 1 {
                last
            } else {
                h.new_start + h.new_lines - 1
            };
            if from <= to {
                (to - from + 1) as nat
            } else {
                0
            }
        }
}

/// A sum that stays at the largest number once it gets there.
pub open spec fn capped(n: int) -> u64 {
    if n > u64::MAX {
        u64::MAX
    } else {
        n as u64
    }
}

/// How many lines of the new text the hunks touch between two lines, both of
/// them taken along.
pub fn lines_touched(hunks: &[Hunk], first: u32, last: u32) -> (r: u64)
    ensures
        r == capped(fold::total(hunks@, touched_between(first as int, last as int)) as int),
{
    let ghost f = touched_between(first as int, last as int);
    let n: usize = hunks.len();
    let mut sum: u64 = 0;
    let mut i: usize = 0;
    while i < n
        invariant
            n == hunks@.len(),
            i <= n,
            f == touched_between(first as int, last as int),
            sum == capped(fold::total(hunks@.take(i as int), f) as int),
        decreases n - i,
    {
        proof {
            fold::lemma_total_step(hunks@, f, i as int);
        }
        let h = hunks[i];
        let from: u64 = if h.new_start < first {
            first as u64
        } else {
            h.new_start as u64
        };
        let past: u64 = if (last as u64) < h.new_start as u64 + h.new_lines as u64 {
            last as u64 + 1
        } else {
            h.new_start as u64 + h.new_lines as u64
        };
        if from < past {
            sum = sum.saturating_add(past - from);
        }
        i += 1;
    }
    proof {
        assert(hunks@.take(n as int) =~= hunks@);
    }
    sum
}

/// A hunk touches something between two lines just where it holds one of them.
pub proof fn touching_is_holding(h: Hunk, first: int, last: int)
    ensures
        touched_between(first, last)(h) > 0 <==> exists|line: int|
            first <= line <= last && #[trigger] h.holds(line),
{
    let from = if h.new_start < first {
        first
    } else {
        h.new_start as int
    };
    if touched_between(first, last)(h) > 0 {
        assert(h.holds(from));
    }
}

/// What happened to an entry of a tree.
#[derive(Debug, Clone, Copy, PartialEq, Eq, Structural)]
pub enum ChangeKind {
    Addition,
    Deletion,
    Modification,
    /// It came from another place; the other stays if it is a copy.
    Rewrite { copy: bool },
}

/// A change of an entry of a tree.
#[derive(Debug)]
pub struct TreeChange {
    pub kind: ChangeKind,
    /// Whether the entry is a file.
    pub is_blob: bool,
    pub path: String,
    /// Where it came from, for a rewrite.
    pub source: String,
}

/// A change of a file.
#[derive(Debug)]
pub struct DiffRecord {
    pub file_path: String,
    pub old_path: Option<String>,
    pub status: FileStatus,
    pub hunks: Vec<Hunk>,
    pub additions: u32,
    pub deletions: u32,
    /// Whether there is new content to look at.
    pub has_content: bool,
}

pub open spec fn status_of(kind: ChangeKind) -> FileStatus {
    match kind {
        ChangeKind::Addition => FileStatus::Added,
        ChangeKind::Deletion => FileStatus::Deleted,
        ChangeKind::Modification => FileStatus::Modified,
        ChangeKind::Rewrite { copy } => if copy {
            FileStatus::Modified
        } else {
            FileStatus::Renamed
        },
    }
}

pub struct DiffExtractor;

impl DiffExtractor {
    pub fn new() -> (r: Self)
        ensures
            r == (DiffExtractor {  }),
    {
        DiffExtractor
    }

    /// The record of a change; none for what is not a file. Without counts of
    /// lines the file is binary, and there are no hunks.
    pub fn record(
        &self,
        change: TreeChange,
        counts: Option<(u32, u32)>,
        hunks: Vec<Hunk>,
    ) -> (r: Option<DiffRecord>)
        ensures
            r is Some <==> change.is_blob,
            r matches Some(d) ==> {
                &&& d.file_path@ == change.path@
                &&& d.status == status_of(change.kind)
                &&& match d.old_path {
                    Some(p) => change.kind is Rewrite && p@ == change.source@,
                    None => !(change.kind is Rewrite),
                }
                &&& d.has_content == (change.kind != ChangeKind::Deletion)
                &&& match counts {
                    Some((a, b)) => d.additions == a && d.deletions == b && d.hunks@ == hunks@,
                    None => d.additions == 0 && d.deletions == 0 && d.hunks@.len() == 0,
                }
            },
    {
        if !change.is_blob {
            return None;
        }
        let (status, has_content) = match change.kind {
            ChangeKind::Addition => (FileStatus::Added, true),
            ChangeKind::Deletion => (FileStatus::Deleted, false),
            ChangeKind::Modification => (FileStatus::Modified, true),
            ChangeKind::Rewrite { copy } => if copy {
                (FileStatus::Modified, true)
            } else {
                (FileStatus::Renamed, true)
            },
        };
        let old_path = match change.kind {
            ChangeKind::Rewrite { .. } => Some(change.source),
            _ => None,
        };
        let (additions, deletions, kept) = match counts {
            Some((a, b)) => (a, b, hunks),
            None => (0, 0, Vec::new()),
        };
        Some(
            DiffRecord {
                file_path: change.path,
                old_path,
                status,
                hunks: kept,
                additions,
                deletions,
                has_content,
            },
        )
    }
}

impl Default for DiffExtractor {
    fn default() -> (r: Self)
        ensures
            r == (DiffExtractor {  }),
    {
        DiffExtractor::new()
    }
}

/// One more line adds itself to the lines that a hunk touches where the hunk holds
/// it.
pub proof fn each_held_line_is_touched(h: Hunk, first: int, last: int)
    requires
        first <= last + 1,
    ensures
        touched_between(first, first - 1)(h) == 0,
        touched_between(first, last + 1)(h) == touched_between(first, last)(h) + if h.holds(
            last + 1,
        ) {
            1nat
        } else {
            0nat
        },
{
}

/// Each kind of change has its status; only a rename that is no copy counts as
/// one.
pub proof fn statuses_follow_changes()
    ensures
        status_of(ChangeKind::Addition) == FileStatus::Added,
        status_of(ChangeKind::Deletion) == FileStatus::Deleted,
        status_of(ChangeKind::Modification) == FileStatus::Modified,
        status_of(ChangeKind::Rewrite { copy: false }) == FileStatus::Renamed,
        status_of(ChangeKind::Rewrite { copy: true }) == FileStatus::Modified,
{
}

} // verus!
