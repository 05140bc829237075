//! Project statistics: git status, lines of code and disk usage, and their
//! aggregation over many projects. Reading a repository, counting lines and
//! walking the disk happen outside; the counting and summing here work on
//! what those produce.
use vstd::prelude::*;

use crate::detect::{contains_name, names_of};

verus! {

/// The text bytesize shows for a number of bytes.
pub uninterp spec fn byte_size_text(bytes: u64) -> Seq<char>;

/// Relies on bytesize's `Display` for `ByteSize`: the text depends on the
/// number of bytes alone.
#[verifier::external_body]
pub(crate) fn human_bytes(bytes: u64) -> (r: String)
    ensures
        r@ == byte_size_text(bytes),
{
    bytesize::ByteSize(bytes).to_string()
}

/// Status of a git working tree.
#[derive(Debug)]
pub struct GitStatus {
    pub branch: Option<String>,
    pub is_dirty: bool,
    pub changed: usize,
    pub staged: usize,
    pub untracked: usize,
    pub ahead: usize,
    pub behind: usize,
}

/// Line counts of one language.
#[derive(Debug, Clone, Copy, PartialEq, Eq, Structural)]
pub struct LangStats {
    pub code: usize,
    pub comments: usize,
    pub blanks: usize,
    pub files: usize,
}

/// Line counts by language, in language-name order, with their totals.
#[derive(Debug)]
pub struct LocStats {
    pub languages: Vec<(String, LangStats)>,
    pub total_code: usize,
    pub total_comments: usize,
    pub total_blanks: usize,
    pub total_files: usize,
}

/// Disk usage of a project: all of it, and the part under its artifact
/// directories.
#[derive(Debug, Clone, Copy, PartialEq, Eq, Structural)]
pub struct DiskStats {
    pub total_bytes: u64,
    pub artifact_bytes: u64,
}

impl DiskStats {
    /// The total size, as text.
    pub fn total_display(&self) -> (r: String)
        ensures
            r@ == byte_size_text(self.total_bytes),
    {
        human_bytes(self.total_bytes)
    }

    /// The size under artifact directories, as text.
    pub fn artifact_display(&self) -> (r: String)
        ensures
            r@ == byte_size_text(self.artifact_bytes),
    {
        human_bytes(self.artifact_bytes)
    }
}

/// Aggregated statistics for a single project.
#[derive(Debug)]
pub struct ProjectStats {
    pub name: String,
    pub git: Option<GitStatus>,
    pub loc: LocStats,
    pub disk: DiskStats,
}

/// Aggregated statistics across projects.
#[derive(Debug)]
pub struct OverviewStats {
    pub total_projects: usize,
    pub total_code_lines: usize,
    pub total_disk_bytes: u64,
    pub total_artifact_bytes: u64,
    pub dirty_projects: usize,
    pub projects: Vec<ProjectStats>,
}

/// Status bits of a staged change: new, modified, deleted, renamed or
/// retyped in the index (git's `INDEX_*` flags).
pub const STAGED_BITS: u32 = 0x1f;

/// Status bits of an unstaged change to a tracked file: modified, deleted,
/// retyped or renamed in the working tree (git's `WT_*` flags but `WT_NEW`).
pub const CHANGED_BITS: u32 = 0xf00;

/// Status bit of an untracked file (git's `WT_NEW`).
pub const UNTRACKED_BITS: u32 = 0x80;

/// Number of entries of `flags` with one of the bits of `mask` set.
pub open spec fn count_with(flags: Seq<u32>, mask: u32) -> nat
    decreases flags.len(),
{
    if flags.len() == 0 {
        0
    } else {
        count_with(flags.drop_last(), mask) + if flags.last() & mask != 0 {
            1nat
        } else {
            0nat
        }
    }
}

proof fn lemma_count_bounded(flags: Seq<u32>, mask: u32)
    ensures
        count_with(flags, mask) <= flags.len(),
    decreases flags.len(),
{
    if flags.len() > 0 {
        lemma_count_bounded(flags.drop_last(), mask);
    }
}

fn count_flags(flags: &Vec<u32>, mask: u32) -> (r: usize)
    ensures
        r == count_with(flags@, mask),
{
    let mut n: usize = 0;
    let mut k: usize = 0;
    assert(flags@.take(0) =~= Seq::<u32>::empty());
    while k < flags.len()
        invariant
            k <= flags@.len(),
            n == count_with(flags@.take(k as int), mask),
        decreases flags@.len() - k,
    {
        assert(flags@.take(k + 1).drop_last() =~= flags@.take(k as int));
        proof {
            lemma_count_bounded(flags@.take(k as int), mask);
        }
        if flags[k] & mask != 0 {
            n = n + 1;
        }
        k = k + 1;
    }
    assert(flags@.take(k as int) =~= flags@);
    n
}

/// The status of a working tree from the status bits of its entries, its
/// branch, and how far it is ahead of and behind its upstream where that is
/// known (else both are 0).
pub fn git_status_from(branch: Option<String>, flags: &Vec<u32>, ahead_behind: Option<(usize, usize)>) -> (r: GitStatus)
    ensures
        r.branch == branch,
        r.staged == count_with(flags@, STAGED_BITS),
        r.changed == count_with(flags@, CHANGED_BITS),
        r.untracked == count_with(flags@, UNTRACKED_BITS),
        r.is_dirty == (r.changed > 0 || r.staged > 0 || r.untracked > 0),
        ahead_behind matches Some((a, b)) ==> r.ahead == a && r.behind == b,
        ahead_behind is None ==> r.ahead == 0 && r.behind == 0,
{
    let staged = count_flags(flags, STAGED_BITS);
    let changed = count_flags(flags, CHANGED_BITS);
    let untracked = count_flags(flags, UNTRACKED_BITS);
    let (ahead, behind) = match ahead_behind {
        Some(ab) => ab,
        None => (0, 0),
    };
    GitStatus {
        branch,
        is_dirty: changed > 0 || staged > 0 || untracked > 0,
        changed,
        staged,
        untracked,
        ahead,
        behind,
    }
}

/// A language with no code, comments or blank lines.
pub open spec fn lang_is_empty(l: LangStats) -> bool {
    l.code == 0 && l.comments == 0 && l.blanks == 0
}

/// The languages of `langs` that have any lines, in order.
pub open spec fn counted_langs(langs: Seq<(String, LangStats)>) -> Seq<(String, LangStats)>
    decreases langs.len(),
{
    if langs.len() == 0 {
        langs
    } else {
        let rest = counted_langs(langs.drop_last());
        if lang_is_empty(langs.last().1) {
            rest
        } else {
            rest.push(langs.last())
        }
    }
}

/// Sum of `f` over the languages of `langs` that have any lines.
pub open spec fn lang_sum(langs: Seq<(String, LangStats)>, f: spec_fn(LangStats) -> nat) -> nat
    decreases langs.len(),
{
    if langs.len() == 0 {
        0
    } else {
        lang_sum(langs.drop_last(), f) + if lang_is_empty(langs.last().1) {
            0
        } else {
            f(langs.last().1)
        }
    }
}

pub open spec fn code_of(l: LangStats) -> nat {
    l.code as nat
}

pub open spec fn comments_of(l: LangStats) -> nat {
    l.comments as nat
}

pub open spec fn blanks_of(l: LangStats) -> nat {
    l.blanks as nat
}

pub open spec fn files_of(l: LangStats) -> nat {
    l.files as nat
}

proof fn lemma_lang_sum_prefix(langs: Seq<(String, LangStats)>, f: spec_fn(LangStats) -> nat, k: int)
    requires
        0 <= k <= langs.len(),
    ensures
        lang_sum(langs.take(k), f) <= lang_sum(langs, f),
    decreases langs.len() - k,
{
    if k < langs.len() {
        lemma_lang_sum_prefix(langs, f, k + 1);
        assert(langs.take(k + 1).drop_last() =~= langs.take(k));
    } else {
        assert(langs.take(k) =~= langs);
    }
}

/// Line counts from per-language counts: languages without any line are
/// left out, and the totals sum the others.
pub fn loc_stats_from(langs: Vec<(String, LangStats)>) -> (r: LocStats)
    requires
        lang_sum(langs@, |l: LangStats| code_of(l)) <= usize::MAX,
        lang_sum(langs@, |l: LangStats| comments_of(l)) <= usize::MAX,
        lang_sum(langs@, |l: LangStats| blanks_of(l)) <= usize::MAX,
        lang_sum(langs@, |l: LangStats| files_of(l)) <= usize::MAX,
    ensures
        r.languages@ == counted_langs(langs@),
        r.total_code == lang_sum(langs@, |l: LangStats| code_of(l)),
        r.total_comments == lang_sum(langs@, |l: LangStats| comments_of(l)),
        r.total_blanks == lang_sum(langs@, |l: LangStats| blanks_of(l)),
        r.total_files == lang_sum(langs@, |l: LangStats| files_of(l)),
{
    let ghost all = langs@;
    let ghost fc = |l: LangStats| code_of(l);
    let ghost fm = |l: LangStats| comments_of(l);
    let ghost fb = |l: LangStats| blanks_of(l);
    let ghost ff = |l: LangStats| files_of(l);
    let mut src = langs;
    let mut rev: Vec<(String, LangStats)> = Vec::new();
    while src.len() > 0
        invariant
            src@.len() + rev@.len() == all.len(),
            forall|j: int| 0 <= j < src@.len() ==> #[trigger] src@[j] == all[j],
            forall|j: int| 0 <= j < rev@.len() ==> #[trigger] rev@[j] == all[all.len() - 1 - j],
        decreases src@.len(),
    {
        let x = src.pop().unwrap();
        rev.push(x);
    }
    let mut out: Vec<(String, LangStats)> = Vec::new();
    let mut code: usize = 0;
    let mut comments: usize = 0;
    let mut blanks: usize = 0;
    let mut files: usize = 0;
    assert(all.take(0) =~= Seq::<(String, LangStats)>::empty());
    while rev.len() > 0
        invariant
            rev@.len() <= all.len(),
            forall|j: int| 0 <= j < rev@.len() ==> #[trigger] rev@[j] == all[all.len() - 1 - j],
            lang_sum(all, fc) <= usize::MAX,
            lang_sum(all, fm) <= usize::MAX,
            lang_sum(all, fb) <= usize::MAX,
            lang_sum(all, ff) <= usize::MAX,
            fc == (|l: LangStats| code_of(l)),
            fm == (|l: LangStats| comments_of(l)),
            fb == (|l: LangStats| blanks_of(l)),
            ff == (|l: LangStats| files_of(l)),
            out@ == counted_langs(all.take(all.len() - rev@.len())),
            code == lang_sum(all.take(all.len() - rev@.len()), fc),
            comments == lang_sum(all.take(all.len() - rev@.len()), fm),
            blanks == lang_sum(all.take(all.len() - rev@.len()), fb),
            files == lang_sum(all.take(all.len() - rev@.len()), ff),
        decreases rev@.len(),
    {
        let ghost k = all.len() - rev@.len();
        assert(all.take(k + 1).drop_last() =~= all.take(k));
        proof {
            lemma_lang_sum_prefix(all, fc, k + 1);
            lemma_lang_sum_prefix(all, fm, k + 1);
            lemma_lang_sum_prefix(all, fb, k + 1);
            lemma_lang_sum_prefix(all, ff, k + 1);
        }
        let (name, l) = rev.pop().unwrap();
        assert(all[k] == (name, l));
        if !(l.code == 0 && l.comments == 0 && l.blanks == 0) {
            code = code + l.code;
            comments = comments + l.comments;
            blanks = blanks + l.blanks;
            files = files + l.files;
            out.push((name, l));
        }
    }
    assert(all.take(all.len() as int) =~= all);
    LocStats {
        languages: out,
        total_code: code,
        total_comments: comments,
        total_blanks: blanks,
        total_files: files,
    }
}

/// Bytes of the files `files` (each by the first component of its path
/// within the project, and its size), in all and under a directory named
/// in `names`.
pub open spec fn bytes_total(files: Seq<(Option<String>, u64)>) -> nat
    decreases files.len(),
{
    if files.len() == 0 {
        0
    } else {
        bytes_total(files.drop_last()) + files.last().1 as nat
    }
}

pub open spec fn bytes_under(files: Seq<(Option<String>, u64)>, names: Seq<Seq<char>>) -> nat
    decreases files.len(),
{
    if files.len() == 0 {
        0
    } else {
        bytes_under(files.drop_last(), names) + match files.last().0 {
            Some(c) => if names.contains(c@) {
                files.last().1 as nat
            } else {
                0
            },
            None => 0,
        }
    }
}

proof fn lemma_bytes_prefix(files: Seq<(Option<String>, u64)>, names: Seq<Seq<char>>, k: int)
    requires
        0 <= k <= files.len(),
    ensures
        bytes_total(files.take(k)) <= bytes_total(files),
        bytes_under(files.take(k), names) <= bytes_total(files.take(k)),
    decreases files.len() - k,
{
    if k < files.len() {
        lemma_bytes_prefix(files, names, k + 1);
        assert(files.take(k + 1).drop_last() =~= files.take(k));
    } else {
        assert(files.take(k) =~= files);
    }
    lemma_under_le_total(files.take(k), names);
}

proof fn lemma_under_le_total(files: Seq<(Option<String>, u64)>, names: Seq<Seq<char>>)
    ensures
        bytes_under(files, names) <= bytes_total(files),
    decreases files.len(),
{
    if files.len() > 0 {
        lemma_under_le_total(files.drop_last(), names);
    }
}

/// Disk usage of a project from its files: each file by the first component
/// of its path within the project (`None` for none) and its size.
pub fn disk_stats_from(files: &Vec<(Option<String>, u64)>, artifact_dirs: &Vec<String>) -> (r: DiskStats)
    requires
        bytes_total(files@) <= u64::MAX,
    ensures
        r.total_bytes == bytes_total(files@),
        r.artifact_bytes == bytes_under(files@, names_of(artifact_dirs@)),
{
    let ghost names = names_of(artifact_dirs@);
    let mut total: u64 = 0;
    let mut artifact: u64 = 0;
    let mut k: usize = 0;
    assert(files@.take(0) =~= Seq::<(Option<String>, u64)>::empty());
    while k < files.len()
        invariant
            k <= files@.len(),
            names == names_of(artifact_dirs@),
            bytes_total(files@) <= u64::MAX,
            total == bytes_total(files@.take(k as int)),
            artifact == bytes_under(files@.take(k as int), names),
        decreases files@.len() - k,
    {
        assert(files@.take(k + 1).drop_last() =~= files@.take(k as int));
        proof {
            lemma_bytes_prefix(files@, names, k + 1);
        }
        let (first, size) = &files[k];
        total = total + *size;
        match first {
            Some(c) => {
                if contains_name(artifact_dirs, c.as_str()) {
                    artifact = artifact + *size;
                }
            },
            None => {},
        }
        k = k + 1;
    }
    assert(files@.take(k as int) =~= files@);
    DiskStats { total_bytes: total, artifact_bytes: artifact }
}

/// Sums over the statistics of many projects.
pub open spec fn sum_code(s: Seq<ProjectStats>) -> nat
    decreases s.len(),
{
    if s.len() == 0 {
        0
    } else {
        sum_code(s.drop_last()) + s.last().loc.total_code as nat
    }
}

pub open spec fn sum_disk(s: Seq<ProjectStats>) -> nat
    decreases s.len(),
{
    if s.len() == 0 {
        0
    } else {
        sum_disk(s.drop_last()) + s.last().disk.total_bytes as nat
    }
}

pub open spec fn sum_artifacts(s: Seq<ProjectStats>) -> nat
    decreases s.len(),
{
    if s.len() == 0 {
        0
    } else {
        sum_artifacts(s.drop_last()) + s.last().disk.artifact_bytes as nat
    }
}

pub open spec fn count_dirty(s: Seq<ProjectStats>) -> nat
    decreases s.len(),
{
    if s.len() == 0 {
        0
    } else {
        count_dirty(s.drop_last()) + if s.last().git matches Some(g) && g.is_dirty {
            1nat
        } else {
            0nat
        }
    }
}

proof fn lemma_sums_prefix(s: Seq<ProjectStats>, k: int)
    requires
        0 <= k <= s.len(),
    ensures
        sum_code(s.take(k)) <= sum_code(s),
        sum_disk(s.take(k)) <= sum_disk(s),
        sum_artifacts(s.take(k)) <= sum_artifacts(s),
        count_dirty(s.take(k)) <= k,
    decreases s.len() - k,
{
    if k < s.len() {
        lemma_sums_prefix(s, k + 1);
        assert(s.take(k + 1).drop_last() =~= s.take(k));
    } else {
        assert(s.take(k) =~= s);
    }
    lemma_dirty_bounded(s.take(k));
}

proof fn lemma_dirty_bounded(s: Seq<ProjectStats>)
    ensures
        count_dirty(s) <= s.len(),
    decreases s.len(),
{
    if s.len() > 0 {
        lemma_dirty_bounded(s.drop_last());
    }
}

/// The overview of many projects' statistics: how many, their summed lines
/// of code and disk usage, and how many have a dirty working tree.
pub fn overview_from(projects: Vec<ProjectStats>) -> (r: OverviewStats)
    requires
        sum_code(projects@) <= usize::MAX,
        sum_disk(projects@) <= u64::MAX,
        sum_artifacts(projects@) <= u64::MAX,
    ensures
        r.total_projects == projects@.len(),
        r.total_code_lines == sum_code(projects@),
        r.total_disk_bytes == sum_disk(projects@),
        r.total_artifact_bytes == sum_artifacts(projects@),
        r.dirty_projects == count_dirty(projects@),
        r.projects@ == projects@,
{
    let mut code: usize = 0;
    let mut disk: u64 = 0;
    let mut artifacts: u64 = 0;
    let mut dirty: usize = 0;
    let mut k: usize = 0;
    assert(projects@.take(0) =~= Seq::<ProjectStats>::empty());
    while k < projects.len()
        invariant
            k <= projects@.len(),
            sum_code(projects@) <= usize::MAX,
            sum_disk(projects@) <= u64::MAX,
            sum_artifacts(projects@) <= u64::MAX,
            code == sum_code(projects@.take(k as int)),
            disk == sum_disk(projects@.take(k as int)),
            artifacts == sum_artifacts(projects@.take(k as int)),
            dirty == count_dirty(projects@.take(k as int)),
        decreases projects@.len() - k,
    {
        assert(projects@.take(k + 1).drop_last() =~= projects@.take(k as int));
        proof {
            lemma_sums_prefix(projects@, k + 1);
        }
        let s = &projects[k];
        code = code + s.loc.total_code;
        disk = disk + s.disk.total_bytes;
        artifacts = artifacts + s.disk.artifact_bytes;
        match &s.git {
            Some(g) => {
                if g.is_dirty {
                    dirty = dirty + 1;
                }
            },
            None => {},
        }
        k = k + 1;
    }
    assert(projects@.take(k as int) =~= projects@);
    OverviewStats {
        total_projects: projects.len(),
        total_code_lines: code,
        total_disk_bytes: disk,
        total_artifact_bytes: artifacts,
        dirty_projects: dirty,
        projects,
    }
}

} // verus!
