//! Keeping the log directory small: on start-up the oldest log files of the
//! application are deleted until the directory's log files fit a size cap.
//!
//! Only files named `<APP_ID>-*.log` are considered, so that anything else
//! in the directory is left alone. Deleting a file may fail; the plan then
//! goes on with the next oldest one.
use vstd::prelude::*;
use crate::library::app_id;
use crate::paths::{join_path, spec_join};
use crate::text::{chars_of, concat2, decimal, decimal_string};

verus! {

/// A file found in the log directory.
pub struct LogFile {
    pub name: String,
    pub len: u64,
    /// Modification time, in nanoseconds since the Unix epoch.
    pub mtime: u128,
}

/// Largest total size of the log files kept on start-up: 100 MiB.
pub const MAX_LOG_DIR_BYTES: u64 = 104857600u64;

/// `s` starts with `p`.
pub open spec fn has_prefix(s: Seq<char>, p: Seq<char>) -> bool {
    p.len() <= s.len() && s.subrange(0, p.len() as int) == p
}

/// `s` ends with `p`.
pub open spec fn has_suffix(s: Seq<char>, p: Seq<char>) -> bool {
    p.len() <= s.len() && s.subrange(s.len() - p.len(), s.len() as int) == p
}

/// A log file of this application: `<APP_ID>-` first and `.log` last.
pub open spec fn spec_is_log_name(name: Seq<char>) -> bool {
    has_prefix(name, "madalya-"@) && has_suffix(name, ".log"@)
}

fn starts_with_chars(s: &Vec<char>, p: &Vec<char>) -> (r: bool)
    ensures
        r == has_prefix(s@, p@),
{
    if p.len() > s.len() {
        return false;
    }
    let mut i: usize = 0;
    while i < p.len()
        invariant
            p@.len() <= s@.len(),
            i <= p@.len(),
            forall|j: int| 0 <= j < i ==> s@[j] == p@[j],
        decreases p@.len() - i,
    {
        if s[i] != p[i] {
            assert(s@.subrange(0, p@.len() as int)[i as int] != p@[i as int]);
            return false;
        }
        i = i + 1;
    }
    assert(s@.subrange(0, p@.len() as int) =~= p@);
    true
}

fn ends_with_chars(s: &Vec<char>, p: &Vec<char>) -> (r: bool)
    ensures
        r == has_suffix(s@, p@),
{
    if p.len() > s.len() {
        return false;
    }
    let sl = s.len();
    let off = sl - p.len();
    let mut i: usize = 0;
    while i < p.len()
        invariant
            sl == s@.len(),
            p@.len() <= s@.len(),
            off == s@.len() - p@.len(),
            i <= p@.len(),
            forall|j: int| 0 <= j < i ==> s@[off + j] == p@[j],
        decreases p@.len() - i,
    {
        if s[off + i] != p[i] {
            assert(s@.subrange(off as int, s@.len() as int)[i as int] != p@[i as int]);
            return false;
        }
        i = i + 1;
    }
    assert(s@.subrange(off as int, s@.len() as int) =~= p@);
    true
}

/// Whether `name` is one of this application's log files.
pub fn is_log_name(name: &str) -> (r: bool)
    ensures
        r == spec_is_log_name(name@),
{
    let prefix = concat2(app_id(), "-");
    proof {
        reveal_strlit("madalya-");
        reveal_strlit("madalya");
        reveal_strlit("-");
        assert(prefix@ =~= "madalya-"@);
    }
    let s = chars_of(name);
    let p = chars_of(prefix.as_str());
    let e = chars_of(".log");
    starts_with_chars(&s, &p) && ends_with_chars(&s, &e)
}

/// The indices of the log files among `files`, in directory order.
pub open spec fn candidates(files: Seq<LogFile>) -> Seq<usize>
    decreases files.len(),
{
    if files.len() == 0 {
        Seq::empty()
    } else {
        let r = candidates(files.drop_last());
        if spec_is_log_name(files.last().name@) {
            r.push((files.len() - 1) as usize)
        } else {
            r
        }
    }
}

/// Total size of the log files among `files`.
pub open spec fn log_total(files: Seq<LogFile>) -> nat
    decreases files.len(),
{
    if files.len() == 0 {
        0
    } else {
        log_total(files.drop_last()) + if spec_is_log_name(files.last().name@) {
            files.last().len as nat
        } else {
            0nat
        }
    }
}

/// The log files of a prefix weigh no more than those of a longer prefix.
proof fn lemma_log_total_mono(files: Seq<LogFile>, n: int, m: int)
    requires
        0 <= n <= m <= files.len(),
    ensures
        log_total(files.subrange(0, n)) <= log_total(files.subrange(0, m)),
    decreases m - n,
{
    if n < m {
        lemma_log_total_mono(files, n, m - 1);
        assert(files.subrange(0, m).drop_last() =~= files.subrange(0, m - 1));
    }
}

/// The files at `order` come oldest first.
pub open spec fn oldest_first(files: Seq<LogFile>, order: Seq<usize>) -> bool {
    forall|i: int|
        1 <= i < order.len() ==> files[order[i - 1] as int].mtime <= files[(
        #[trigger] order[i]) as int].mtime
}

/// The order in which log files are deleted, the running total, and how far
/// the deletions got.
pub struct PrunePlan {
    order: Vec<usize>,
    next: usize,
    total: u64,
    max_bytes: u64,
}

impl PrunePlan {
    /// The indices of the files still to be tried, oldest first.
    pub closed spec fn pending(&self) -> Seq<usize> {
        if self.next <= self.order@.len() {
            self.order@.subrange(self.next as int, self.order@.len() as int)
        } else {
            Seq::empty()
        }
    }

    /// The size of the log files not deleted so far.
    pub closed spec fn remaining(&self) -> u64 {
        self.total
    }

    /// The size cap.
    pub closed spec fn cap(&self) -> u64 {
        self.max_bytes
    }

    /// The plan for `files` under the cap `max_bytes`: when the log files
    /// already fit, nothing is deleted; otherwise they are tried oldest
    /// first (files with the same time in directory order).
    pub fn new(files: &Vec<LogFile>, max_bytes: u64) -> (r: PrunePlan)
        requires
            log_total(files@) <= u64::MAX,
        ensures
            r.remaining() == log_total(files@),
            r.cap() == max_bytes,
            r.remaining() <= max_bytes ==> r.pending().len() == 0,
            r.remaining() > max_bytes ==> r.pending().to_multiset() == candidates(
                files@,
            ).to_multiset() && oldest_first(files@, r.pending()),
    {
        let mut cands: Vec<usize> = Vec::new();
        let mut total: u64 = 0;
        let mut i: usize = 0;
        while i < files.len()
            invariant
                i <= files@.len(),
                cands@ == candidates(files@.subrange(0, i as int)),
                total == log_total(files@.subrange(0, i as int)),
                log_total(files@) <= u64::MAX,
                forall|k: int| 0 <= k < cands@.len() ==> cands@[k] < i,
            decreases files@.len() - i,
        {
            let ghost pre = files@.subrange(0, i as int + 1);
            assert(pre.drop_last() =~= files@.subrange(0, i as int));
            proof {
                lemma_candidates_prefix(files@, i as int + 1);
                lemma_log_total_mono(files@, i as int + 1, files@.len() as int);
                assert(files@.subrange(0, files@.len() as int) =~= files@);
            }
            if is_log_name(files[i].name.as_str()) {
                let ghost before = cands@;
                cands.push(i);
                assert(cands@.drop_last() =~= before);
                total = total + files[i].len;
            }
            i = i + 1;
        }
        assert(files@.subrange(0, files@.len() as int) =~= files@);
        if total <= max_bytes {
            let r = PrunePlan { order: Vec::new(), next: 0, total, max_bytes };
            assert(r.pending() =~= Seq::<usize>::empty());
            return r;
        }
        let order = sort_by_mtime(files, cands);
        let r = PrunePlan { order, next: 0, total, max_bytes };
        assert(r.pending() =~= r.order@);
        r
    }

    /// The next file to delete (its index among the files), while the log
    /// files are over the cap and some are left to try.
    pub fn next_removal(&mut self) -> (r: Option<usize>)
        ensures
            final(self).remaining() == old(self).remaining(),
            final(self).cap() == old(self).cap(),
            (old(self).remaining() <= old(self).cap() || old(self).pending().len() == 0) ==> r
                is None && final(self).pending() == old(self).pending(),
            (old(self).remaining() > old(self).cap() && old(self).pending().len() > 0) ==> r
                == Some(old(self).pending()[0]) && final(self).pending() == old(
                self,
            ).pending().drop_first(),
    {
        if self.total <= self.max_bytes || self.next >= self.order.len() {
            return None;
        }
        let i = self.order[self.next];
        self.next = self.next + 1;
        assert(self.pending() =~= old(self).pending().drop_first());
        Some(i)
    }

    /// A file of `len` bytes was deleted.
    pub fn removed(&mut self, len: u64)
        ensures
            final(self).remaining() == (if old(self).remaining() >= len {
                (old(self).remaining() - len) as u64
            } else {
                0u64
            }),
            final(self).pending() == old(self).pending(),
            final(self).cap() == old(self).cap(),
    {
        self.total = self.total.saturating_sub(len);
    }
}

/// The candidates among the first `n` files are those of the first `n - 1`
/// plus, when it is a log file, file `n - 1`.
proof fn lemma_candidates_prefix(files: Seq<LogFile>, n: int)
    requires
        0 < n <= files.len(),
    ensures
        candidates(files.subrange(0, n)) == (if spec_is_log_name(files[n - 1].name@) {
            candidates(files.subrange(0, n - 1)).push((n - 1) as usize)
        } else {
            candidates(files.subrange(0, n - 1))
        }),
{
    assert(files.subrange(0, n).drop_last() =~= files.subrange(0, n - 1));
}

/// Sorts `idxs` by the modification time of the files they point at,
/// oldest first; equal times keep their order (insertion sort).
fn sort_by_mtime(files: &Vec<LogFile>, idxs: Vec<usize>) -> (r: Vec<usize>)
    requires
        forall|k: int| 0 <= k < idxs@.len() ==> idxs@[k] < files@.len(),
    ensures
        oldest_first(files@, r@),
        r@.to_multiset() == idxs@.to_multiset(),
{
    let mut rest = idxs;
    let mut out: Vec<usize> = Vec::new();
    let ghost orig = rest@;
    assert(out@.to_multiset().add(rest@.to_multiset()) =~= orig.to_multiset()) by {
        broadcast use vstd::seq_lib::group_to_multiset_ensures;

    }
    while rest.len() > 0
        invariant
            oldest_first(files@, out@),
            out@.to_multiset().add(rest@.to_multiset()) == orig.to_multiset(),
            forall|k: int| 0 <= k < rest@.len() ==> rest@[k] < files@.len(),
            forall|k: int| 0 <= k < out@.len() ==> out@[k] < files@.len(),
        decreases rest.len(),
    {
        let ghost before_rest = rest@;
        let x = rest.remove(0);
        proof {
            broadcast use vstd::seq_lib::group_to_multiset_ensures;

            assert(rest@.to_multiset() =~= before_rest.to_multiset().remove(x));
            assert(before_rest.to_multiset().count(x) > 0) by {
                assert(before_rest[0] == x);
                assert(before_rest.contains(x));
            }
            assert forall|k: int| 0 <= k < rest@.len() implies rest@[k] < files@.len() by {
                assert(rest@[k] == before_rest[k + 1]);
            }
        }
        let key = files[x].mtime;
        let mut j: usize = 0;
        let mut found = false;
        while j < out.len() && !found
            invariant
                j <= out.len(),
                key == files@[x as int].mtime,
                forall|k: int| 0 <= k < out@.len() ==> out@[k] < files@.len(),
                found ==> j < out.len() && key < files@[out@[j as int] as int].mtime,
                forall|k: int| 0 <= k < j ==> files@[(#[trigger] out@[k]) as int].mtime <= key,
            decreases out.len() - j + (if found { 0int } else { 1int }),
        {
            if key < files[out[j]].mtime {
                found = true;
            } else {
                j = j + 1;
            }
        }
        let ghost old_out = out@;
        out.insert(j, x);
        proof {
            assert(out@ == old_out.insert(j as int, x));
            crate::library::lemma_insert_multiset(old_out, j as int, x);
            assert forall|i: int| 1 <= i < out@.len() implies files@[out@[i - 1] as int].mtime
                <= files@[(#[trigger] out@[i]) as int].mtime by {
                if i < j {
                    assert(out@[i] == old_out[i] && out@[i - 1] == old_out[i - 1]);
                } else if i == j {
                    assert(out@[i - 1] == old_out[i - 1]);
                } else if i == j + 1 {
                    assert(out@[i] == old_out[i - 1]);
                } else {
                    assert(out@[i] == old_out[i - 1] && out@[i - 1] == old_out[i - 2]);
                }
            }
            assert forall|k: int| 0 <= k < out@.len() implies out@[k] < files@.len() by {
                if k < j {
                    assert(out@[k] == old_out[k]);
                } else if k > j {
                    assert(out@[k] == old_out[k - 1]);
                }
            }
            assert(out@.to_multiset().add(rest@.to_multiset()) =~= orig.to_multiset());
        }
    }
    proof {
        broadcast use vstd::seq_lib::group_to_multiset_ensures;

        assert(rest@.to_multiset() =~= vstd::multiset::Multiset::empty());
        assert(out@.to_multiset() =~= orig.to_multiset());
    }
    out
}

/// The log file of one run: `<APP_ID>-<timestamp>-<pid>.log`.
pub open spec fn spec_log_file_name(stamp: Seq<char>, pid: u32) -> Seq<char> {
    "madalya-"@ + stamp + "-"@ + decimal(pid as nat) + ".log"@
}

/// Name of the log file of a run started at `stamp` (`YYYYmmdd-HHMMSS`)
/// by process `pid`; such names are what pruning looks for.
pub fn log_file_name(stamp: &str, pid: u32) -> (r: String)
    ensures
        r@ == spec_log_file_name(stamp@, pid),
{
    let head = concat2(app_id(), "-");
    let a = concat2(head.as_str(), stamp);
    let b = concat2(a.as_str(), "-");
    let c = concat2(b.as_str(), decimal_string(pid as u64).as_str());
    let r = concat2(c.as_str(), ".log");
    proof {
        reveal_strlit("madalya-");
        reveal_strlit("madalya");
        reveal_strlit("-");
        assert(r@ =~= spec_log_file_name(stamp@, pid));
    }
    r
}

/// A log file's name passes the pruning filter.
pub proof fn law_log_files_are_pruned_by_name(stamp: Seq<char>, pid: u32)
    ensures
        spec_is_log_name(spec_log_file_name(stamp, pid)),
{
    let n = spec_log_file_name(stamp, pid);
    reveal_strlit("madalya-");
    reveal_strlit("-");
    reveal_strlit(".log");
    assert(n.subrange(0, 8) =~= "madalya-"@);
    assert(n.subrange(n.len() - 4, n.len() as int) =~= ".log"@);
}

/// The log directory inside the user's state (or cache) directory `base`:
/// `<base>/<APP_ID>/logs`.
pub fn log_dir_in(base: &str) -> (r: String)
    ensures
        r@ == spec_join(spec_join(base@, "madalya"@), "logs"@),
{
    proof {
        reveal_strlit("madalya");
        reveal_strlit("logs");
    }
    let app = join_path(base, app_id());
    join_path(app.as_str(), "logs")
}

} // verus!
