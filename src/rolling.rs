use vstd::prelude::*;

use crate::rotation::{bucket_for, bucket_of, crosses_boundary, lemma_bucket_windows, RotationPolicy};

verus! {

/// The bucket of second `t`, as stored in a file list.
pub open spec fn bucket_u64(p: RotationPolicy, t: u64) -> u64 {
    bucket_of(p, t as nat) as u64
}

pub open spec fn strictly_increasing(s: Seq<u64>) -> bool {
    forall|i: int, j: int| 0 <= i < j < s.len() ==> s[i] < s[j]
}

pub open spec fn nondecreasing(s: Seq<u64>) -> bool {
    forall|i: int, j: int| 0 <= i <= j < s.len() ==> s[i] <= s[j]
}

/// The files left after retention: the `max` most recent ones, or all of
/// them when `max` is 0 (no limit).
pub open spec fn keep_recent(files: Seq<u64>, max: nat) -> Seq<u64> {
    if max == 0 || files.len() <= max {
        files
    } else {
        files.subrange(files.len() - max, files.len() as int)
    }
}

/// The files that retention removes: the oldest ones beyond the `max` most recent.
pub open spec fn surplus(files: Seq<u64>, max: nat) -> Seq<u64> {
    if max == 0 || files.len() <= max {
        Seq::empty()
    } else {
        files.subrange(0, files.len() - max)
    }
}

/// What a rolling writer knows: the bucket of its open file, and the
/// buckets of the files on disk, oldest first (the open one last).
pub struct RollingModel {
    pub current: Option<u64>,
    pub files: Seq<u64>,
}

/// One write at second `t`: a later bucket opens a new file and retention
/// runs; otherwise the record is appended to the open file.
pub open spec fn write_step(p: RotationPolicy, max: nat, m: RollingModel, t: u64) -> RollingModel {
    let b = bucket_u64(p, t);
    match m.current {
        Some(c) if b <= c => m,
        _ => RollingModel { current: Some(b), files: keep_recent(m.files.push(b), max) },
    }
}

/// The model after writing at each second of `ts` in turn, from an empty directory.
pub open spec fn writes(p: RotationPolicy, max: nat, ts: Seq<u64>) -> RollingModel
    decreases ts.len(),
{
    if ts.len() == 0 {
        RollingModel { current: None, files: Seq::empty() }
    } else {
        write_step(p, max, writes(p, max, ts.drop_last()), ts.last())
    }
}

/// The buckets whose files were opened while writing at each second of `ts`.
pub open spec fn opened(p: RotationPolicy, ts: Seq<u64>) -> Seq<u64>
    decreases ts.len(),
{
    if ts.len() == 0 {
        Seq::empty()
    } else {
        let prev = opened(p, ts.drop_last());
        let b = bucket_u64(p, ts.last());
        if prev.len() == 0 || b > prev.last() {
            prev.push(b)
        } else {
            prev
        }
    }
}

/// What the owner of the file handle has to do for one write.
#[derive(Debug, Clone, PartialEq, Eq)]
pub enum WriteAction {
    /// Append to the file that is open.
    Append,
    /// Close the open file, open (or create) the file of bucket `open`,
    /// append to it, and delete the files of the buckets in `delete`.
    Rotate { open: u64, delete: Vec<u64> },
}

/// The state of the file sink's writer: which file is open and which files
/// the directory holds.
pub struct RollingState {
    pub policy: RotationPolicy,
    /// Largest number of files kept on disk; 0 keeps them all.
    pub max_files: usize,
    pub current: Option<u64>,
    /// Buckets of the files on disk, oldest first.
    pub files: Vec<u64>,
}

impl RollingState {
    pub open spec fn model(&self) -> RollingModel {
        RollingModel { current: self.current, files: self.files@ }
    }

    /// The open file is the newest one on disk, files are in bucket order,
    /// and no more than `max_files` of them are kept.
    pub open spec fn wf(&self) -> bool {
        &&& strictly_increasing(self.files@)
        &&& (self.current is None <==> self.files@.len() == 0)
        &&& (self.current matches Some(c) ==> self.files@.last() == c)
        &&& (self.max_files > 0 ==> self.files@.len() <= self.max_files)
    }

    /// A writer that has not opened any file yet.
    pub fn new(policy: RotationPolicy, max_files: usize) -> (r: RollingState)
        ensures
            r.wf(),
            r.policy == policy,
            r.max_files == max_files,
            r.model() == writes(policy, max_files as nat, Seq::empty()),
    {
        RollingState { policy, max_files, current: None, files: Vec::new() }
    }

    /// Decides what a write at `timestamp` does, and records its effect on
    /// the directory.
    pub fn on_write(&mut self, timestamp: u64) -> (action: WriteAction)
        requires
            old(self).wf(),
        ensures
            final(self).wf(),
            final(self).policy == old(self).policy,
            final(self).max_files == old(self).max_files,
            final(self).model() == write_step(
                old(self).policy,
                old(self).max_files as nat,
                old(self).model(),
                timestamp,
            ),
            match action {
                WriteAction::Append => final(self).model() == old(self).model(),
                WriteAction::Rotate { open, delete } => {
                    &&& open == bucket_u64(old(self).policy, timestamp)
                    &&& final(self).current == Some(open)
                    &&& delete@ == surplus(old(self).files@.push(open), old(self).max_files as nat)
                },
            },
            old(self).max_files == 0 ==> (action matches WriteAction::Rotate { delete, .. } ==> delete@.len() == 0),
            (action is Rotate) <==> (old(self).current matches Some(c) ==> bucket_u64(
                old(self).policy,
                timestamp,
            ) > c),
    {
        if !crosses_boundary(self.policy, self.current, timestamp) {
            return WriteAction::Append;
        }
        let b = bucket_for(self.policy, timestamp);
        let ghost old_files = self.files@;
        let ghost all = old_files.push(b);
        let ghost n = old_files.len() + 1;
        let cut: usize = if self.max_files == 0 || self.files.len() < self.max_files {
            0
        } else {
            self.files.len() - (self.max_files - 1)
        };
        let mut delete: Vec<u64> = Vec::new();
        let mut kept: Vec<u64> = Vec::new();
        let mut i: usize = 0;
        while i < self.files.len()
            invariant
                self.files@ == old_files,
                all == old_files.push(b),
                cut < n,
                n == old_files.len() + 1,
                i <= old_files.len(),
                delete@ == all.subrange(0, if i < cut { i as int } else { cut as int }),
                kept@ == all.subrange(cut as int, if i < cut { cut as int } else { i as int }),
            decreases self.files.len() - i,
        {
            let f = self.files[i];
            if i < cut {
                delete.push(f);
            } else {
                kept.push(f);
            }
            i = i + 1;
            assert(delete@ =~= all.subrange(0, if i < cut { i as int } else { cut as int }));
            assert(kept@ =~= all.subrange(cut as int, if i < cut { cut as int } else { i as int }));
        }
        kept.push(b);
        assert(kept@ =~= keep_recent(all, self.max_files as nat));
        assert(delete@ =~= surplus(all, self.max_files as nat));
        proof {
            if let Some(c) = self.current {
                assert(b > c);
            }
        }
        self.files = kept;
        self.current = Some(b);
        WriteAction::Rotate { open: b, delete }
    }
}

/// Retention keeps exactly the most recent files: after any sequence of
/// writes the files on disk are the last `max` of the buckets opened (all of
/// them when `max` is 0), the buckets are opened in increasing order, and,
/// when the writes come in time order, the buckets opened are exactly the
/// distinct buckets of the writes.
pub proof fn lemma_retention_keeps_recent(p: RotationPolicy, max: nat, ts: Seq<u64>)
    ensures
        writes(p, max, ts).files == keep_recent(opened(p, ts), max),
        max == 0 ==> writes(p, max, ts).files == opened(p, ts),
        strictly_increasing(opened(p, ts)),
        max > 0 ==> writes(p, max, ts).files.len() == if opened(p, ts).len() < max {
            opened(p, ts).len()
        } else {
            max
        },
        forall|j: int|
            #![trigger opened(p, ts)[j]]
            0 <= j < opened(p, ts).len() ==> exists|i: int|
                0 <= i < ts.len() && opened(p, ts)[j] == #[trigger] bucket_u64(p, ts[i]),
        nondecreasing(ts) ==> forall|i: int|
            0 <= i < ts.len() ==> opened(p, ts).contains(#[trigger] bucket_u64(p, ts[i])),
{
    lemma_writes_files(p, max, ts);
    lemma_writes_current(p, max, ts);
    lemma_opened_from_writes(p, ts);
    if nondecreasing(ts) {
        lemma_opened_covers(p, ts);
    }
}

proof fn lemma_writes_files(p: RotationPolicy, max: nat, ts: Seq<u64>)
    ensures
        writes(p, max, ts).files == keep_recent(opened(p, ts), max),
    decreases ts.len(),
{
    lemma_writes_current(p, max, ts);
    if ts.len() > 0 {
        let pre = ts.drop_last();
        lemma_writes_files(p, max, pre);
        lemma_writes_current(p, max, pre);
        let prev = opened(p, pre);
        let b = bucket_u64(p, ts.last());
        if prev.len() == 0 || b > prev.last() {
            lemma_keep_recent_push(prev, b, max);
        }
    }
}

/// Every bucket opened is the bucket of some write.
proof fn lemma_opened_from_writes(p: RotationPolicy, ts: Seq<u64>)
    ensures
        forall|j: int|
            #![trigger opened(p, ts)[j]]
            0 <= j < opened(p, ts).len() ==> exists|i: int|
                0 <= i < ts.len() && opened(p, ts)[j] == #[trigger] bucket_u64(p, ts[i]),
    decreases ts.len(),
{
    if ts.len() > 0 {
        let pre = ts.drop_last();
        lemma_opened_from_writes(p, pre);
        let prev = opened(p, pre);
        let o = opened(p, ts);
        assert forall|j: int| #![trigger o[j]] 0 <= j < o.len() implies exists|i: int|
            0 <= i < ts.len() && o[j] == #[trigger] bucket_u64(p, ts[i]) by {
            if j < prev.len() {
                assert(o[j] == prev[j]);
                let i = choose|i: int| 0 <= i < pre.len() && prev[j] == #[trigger] bucket_u64(p, pre[i]);
                assert(ts[i] == pre[i]);
            } else {
                assert(ts[ts.len() - 1] == ts.last());
            }
        }
    }
}

/// When writes come in time order, the bucket of every write is opened.
proof fn lemma_opened_covers(p: RotationPolicy, ts: Seq<u64>)
    requires
        nondecreasing(ts),
    ensures
        forall|i: int| 0 <= i < ts.len() ==> opened(p, ts).contains(#[trigger] bucket_u64(p, ts[i])),
    decreases ts.len(),
{
    if ts.len() > 0 {
        let pre = ts.drop_last();
        assert(nondecreasing(pre));
        lemma_opened_covers(p, pre);
        let prev = opened(p, pre);
        let o = opened(p, ts);
        let b = bucket_u64(p, ts.last());
        assert(o.len() > 0 && o.last() == b) by {
            lemma_opened_last(p, ts);
        }
        assert forall|i: int| 0 <= i < ts.len() implies o.contains(#[trigger] bucket_u64(p, ts[i])) by {
            if i < pre.len() {
                assert(ts[i] == pre[i]);
                assert(prev.contains(bucket_u64(p, pre[i])));
                let k = choose|k: int| 0 <= k < prev.len() && prev[k] == bucket_u64(p, pre[i]);
                assert(o[k] == prev[k]);
            } else {
                assert(ts[i] == ts.last());
                assert(o[o.len() - 1] == b);
            }
        }
    }
}

/// The last bucket opened is the bucket of the last write, when writes come
/// in time order.
proof fn lemma_opened_last(p: RotationPolicy, ts: Seq<u64>)
    requires
        ts.len() > 0,
        nondecreasing(ts),
    ensures
        opened(p, ts).len() > 0,
        opened(p, ts).last() == bucket_u64(p, ts.last()),
    decreases ts.len(),
{
    let pre = ts.drop_last();
    lemma_bucket_windows(p, ts.last() as nat, ts.last() as nat);
    if pre.len() > 0 {
        assert(nondecreasing(pre));
        lemma_opened_last(p, pre);
        assert(pre.last() == ts[ts.len() - 2]);
        assert(ts[ts.len() - 2] <= ts[ts.len() - 1]);
        lemma_bucket_windows(p, pre.last() as nat, ts.last() as nat);
        assert(bucket_u64(p, pre.last()) <= bucket_u64(p, ts.last()));
    } else {
        assert(opened(p, pre) =~= Seq::<u64>::empty());
    }
    let prev = opened(p, pre);
    let b = bucket_u64(p, ts.last());
    if prev.len() == 0 || b > prev.last() {
        assert(opened(p, ts) == prev.push(b));
    } else {
        assert(opened(p, ts) == prev);
    }
}

/// The writer's open bucket is the last bucket opened.
proof fn lemma_writes_current(p: RotationPolicy, max: nat, ts: Seq<u64>)
    ensures
        writes(p, max, ts).current == if opened(p, ts).len() == 0 {
            None
        } else {
            Some(opened(p, ts).last())
        },
        strictly_increasing(opened(p, ts)),
    decreases ts.len(),
{
    if ts.len() > 0 {
        lemma_writes_current(p, max, ts.drop_last());
    }
}

proof fn lemma_keep_recent_push(s: Seq<u64>, b: u64, max: nat)
    ensures
        keep_recent(keep_recent(s, max).push(b), max) == keep_recent(s.push(b), max),
{
    assert(keep_recent(keep_recent(s, max).push(b), max) =~= keep_recent(s.push(b), max));
}

} // verus!
