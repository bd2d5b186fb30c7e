use vstd::prelude::*;
use crate::tree::{Entry, EntryView, entries_view, walked, walk};

verus! {

/// Size of one allocation cluster of the target filesystem.
pub const BYTES_PER_CLUSTER: u64 = 512;
/// Size of one directory entry.
pub const DIR_ENTRY_BYTES: u64 = 32;
/// Directory entries that fit in one cluster.
pub const ENTRIES_PER_CLUSTER: u64 = 16;
/// Name characters held by one long-filename entry.
pub const LFN_CHARS: u64 = 13;
/// Sectors the formatter reserves at the start of the volume, in bytes.
pub const RESERVED_BYTES: u64 = 4096;
/// Fixed root directory region of the small FAT layouts (512 entries).
pub const ROOT_REGION_BYTES: u64 = 16384;
/// Clusters counted before any file, as a safety margin.
pub const MARGIN_CLUSTERS: u64 = 3;
/// Table entries counted on top of the clusters, as a safety margin.
pub const MARGIN_TABLE_ENTRIES: u64 = 3;
/// Bytes of one table entry times the number of table copies.
pub const TABLE_BYTES_PER_CLUSTER: u64 = 8;
/// Entries a fresh directory starts with: `.`, `..` and a spare one.
pub const NEW_DIR_ENTRIES: u64 = 3;
/// Entries the root directory starts with.
pub const ROOT_ENTRIES: u64 = 1;

/// Why no size could be estimated.
#[derive(Debug, Clone, Copy, PartialEq, Eq, Structural)]
pub enum EstimateError {
    /// A `Close` without an open directory, or a directory left open.
    Unbalanced,
    /// A count or the size does not fit in 64 bits.
    TooLarge,
}

/// Directory entries taken by one name: a short entry and the long-filename ones.
pub open spec fn name_entries(name_len: nat) -> nat {
    (1 + (name_len + (LFN_CHARS - 1)) / (LFN_CHARS as int)) as nat
}

/// Clusters counted for a file of `len` bytes: `ceil((len + 511) / 512)`.
pub open spec fn file_clusters(len: nat) -> nat {
    ((len + (BYTES_PER_CLUSTER - 1) + (BYTES_PER_CLUSTER - 1)) / (BYTES_PER_CLUSTER as int)) as nat
}

/// `n` rounded up to a whole number of clusters of directory entries.
pub open spec fn align_entries(n: nat) -> nat {
    (((n + (ENTRIES_PER_CLUSTER - 1)) / (ENTRIES_PER_CLUSTER as int)) * ENTRIES_PER_CLUSTER) as nat
}

/// The counters of an estimate after a prefix of the traversal.
/// `open` holds one entry count per directory not closed yet, the root first.
pub struct Tally {
    pub files: nat,
    pub clusters: nat,
    pub entries: nat,
    pub open: Seq<nat>,
}

pub open spec fn initial_tally() -> Tally {
    Tally { files: 0, clusters: MARGIN_CLUSTERS as nat, entries: ROOT_ENTRIES as nat, open: seq![ROOT_ENTRIES as nat] }
}

pub open spec fn fits(n: nat) -> bool {
    n <= u64::MAX
}

/// `t` with `k` more entries in the innermost open directory.
pub open spec fn add_to_current(t: Tally, k: nat) -> Result<Tally, EstimateError> {
    let n = t.open.last() + k;
    if fits(n) {
        Ok(Tally { open: t.open.update(t.open.len() - 1, n), ..t })
    } else {
        Err(EstimateError::TooLarge)
    }
}

/// What one visited item does to the counters.
pub open spec fn step(t: Tally, e: EntryView) -> Result<Tally, EstimateError>
    recommends
        t.open.len() >= 1,
{
    match e {
        EntryView::Dir { name } => match add_to_current(t, name_entries(name.len())) {
            Ok(u) => Ok(Tally { open: u.open.push(NEW_DIR_ENTRIES as nat), ..u }),
            Err(err) => Err(err),
        },
        EntryView::File { name, len, .. } => {
            let files = t.files + 1;
            let clusters = t.clusters + file_clusters(len as nat);
            if fits(files) && fits(clusters) {
                add_to_current(Tally { files, clusters, ..t }, name_entries(name.len()))
            } else {
                Err(EstimateError::TooLarge)
            }
        },
        EntryView::Close => if t.open.len() <= 1 {
            Err(EstimateError::Unbalanced)
        } else {
            close_current(t)
        },
    }
}

/// The innermost open directory is closed: its entries, rounded up to whole
/// clusters, join the total, which is rounded up first.
pub open spec fn close_current(t: Tally) -> Result<Tally, EstimateError> {
    let n = align_entries(t.entries) + align_entries(t.open.last());
    if fits(n) {
        Ok(Tally { entries: n, open: t.open.drop_last(), ..t })
    } else {
        Err(EstimateError::TooLarge)
    }
}

/// The counters after visiting all of `s`, or the first error.
pub open spec fn tally(s: Seq<EntryView>) -> Result<Tally, EstimateError>
    decreases s.len(),
{
    if s.len() == 0 {
        Ok(initial_tally())
    } else {
        match tally(s.drop_last()) {
            Ok(t) => step(t, s.last()),
            Err(err) => Err(err),
        }
    }
}

/// Bytes of a volume for the final counters.
pub open spec fn volume_bytes(clusters: nat, entries: nat) -> nat {
    (clusters * BYTES_PER_CLUSTER + (clusters + MARGIN_TABLE_ENTRIES) * TABLE_BYTES_PER_CLUSTER + RESERVED_BYTES
        + ROOT_REGION_BYTES + entries * DIR_ENTRY_BYTES) as nat
}

/// The estimated volume size for a visited sequence of items: the root is
/// closed last, the entry total rounded up once more, and the size counted.
pub open spec fn estimated(s: Seq<EntryView>) -> Result<nat, EstimateError> {
    match tally(s) {
        Ok(t) => if t.open.len() != 1 {
            Err(EstimateError::Unbalanced)
        } else {
            match close_current(t) {
                Ok(u) => {
                    let size = volume_bytes(u.clusters, align_entries(u.entries));
                    if fits(align_entries(u.entries)) && fits(size) {
                        Ok(size)
                    } else {
                        Err(EstimateError::TooLarge)
                    }
                },
                Err(err) => Err(err),
            }
        },
        Err(err) => Err(err),
    }
}

pub open spec fn open_view(open: Seq<u64>) -> Seq<nat> {
    open.map_values(|x: u64| x as nat)
}

pub open spec fn result_view(r: Result<u64, EstimateError>) -> Result<nat, EstimateError> {
    match r {
        Ok(v) => Ok(v as nat),
        Err(err) => Err(err),
    }
}

/// Once counting has failed on a prefix, it fails the same way on the whole.
proof fn lemma_tally_error_stays(s: Seq<EntryView>, i: int)
    requires
        0 <= i <= s.len(),
        tally(s.subrange(0, i)) is Err,
    ensures
        tally(s) == tally(s.subrange(0, i)),
    decreases s.len() - i,
{
    if i < s.len() {
        let next = s.subrange(0, i + 1);
        assert(next.drop_last() =~= s.subrange(0, i));
        lemma_tally_error_stays(s, i + 1);
    } else {
        assert(s.subrange(0, i) =~= s);
    }
}

fn align_wide(n: u64) -> (r: u128)
    ensures
        r == align_entries(n as nat),
        r <= n + 15,
{
    let m: u128 = (n as u128 + 15) / 16;
    assert(m * 16 <= n + 15) by (nonlinear_arith)
        requires
            m == (n + 15) / 16,
    ;
    m * 16
}

fn name_entries_wide(name: &Vec<u8>) -> (r: u128)
    ensures
        r == name_entries(name@.len()),
        r <= u64::MAX,
{
    let len: u128 = name.len() as u128;
    1 + (len + 12) / 13
}

/// The size estimate for items in the order a traversal visits them.
pub fn estimate_visited(visits: &Vec<Entry>) -> (r: Result<u64, EstimateError>)
    ensures
        result_view(r) == estimated(entries_view(visits@)),
{
    let mut files: u64 = 0;
    let mut clusters: u64 = MARGIN_CLUSTERS;
    let mut entries: u64 = ROOT_ENTRIES;
    let mut open: Vec<u64> = vec![ROOT_ENTRIES];
    let ghost s = entries_view(visits@);
    assert(open_view(open@) =~= seq![ROOT_ENTRIES as nat]);
    let mut i: usize = 0;
    while i < visits.len()
        invariant
            i <= visits@.len(),
            s == entries_view(visits@),
            open@.len() >= 1,
            tally(s.subrange(0, i as int)) == Ok::<Tally, EstimateError>(Tally {
                files: files as nat,
                clusters: clusters as nat,
                entries: entries as nat,
                open: open_view(open@),
            }),
        decreases visits@.len() - i,
    {
        let ghost t = Tally {
            files: files as nat,
            clusters: clusters as nat,
            entries: entries as nat,
            open: open_view(open@),
        };
        let ghost next = s.subrange(0, i + 1);
        assert(next.drop_last() =~= s.subrange(0, i as int));
        assert(next.last() == visits@[i as int]@);
        assert(tally(next) == step(t, visits@[i as int]@));
        let top: usize = open.len() - 1;
        match &visits[i] {
            Entry::Dir { name } => {
                let n: u128 = open[top] as u128 + name_entries_wide(name);
                if n > u64::MAX as u128 {
                    proof { lemma_tally_error_stays(s, i + 1); }
                    return Err(EstimateError::TooLarge);
                }
                open.set(top, n as u64);
                open.push(NEW_DIR_ENTRIES);
            },
            Entry::File { name, len, .. } => {
                let f: u128 = files as u128 + 1;
                let c: u128 = clusters as u128 + (*len as u128 + 1022) / 512;
                if f > u64::MAX as u128 || c > u64::MAX as u128 {
                    proof { lemma_tally_error_stays(s, i + 1); }
                    return Err(EstimateError::TooLarge);
                }
                let n: u128 = open[top] as u128 + name_entries_wide(name);
                if n > u64::MAX as u128 {
                    proof { lemma_tally_error_stays(s, i + 1); }
                    return Err(EstimateError::TooLarge);
                }
                files = f as u64;
                clusters = c as u64;
                open.set(top, n as u64);
            },
            Entry::Close => {
                if open.len() <= 1 {
                    proof { lemma_tally_error_stays(s, i + 1); }
                    return Err(EstimateError::Unbalanced);
                }
                let n: u128 = align_wide(entries) + align_wide(open[top]);
                if n > u64::MAX as u128 {
                    proof { lemma_tally_error_stays(s, i + 1); }
                    return Err(EstimateError::TooLarge);
                }
                entries = n as u64;
                open.pop();
            },
        }
        let ghost u = Tally {
            files: files as nat,
            clusters: clusters as nat,
            entries: entries as nat,
            open: open_view(open@),
        };
        assert(step(t, visits@[i as int]@) == Ok::<Tally, EstimateError>(u)) by {
            match visits@[i as int]@ {
                EntryView::Close => {
                    assert(open_view(open@) =~= t.open.drop_last());
                },
                EntryView::Dir { name } => {
                    let w = t.open.update(t.open.len() - 1, t.open.last() + name_entries(name.len()));
                    assert(open_view(open@) =~= w.push(NEW_DIR_ENTRIES as nat));
                },
                EntryView::File { name, len, .. } => {
                    let w = t.open.update(t.open.len() - 1, t.open.last() + name_entries(name.len()));
                    assert(open_view(open@) =~= w);
                },
            }
        }
        i += 1;
    }
    assert(s.subrange(0, visits@.len() as int) =~= s);
    if open.len() != 1 {
        return Err(EstimateError::Unbalanced);
    }
    let total: u128 = align_wide(entries) + align_wide(open[0]);
    if total > u64::MAX as u128 {
        return Err(EstimateError::TooLarge);
    }
    let final_entries: u128 = align_wide(total as u64);
    if final_entries > u64::MAX as u128 {
        return Err(EstimateError::TooLarge);
    }
    let c: u128 = clusters as u128;
    let size: u128 = c * (BYTES_PER_CLUSTER as u128) + (c + (MARGIN_TABLE_ENTRIES as u128)) * (TABLE_BYTES_PER_CLUSTER as u128)
        + (RESERVED_BYTES as u128) + (ROOT_REGION_BYTES as u128) + final_entries * (DIR_ENTRY_BYTES as u128);
    if size > u64::MAX as u128 {
        return Err(EstimateError::TooLarge);
    }
    Ok(size as u64)
}

/// Bytes of all files among the items.
pub open spec fn file_bytes(s: Seq<EntryView>) -> nat
    decreases s.len(),
{
    if s.len() == 0 {
        0
    } else {
        file_bytes(s.drop_last()) + match s.last() {
            EntryView::File { len, .. } => len as nat,
            _ => 0,
        }
    }
}

proof fn lemma_clusters_cover_files(s: Seq<EntryView>)
    ensures
        tally(s) matches Ok(t) ==> t.clusters * 512 >= file_bytes(s) + MARGIN_CLUSTERS * 512,
    decreases s.len(),
{
    if s.len() > 0 {
        lemma_clusters_cover_files(s.drop_last());
        if let Ok(t0) = tally(s.drop_last()) {
            if let EntryView::File { len, .. } = s.last() {
                let c = file_clusters(len as nat);
                assert(c * 512 >= len) by (nonlinear_arith)
                    requires
                        c == (len + 511 + 511) / 512,
                ;
                assert((t0.clusters + c) * 512 == t0.clusters * 512 + c * 512) by (nonlinear_arith);
            }
        }
    }
}

/// Directory entries the names of all visited directories and files take.
pub open spec fn name_entry_total(s: Seq<EntryView>) -> nat
    decreases s.len(),
{
    if s.len() == 0 {
        0
    } else {
        name_entry_total(s.drop_last()) + match s.last() {
            EntryView::Dir { name } => name_entries(name.len()),
            EntryView::File { name, .. } => name_entries(name.len()),
            EntryView::Close => 0,
        }
    }
}

pub open spec fn seq_sum(q: Seq<nat>) -> nat
    decreases q.len(),
{
    if q.len() == 0 {
        0
    } else {
        seq_sum(q.drop_last()) + q.last()
    }
}

proof fn lemma_align_entries_grows(n: nat)
    ensures
        align_entries(n) >= n,
{
    let m = (n + 15) / 16;
    assert(m * 16 >= n) by (nonlinear_arith)
        requires
            m == (n + 15) / 16,
    ;
}

proof fn lemma_entries_cover_names(s: Seq<EntryView>)
    ensures
        tally(s) matches Ok(t) ==> t.open.len() >= 1 && t.entries + seq_sum(t.open) >= name_entry_total(s),
    decreases s.len(),
{
    if s.len() == 0 {
        let q = seq![ROOT_ENTRIES as nat];
        assert(q.drop_last() =~= Seq::<nat>::empty());
        assert(seq_sum(q) == seq_sum(q.drop_last()) + q.last());
    } else {
        lemma_entries_cover_names(s.drop_last());
        if let Ok(t0) = tally(s.drop_last()) {
            let q = t0.open;
            let last = (q.len() - 1) as int;
            match s.last() {
                EntryView::Close => {
                    lemma_align_entries_grows(t0.entries);
                    lemma_align_entries_grows(q.last());
                    assert(seq_sum(q) == seq_sum(q.drop_last()) + q.last());
                },
                EntryView::Dir { name } => {
                    let w = q.update(last, q.last() + name_entries(name.len()));
                    let w2 = w.push(NEW_DIR_ENTRIES as nat);
                    assert(w.drop_last() =~= q.drop_last());
                    assert(w2.drop_last() =~= w);
                    assert(seq_sum(q) == seq_sum(q.drop_last()) + q.last());
                    assert(seq_sum(w) == seq_sum(w.drop_last()) + w.last());
                    assert(seq_sum(w2) == seq_sum(w2.drop_last()) + w2.last());
                },
                EntryView::File { name, .. } => {
                    let w = q.update(last, q.last() + name_entries(name.len()));
                    assert(w.drop_last() =~= q.drop_last());
                    assert(seq_sum(q) == seq_sum(q.drop_last()) + q.last());
                    assert(seq_sum(w) == seq_sum(w.drop_last()) + w.last());
                },
            }
        }
    }
}

/// The estimate leaves room for the bytes of every visited file and for the
/// directory entries of every visited name, short and long-filename ones, on
/// top of the reserved sectors and the fixed root directory region.
pub proof fn estimate_covers_files_and_names(s: Seq<EntryView>)
    ensures
        estimated(s) matches Ok(v) ==> v >= file_bytes(s) + RESERVED_BYTES + ROOT_REGION_BYTES + name_entry_total(s)
            * DIR_ENTRY_BYTES,
{
    lemma_clusters_cover_files(s);
    lemma_entries_cover_names(s);
    if let Ok(t) = tally(s) {
        if t.open.len() == 1 {
            assert(t.open.drop_last() =~= Seq::<nat>::empty());
            assert(seq_sum(t.open) == seq_sum(t.open.drop_last()) + t.open.last());
            lemma_align_entries_grows(t.entries);
            lemma_align_entries_grows(t.open.last());
            let n = align_entries(t.entries) + align_entries(t.open.last());
            lemma_align_entries_grows(n);
            let e = align_entries(n);
            assert(e * 32 >= name_entry_total(s) * 32) by (nonlinear_arith)
                requires
                    e >= name_entry_total(s),
            ;
        }
    }
}

/// The filesystem an image is formatted with.
#[derive(Debug, Clone, Copy, PartialEq, Eq, Structural)]
pub enum Filesystem {
    Vfat,
}

impl Filesystem {
    /// The volume size, in bytes, that holds the scanned tree, visited with the
    /// given symbolic-link policy, together with the filesystem's own metadata.
    pub fn estimate_size(&self, scan: &Vec<Entry>, follow_symlinks: bool) -> (r: Result<u64, EstimateError>)
        ensures
            result_view(r) == estimated(walked(entries_view(scan@), follow_symlinks)),
    {
        match self {
            Filesystem::Vfat => {
                let visits = walk(scan, follow_symlinks);
                estimate_visited(&visits)
            },
        }
    }
}

/// The size the filesystem gets: the one asked for, or else the estimate.
pub fn payload_size(requested: Option<u64>, filesystem: Filesystem, scan: &Vec<Entry>, follow_symlinks: bool) -> (r: Result<u64, EstimateError>)
    ensures
        match requested {
            Some(v) => r == Ok::<u64, EstimateError>(v),
            None => result_view(r) == estimated(walked(entries_view(scan@), follow_symlinks)),
        },
{
    match requested {
        Some(v) => Ok(v),
        None => filesystem.estimate_size(scan, follow_symlinks),
    }
}

} // verus!
