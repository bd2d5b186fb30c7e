use vstd::prelude::*;

verus! {

/// One item of a scanned directory tree, in the order the scan produced it.
///
/// A `Dir` opens a directory: the items after it, up to its matching `Close`,
/// lie inside it. Names are the raw bytes of the last path component.
#[derive(Debug)]
pub enum Entry {
    Dir { name: Vec<u8> },
    File { name: Vec<u8>, len: u64, is_symlink: bool },
    Close,
}

/// The mathematical value of an `Entry`.
pub enum EntryView {
    Dir { name: Seq<u8> },
    File { name: Seq<u8>, len: u64, is_symlink: bool },
    Close,
}

impl View for Entry {
    type V = EntryView;

    open spec fn view(&self) -> EntryView {
        match self {
            Entry::Dir { name } => EntryView::Dir { name: name@ },
            Entry::File { name, len, is_symlink } => EntryView::File {
                name: name@,
                len: *len,
                is_symlink: *is_symlink,
            },
            Entry::Close => EntryView::Close,
        }
    }
}

pub open spec fn entries_view(v: Seq<Entry>) -> Seq<EntryView> {
    v.map_values(|e: Entry| e@)
}

/// A symbolic link to a file is left out unless links are followed.
pub open spec fn is_skipped(e: EntryView, follow_symlinks: bool) -> bool {
    match e {
        EntryView::File { is_symlink, .. } => is_symlink && !follow_symlinks,
        _ => false,
    }
}

/// The items a traversal visits, in order: the scan with skipped links removed.
pub open spec fn walked(s: Seq<EntryView>, follow_symlinks: bool) -> Seq<EntryView>
    decreases s.len(),
{
    if s.len() == 0 {
        seq![]
    } else {
        let rest = walked(s.drop_last(), follow_symlinks);
        if is_skipped(s.last(), follow_symlinks) {
            rest
        } else {
            rest.push(s.last())
        }
    }
}

fn copy_bytes(v: &Vec<u8>) -> (r: Vec<u8>)
    ensures
        r@ == v@,
{
    let r = v.clone();
    assert(r@ =~= v@);
    r
}

impl Entry {
    pub fn copy(&self) -> (r: Entry)
        ensures
            r@ == self@,
    {
        match self {
            Entry::Dir { name } => Entry::Dir { name: copy_bytes(name) },
            Entry::File { name, len, is_symlink } => Entry::File {
                name: copy_bytes(name),
                len: *len,
                is_symlink: *is_symlink,
            },
            Entry::Close => Entry::Close,
        }
    }

    pub fn is_skipped(&self, follow_symlinks: bool) -> (r: bool)
        ensures
            r == is_skipped(self@, follow_symlinks),
    {
        match self {
            Entry::File { is_symlink, .. } => *is_symlink && !follow_symlinks,
            _ => false,
        }
    }
}

/// The traversal order of a scanned tree: every directory, every close and
/// every file, in scan order, except symbolic links to files when links are
/// not followed.
pub fn walk(scan: &Vec<Entry>, follow_symlinks: bool) -> (r: Vec<Entry>)
    ensures
        entries_view(r@) == walked(entries_view(scan@), follow_symlinks),
{
    let mut r: Vec<Entry> = Vec::new();
    let mut i: usize = 0;
    while i < scan.len()
        invariant
            i <= scan@.len(),
            entries_view(r@) == walked(entries_view(scan@.subrange(0, i as int)), follow_symlinks),
        decreases scan@.len() - i,
    {
        let ghost pre = entries_view(scan@.subrange(0, i as int));
        let ghost next = entries_view(scan@.subrange(0, i + 1));
        assert(next.drop_last() =~= pre);
        assert(next.last() == scan@[i as int]@);
        if !scan[i].is_skipped(follow_symlinks) {
            let ghost before = r@;
            let e = scan[i].copy();
            r.push(e);
            assert(entries_view(r@) =~= entries_view(before).push(scan@[i as int]@));
        }
        i += 1;
    }
    assert(scan@.subrange(0, scan@.len() as int) =~= scan@);
    r
}

pub open spec fn is_link(e: EntryView) -> bool {
    e matches EntryView::File { is_symlink: true, .. }
}

/// When symbolic links are followed, the traversal visits every scanned item,
/// in scan order.
pub proof fn following_links_keeps_everything(s: Seq<EntryView>)
    ensures
        walked(s, true) == s,
    decreases s.len(),
{
    if s.len() > 0 {
        following_links_keeps_everything(s.drop_last());
        assert(s.drop_last().push(s.last()) =~= s);
    }
}

/// A tree without symbolic links is visited whole and in scan order, whatever
/// the link policy: the copy pass mirrors every directory and file.
pub proof fn tree_without_links_is_mirrored(s: Seq<EntryView>, follow_symlinks: bool)
    requires
        forall|i: int| 0 <= i < s.len() ==> !is_link(#[trigger] s[i]),
    ensures
        walked(s, follow_symlinks) == s,
    decreases s.len(),
{
    if s.len() > 0 {
        assert(!is_link(s[s.len() - 1]));
        tree_without_links_is_mirrored(s.drop_last(), follow_symlinks);
        assert(s.drop_last().push(s.last()) =~= s);
    }
}

proof fn lemma_push_contains(q: Seq<EntryView>, e: EntryView, x: EntryView)
    ensures
        q.push(e).contains(x) <==> (q.contains(x) || x == e),
{
    let r = q.push(e);
    assert(r[q.len() as int] == e);
    if q.contains(x) {
        let k = choose|k: int| 0 <= k < q.len() && q[k] == x;
        assert(r[k] == x);
    }
    if r.contains(x) && x != e {
        let k = choose|k: int| 0 <= k < r.len() && r[k] == x;
        assert(q[k] == x);
    }
}

/// When symbolic links are not followed, the traversal visits exactly the
/// scanned items that are not links to files.
pub proof fn skipping_links_drops_only_links(s: Seq<EntryView>)
    ensures
        forall|x: EntryView| #[trigger] walked(s, false).contains(x) <==> (s.contains(x) && !is_link(x)),
    decreases s.len(),
{
    if s.len() > 0 {
        let p = s.drop_last();
        let l = s.last();
        let w = walked(p, false);
        skipping_links_drops_only_links(p);
        assert(p.push(l) =~= s);
        assert(is_skipped(l, false) == is_link(l));
        assert(walked(s, false) == (if is_link(l) { w } else { w.push(l) }));
        assert forall|x: EntryView| #[trigger] walked(s, false).contains(x) <==> (s.contains(x) && !is_link(x)) by {
            lemma_push_contains(p, l, x);
            lemma_push_contains(w, l, x);
            assert(w.contains(x) <==> (p.contains(x) && !is_link(x)));
        }
    }
}

} // verus!
