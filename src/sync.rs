//! Copying a checked-out source tree into the destination.
//!
//! The copy is additive: files of the destination that the source lacks stay.
//! The source's own metadata directory is not part of its tree and is never
//! copied.
use vstd::prelude::*;

verus! {

/// A relative path, one component per element.
pub type PathView = Seq<Seq<char>>;

/// One entry of the source tree, by its path relative to the source root.
pub struct SourceEntry {
    pub path: Vec<String>,
    pub is_dir: bool,
}

pub struct EntryView {
    pub path: PathView,
    pub is_dir: bool,
}

pub open spec fn path_view(p: Vec<String>) -> PathView {
    p@.map_values(|s: String| s@)
}

impl View for SourceEntry {
    type V = EntryView;

    open spec fn view(&self) -> EntryView {
        EntryView { path: path_view(self.path), is_dir: self.is_dir }
    }
}

/// One filesystem operation of a copy, by a path relative to both roots.
pub enum CopyOp {
    /// Create this directory of the destination if it is absent.
    MakeDir(Vec<String>),
    /// Copy this file from the source over the destination's.
    CopyFile(Vec<String>),
}

pub enum OpView {
    MakeDir(PathView),
    CopyFile(PathView),
}

impl View for CopyOp {
    type V = OpView;

    open spec fn view(&self) -> OpView {
        match self {
            CopyOp::MakeDir(p) => OpView::MakeDir(path_view(*p)),
            CopyOp::CopyFile(p) => OpView::CopyFile(path_view(*p)),
        }
    }
}

/// Whether a path lies in the version-control metadata directory.
pub open spec fn in_metadata(p: PathView) -> bool {
    p.len() > 0 && p[0] == ".git"@
}

pub open spec fn op_of(e: EntryView) -> OpView {
    if e.is_dir {
        OpView::MakeDir(e.path)
    } else {
        OpView::CopyFile(e.path)
    }
}

/// The operations for the entries, in their order, metadata left out.
pub open spec fn entry_ops(es: Seq<EntryView>) -> Seq<OpView>
    decreases es.len(),
{
    if es.len() == 0 {
        seq![]
    } else if in_metadata(es.last().path) {
        entry_ops(es.drop_last())
    } else {
        entry_ops(es.drop_last()).push(op_of(es.last()))
    }
}

/// The whole plan: the destination root first, then one operation per entry.
pub open spec fn plan_of(es: Seq<EntryView>) -> Seq<OpView> {
    seq![OpView::MakeDir(seq![])] + entry_ops(es)
}

/// A tree's files: relative path to content.
pub type FilesView = Map<PathView, Seq<u8>>;

/// The files of `dest` after the operations copy from `src`.
pub open spec fn apply_ops(dest: FilesView, src: FilesView, ops: Seq<OpView>) -> FilesView
    decreases ops.len(),
{
    if ops.len() == 0 {
        dest
    } else {
        let before = apply_ops(dest, src, ops.drop_last());
        match ops.last() {
            OpView::MakeDir(_) => before,
            OpView::CopyFile(p) => before.insert(p, src[p]),
        }
    }
}

/// The paths of the files that the entries list outside the metadata.
pub open spec fn copied_paths(es: Seq<EntryView>) -> Set<PathView> {
    Set::new(
        |p: PathView|
            !in_metadata(p) && exists|i: int| 0 <= i < es.len() && !es[i].is_dir && es[i].path == p,
    )
}

fn clone_path(p: &Vec<String>) -> (r: Vec<String>)
    ensures
        path_view(r) == path_view(*p),
{
    let mut r: Vec<String> = Vec::new();
    let mut i: usize = 0;
    while i < p.len()
        invariant
            i <= p@.len(),
            r@.len() == i,
            forall|j: int| 0 <= j < i ==> r@[j]@ == p@[j]@,
        decreases p@.len() - i,
    {
        r.push(p[i].clone());
        i = i + 1;
    }
    assert(path_view(r) =~= path_view(*p));
    r
}

fn is_metadata_path(p: &Vec<String>) -> (r: bool)
    ensures
        r == in_metadata(path_view(*p)),
{
    if p.len() == 0 {
        return false;
    }
    let name = ".git".to_owned();
    p[0] == name
}

/// The operations that copy the listed source tree into the destination:
/// create the destination root, then for each entry in order create its
/// directory or copy its file. Entries under the metadata directory are
/// skipped; nothing is ever removed.
pub fn copy_plan(entries: &Vec<SourceEntry>) -> (r: Vec<CopyOp>)
    ensures
        r@.map_values(|o: CopyOp| o@) == plan_of(entries@.map_values(|e: SourceEntry| e@)),
{
    let ghost es = entries@.map_values(|e: SourceEntry| e@);
    let mut r: Vec<CopyOp> = Vec::new();
    let root: Vec<String> = Vec::new();
    assert(path_view(root) =~= seq![]);
    r.push(CopyOp::MakeDir(root));
    assert(es.take(0) =~= seq![]);
    assert(entry_ops(es.take(0)) =~= seq![]);
    assert(r@.map_values(|o: CopyOp| o@) =~= plan_of(es.take(0)));
    let mut i: usize = 0;
    while i < entries.len()
        invariant
            i <= entries@.len(),
            es == entries@.map_values(|e: SourceEntry| e@),
            r@.map_values(|o: CopyOp| o@) == plan_of(es.take(i as int)),
        decreases entries@.len() - i,
    {
        let e = &entries[i];
        assert(es.take(i + 1).drop_last() =~= es.take(i as int));
        let ghost before = r@;
        if !is_metadata_path(&e.path) {
            let p = clone_path(&e.path);
            if e.is_dir {
                r.push(CopyOp::MakeDir(p));
            } else {
                r.push(CopyOp::CopyFile(p));
            }
            assert(r@.map_values(|o: CopyOp| o@) =~= before.map_values(|o: CopyOp| o@).push(
                op_of(es[i as int]),
            ));
        }
        i = i + 1;
        assert(r@.map_values(|o: CopyOp| o@) =~= plan_of(es.take(i as int)));
    }
    assert(es.take(entries@.len() as int) =~= es);
    r
}

proof fn lemma_entry_ops(dest: FilesView, src: FilesView, es: Seq<EntryView>)
    requires
        forall|p: PathView| #[trigger] copied_paths(es).contains(p) ==> src.contains_key(p),
    ensures
        apply_ops(dest, src, entry_ops(es)) == dest.union_prefer_right(
            src.restrict(copied_paths(es)),
        ),
    decreases es.len(),
{
    if es.len() == 0 {
        assert(copied_paths(es) =~= Set::empty());
        assert(dest.union_prefer_right(src.restrict(copied_paths(es))) =~= dest);
    } else {
        let init = es.drop_last();
        let e = es.last();
        let fresh = !in_metadata(e.path) && !e.is_dir;
        assert forall|p: PathView| #[trigger] copied_paths(init).contains(p) implies copied_paths(
            es,
        ).contains(p) by {
            let i = choose|i: int| 0 <= i < init.len() && !init[i].is_dir && init[i].path == p;
            assert(es[i] == init[i]);
        }
        assert forall|p: PathView| #[trigger] copied_paths(es).contains(p) implies (
        copied_paths(init).contains(p) || (fresh && e.path == p)) by {
            let i = choose|i: int| 0 <= i < es.len() && !es[i].is_dir && es[i].path == p;
            if i < es.len() - 1 {
                assert(init[i] == es[i]);
            }
        }
        lemma_entry_ops(dest, src, init);
        let before = apply_ops(dest, src, entry_ops(init));
        if fresh {
            assert(copied_paths(es).contains(e.path));
            assert(copied_paths(es) =~= copied_paths(init).insert(e.path));
            let ops = entry_ops(es);
            assert(ops == entry_ops(init).push(op_of(e)));
            assert(ops.drop_last() =~= entry_ops(init));
            assert(apply_ops(dest, src, ops) == before.insert(e.path, src[e.path]));
            assert(apply_ops(dest, src, ops) =~= dest.union_prefer_right(
                src.restrict(copied_paths(es)),
            ));
        } else {
            assert(copied_paths(es) =~= copied_paths(init));
            if !in_metadata(e.path) {
                let ops = entry_ops(es);
                assert(ops == entry_ops(init).push(op_of(e)));
                assert(ops.drop_last() =~= entry_ops(init));
            }
        }
    }
}

/// Copying a source tree overlays its files on the destination: after the
/// plan runs, every file the listing names (outside the metadata directory)
/// holds the source's content, every other destination file is unchanged,
/// and no other file appears.
pub proof fn lemma_copy_overlays(dest: FilesView, src: FilesView, es: Seq<EntryView>)
    requires
        forall|p: PathView| #[trigger] copied_paths(es).contains(p) ==> src.contains_key(p),
    ensures
        apply_ops(dest, src, plan_of(es)) == dest.union_prefer_right(
            src.restrict(copied_paths(es)),
        ),
{
    lemma_apply_ops_root(dest, src, es);
    lemma_entry_ops(dest, src, es);
}

proof fn lemma_apply_ops_concat(dest: FilesView, src: FilesView, a: Seq<OpView>, b: Seq<OpView>)
    ensures
        apply_ops(dest, src, a + b) == apply_ops(apply_ops(dest, src, a), src, b),
    decreases b.len(),
{
    if b.len() == 0 {
        assert(a + b =~= a);
    } else {
        assert((a + b).drop_last() =~= a + b.drop_last());
        lemma_apply_ops_concat(dest, src, a, b.drop_last());
    }
}

proof fn lemma_apply_ops_root(dest: FilesView, src: FilesView, es: Seq<EntryView>)
    ensures
        apply_ops(dest, src, plan_of(es)) == apply_ops(dest, src, entry_ops(es)),
{
    let root = seq![OpView::MakeDir(seq![])];
    lemma_apply_ops_concat(dest, src, root, entry_ops(es));
    assert(root.drop_last() =~= seq![]);
    assert(apply_ops(dest, src, root.drop_last()) == dest);
    assert(apply_ops(dest, src, root) == dest);
}

} // verus!
