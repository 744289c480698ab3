//! Discovery of the repositories that are immediate children of the source root.
use vstd::prelude::*;

use crate::setup::PathKind;

verus! {

/// One immediate child of the source root, as the directory listing gave it.
#[derive(Debug)]
pub struct ChildEntry {
    /// The child's full path (the source root joined with the child's name).
    pub path: String,
    /// What the child's own repository metadata entry (`.git`) refers to.
    pub marker: PathKind,
}

/// Why discovery could not produce its list of repository names.
#[derive(Clone, Copy, Debug, PartialEq, Eq, Structural)]
pub enum DiscoveryError {
    /// The path of a repository could not be made relative to the source root.
    NotRelative,
}

/// The relative path that `pathdiff::diff_paths(path, base)` computes, as text.
pub uninterp spec fn relative_path_of(path: Seq<char>, base: Seq<char>) -> Option<Seq<char>>;

/// Relies on `pathdiff::diff_paths`: the path that leads from `base` to `path`,
/// or `None` where there is none. Its result depends on the two paths alone.
#[verifier::external_body]
fn relative_path(path: &str, base: &str) -> (r: Option<String>)
    ensures
        r is Some <==> relative_path_of(path@, base@) is Some,
        r is Some ==> r->Some_0@ == relative_path_of(path@, base@)->Some_0,
{
    pathdiff::diff_paths(std::path::Path::new(path), std::path::Path::new(base)).map(
        |p| p.to_string_lossy().into_owned(),
    )
}

/// A directory is a repository when its metadata entry is itself a directory: a
/// metadata file (as a linked worktree has) does not count.
pub open spec fn is_repository(marker: PathKind) -> bool {
    marker == PathKind::Directory
}

/// Tells from a child's metadata entry whether the child is a repository.
pub fn contains_git_dir(marker: PathKind) -> (r: bool)
    ensures
        r == is_repository(marker),
{
    marker == PathKind::Directory
}

/// The paths of the entries that are repositories, in listing order.
pub open spec fn repository_paths(entries: Seq<ChildEntry>) -> Seq<Seq<char>>
    decreases entries.len(),
{
    if entries.len() == 0 {
        seq![]
    } else {
        let rest = repository_paths(entries.drop_last());
        if is_repository(entries.last().marker) {
            rest.push(entries.last().path@)
        } else {
            rest
        }
    }
}

/// The names kept from a list of relative paths: all of them, or none when one
/// is missing.
pub open spec fn collected(rels: Seq<Option<Seq<char>>>) -> Option<Seq<Seq<char>>>
    decreases rels.len(),
{
    if rels.len() == 0 {
        Some(seq![])
    } else {
        match (collected(rels.drop_last()), rels.last()) {
            (Some(names), Some(n)) => Some(names.push(n)),
            _ => None,
        }
    }
}

/// The outcome of discovery over a listing of the source root `root`.
pub open spec fn discovered(root: Seq<char>, entries: Seq<ChildEntry>) -> Option<Seq<Seq<char>>> {
    collected(repository_paths(entries).map_values(|p: Seq<char>| relative_path_of(p, root)))
}

/// The text of each string, in order.
pub open spec fn views(v: Seq<String>) -> Seq<Seq<char>> {
    v.map_values(|s: String| s@)
}

/// Keeps the paths of the entries that are repositories, in listing order.
pub fn select_repositories(entries: &Vec<ChildEntry>) -> (r: Vec<String>)
    ensures
        views(r@) == repository_paths(entries@),
{
    let mut out: Vec<String> = Vec::new();
    let mut i: usize = 0;
    while i < entries.len()
        invariant
            i <= entries.len(),
            views(out@) == repository_paths(entries@.subrange(0, i as int)),
        decreases entries.len() - i,
    {
        let ghost before = out@;
        assert(entries@.subrange(0, i + 1).drop_last() == entries@.subrange(0, i as int));
        if contains_git_dir(entries[i].marker) {
            out.push(entries[i].path.clone());
            assert(views(out@) == views(before).push(entries@[i as int].path@));
        }
        i += 1;
    }
    assert(entries@.subrange(0, entries.len() as int) == entries@);
    out
}

/// Turns the relative paths of the repositories into their names: all of them
/// in order, or `NotRelative` when one of the paths has no relative form.
pub fn collect_descriptors(rels: Vec<Option<String>>) -> (r: Result<Vec<String>, DiscoveryError>)
    ensures
        r is Ok <==> collected(rels@.map_values(|o: Option<String>| opt_view(o))) is Some,
        r is Ok ==> views(r->Ok_0@) == collected(rels@.map_values(|o: Option<String>| opt_view(o)))->Some_0,
        r is Err ==> r == Err::<Vec<String>, DiscoveryError>(DiscoveryError::NotRelative),
{
    let ghost all = rels@.map_values(|o: Option<String>| opt_view(o));
    let mut out: Vec<String> = Vec::new();
    let mut i: usize = 0;
    while i < rels.len()
        invariant
            i <= rels.len(),
            all == rels@.map_values(|o: Option<String>| opt_view(o)),
            collected(all.subrange(0, i as int)) == Some(views(out@)),
        decreases rels.len() - i,
    {
        assert(all.subrange(0, i + 1).drop_last() == all.subrange(0, i as int));
        match &rels[i] {
            Some(name) => {
                let ghost before = out@;
                out.push(name.clone());
                assert(views(out@) == views(before).push(name@));
            },
            None => {
                proof { lemma_collected_none_extends(all, i as int + 1); }
                return Err(DiscoveryError::NotRelative);
            },
        }
        i += 1;
    }
    assert(all.subrange(0, rels.len() as int) == all);
    Ok(out)
}

/// The text of an optional string.
pub open spec fn opt_view(o: Option<String>) -> Option<Seq<char>> {
    match o {
        Some(s) => Some(s@),
        None => None,
    }
}

/// Once a prefix has no collected form, no longer prefix has one either.
proof fn lemma_collected_none_extends(rels: Seq<Option<Seq<char>>>, k: int)
    requires
        0 <= k <= rels.len(),
        collected(rels.subrange(0, k)) is None,
    ensures
        collected(rels) is None,
    decreases rels.len() - k,
{
    if k < rels.len() {
        assert(rels.subrange(0, k + 1).drop_last() == rels.subrange(0, k));
        lemma_collected_none_extends(rels, k + 1);
    } else {
        assert(rels.subrange(0, k) == rels);
    }
}

/// Produces the names of the repositories among the immediate children of the
/// source root `root`, in listing order: each name is the child's path relative
/// to the root. Only a child whose own metadata entry is a directory counts.
pub fn discover(root: &str, entries: &Vec<ChildEntry>) -> (r: Result<Vec<String>, DiscoveryError>)
    ensures
        r is Ok <==> discovered(root@, entries@) is Some,
        r is Ok ==> views(r->Ok_0@) == discovered(root@, entries@)->Some_0,
        r is Err ==> r == Err::<Vec<String>, DiscoveryError>(DiscoveryError::NotRelative),
{
    let paths = select_repositories(entries);
    let ghost want = repository_paths(entries@).map_values(|p: Seq<char>| relative_path_of(p, root@));
    assert(want.len() == views(paths@).len());
    let mut rels: Vec<Option<String>> = Vec::new();
    let mut i: usize = 0;
    while i < paths.len()
        invariant
            i <= paths.len(),
            views(paths@) == repository_paths(entries@),
            want.len() == paths@.len(),
            want == repository_paths(entries@).map_values(|p: Seq<char>| relative_path_of(p, root@)),
            rels@.map_values(|o: Option<String>| opt_view(o)) == want.subrange(0, i as int),
        decreases paths.len() - i,
    {
        let rel = relative_path(paths[i].as_str(), root);
        let ghost before = rels@;
        rels.push(rel);
        assert(rels@.map_values(|o: Option<String>| opt_view(o))
            == before.map_values(|o: Option<String>| opt_view(o)).push(opt_view(rel)));
        assert(paths@[i as int]@ == views(paths@)[i as int]);
        assert(want.subrange(0, i + 1) == want.subrange(0, i as int).push(want[i as int]));
        i += 1;
    }
    assert(want.subrange(0, paths.len() as int) == want);
    collect_descriptors(rels)
}

} // verus!

verus! {

/// A path is discovered exactly when some listed child with that path has a
/// metadata entry that is itself a directory. A child whose metadata entry is a
/// file, or who has none of its own (a repository nested further down sits in a
/// grandchild, which is never listed), is not discovered.
pub proof fn lemma_discovered_iff_own_marker_is_directory(entries: Seq<ChildEntry>, p: Seq<char>)
    ensures
        repository_paths(entries).contains(p) <==> exists|i: int|
            0 <= i < entries.len() && #[trigger] entries[i].path@ == p && is_repository(entries[i].marker),
    decreases entries.len(),
{
    if entries.len() > 0 {
        let rest = entries.drop_last();
        lemma_discovered_iff_own_marker_is_directory(rest, p);
        let last = entries.len() - 1;
        if repository_paths(entries).contains(p) {
            if repository_paths(rest).contains(p) {
                let i = choose|i: int| 0 <= i < rest.len() && #[trigger] rest[i].path@ == p && is_repository(rest[i].marker);
                assert(entries[i] == rest[i]);
            } else {
                let k = choose|k: int| 0 <= k < repository_paths(entries).len() && repository_paths(entries)[k] == p;
                assert(is_repository(entries[last].marker) && k == repository_paths(rest).len());
                assert(entries[last].path@ == p);
            }
        }
        if exists|i: int| 0 <= i < entries.len() && #[trigger] entries[i].path@ == p && is_repository(entries[i].marker) {
            let i = choose|i: int| 0 <= i < entries.len() && #[trigger] entries[i].path@ == p && is_repository(entries[i].marker);
            if i < last {
                assert(rest[i] == entries[i]);
                let k = choose|k: int| 0 <= k < repository_paths(rest).len() && repository_paths(rest)[k] == p;
                assert(repository_paths(entries)[k] == p);
            } else {
                assert(repository_paths(entries).last() == p);
            }
        }
    }
}

} // verus!
