//! The packaging engine: resolves a list of input paths, applies the
//! exclusion matcher, and streams the surviving entries into a compressed
//! archive, emitting deterministic relative names.
//!
//! Each top-level input is named relative to its own container (its parent
//! directory), and every descendant is named relative to that same container.
//! An excluded directory is pruned: traversal does not descend into it, so an
//! excluded directory never contributes descendant entries.

use vstd::prelude::*;

use crate::archive::ArchiveWriter;
use crate::matcher::{excluded_by, ExclusionMatcher};
use crate::paths::{
    child_shape, container_spec, is_ancestor, lemma_ancestor_transitive, lemma_child_ancestors,
    lemma_child_normalized, lemma_normalize_idempotent, normalize, normalize_spec, rel_name,
    rel_name_spec, split_container, top_name_spec,
};
use crate::progress::ProgressReporter;

verus! {

/// Why a packing invocation failed.
pub enum PackError {
    /// A malformed exclusion pattern; matcher construction fails before any
    /// input is touched.
    Pattern(String),
    /// A listed input path, or a directory below one, does not exist or
    /// cannot be read; the payload names that path.
    Path(String),
    /// Creating, writing or closing the archive failed.
    Io(String),
    /// The whole input set, after exclusion, yields zero entries.
    EmptyResult,
}

impl PackError {
    /// A short human-readable description of the failure.
    pub fn message(&self) -> (r: String)
        ensures
            self matches PackError::Pattern(m) ==> r@ == "invalid exclusion pattern: "@ + m@,
            self matches PackError::Path(p) ==> r@ == "cannot read path: "@ + p@,
            self matches PackError::Io(m) ==> r@ == "archive write failed: "@ + m@,
            self is EmptyResult ==> r@ == "Nothing was packed"@,
    {
        match self {
            PackError::Pattern(m) => {
                let mut s = String::from_str("invalid exclusion pattern: ");
                s.append(m.as_str());
                s
            },
            PackError::Path(p) => {
                let mut s = String::from_str("cannot read path: ");
                s.append(p.as_str());
                s
            },
            PackError::Io(m) => {
                let mut s = String::from_str("archive write failed: ");
                s.append(m.as_str());
                s
            },
            PackError::EmptyResult => String::from_str("Nothing was packed"),
        }
    }
}

/// What kind of object an archive entry records.
#[derive(Clone, Copy, PartialEq, Eq, Structural)]
pub enum EntryKind {
    File,
    Directory,
}

/// One named unit written into the archive.
pub struct ArchiveEntry {
    /// The entry's name inside the archive; never empty.
    pub name: String,
    /// The on-disk path the entry was read from.
    pub source: String,
    /// Whether the entry is a file or a directory.
    pub kind: EntryKind,
    /// The index of the top-level input this entry came from; the engine
    /// stamps it when it writes the entry.
    pub origin: Ghost<int>,
}

/// One directory child as reported by the walker: its full path and whether
/// it is itself a directory.
pub struct RawEntry {
    pub path: String,
    pub is_dir: bool,
}

/// What a top-level input path resolves to on disk.
pub enum PathKind {
    File,
    Dir,
    Missing,
}

/// A successful packing: the archive bytes and the entries written, in order.
pub struct PackOutput {
    pub bytes: Vec<u8>,
    pub entries: Vec<ArchiveEntry>,
}

/// The decision for one directory child: the entry to write, if any, and
/// whether traversal descends into it.
pub struct ChildDecision {
    pub entry: Option<ArchiveEntry>,
    pub descend: bool,
}

/// Decides what one directory child contributes: nothing if it does not lie
/// under the container or is excluded (an excluded directory is pruned, not
/// merely filtered); otherwise an entry under its name relative to the
/// container — suppressed if that name is empty — and descent for
/// directories. A produced entry's ghost origin is left at zero; the engine
/// stamps the owning input's index when it writes the entry.
pub fn classify_child(child: &RawEntry, matcher: &ExclusionMatcher, container: &String) -> (r:
    ChildDecision)
    ensures
        r.descend <==> {
            &&& is_ancestor(container@, child.path@)
            &&& !excluded_by(matcher.rules(), child.path@, child.is_dir)
            &&& child.is_dir
        },
        r.entry is Some <==> {
            &&& is_ancestor(container@, child.path@)
            &&& !excluded_by(matcher.rules(), child.path@, child.is_dir)
            &&& rel_name_spec(container@, child.path@).len() > 0
        },
        r.entry matches Some(e) ==> {
            &&& e.name@ == rel_name_spec(container@, child.path@)
            &&& e.source@ == child.path@
            &&& (e.kind is Directory <==> child.is_dir)
        },
{
    match rel_name(container.as_str(), child.path.as_str()) {
        None => ChildDecision { entry: None, descend: false },
        Some(name) => {
            if matcher.matches(&child.path, child.is_dir) {
                ChildDecision { entry: None, descend: false }
            } else {
                let entry = if name.as_str().unicode_len() > 0 {
                    Some(
                        ArchiveEntry {
                            name,
                            source: child.path.clone(),
                            kind: if child.is_dir {
                                EntryKind::Directory
                            } else {
                                EntryKind::File
                            },
                            origin: Ghost(0),
                        },
                    )
                } else {
                    None
                };
                ChildDecision { entry, descend: child.is_dir }
            }
        },
    }
}

/// Relies on walkdir::WalkDir at depth zero: classifies what the path points
/// to, following a symlinked input to its target; a path that cannot be read,
/// or is neither a regular file nor a directory, counts as missing.
#[verifier::external_body]
fn stat_path(p: &String) -> (r: PathKind) {
    let mut it = walkdir::WalkDir::new(p.as_str()).follow_links(true).max_depth(0).into_iter();
    match it.next() {
        Some(Ok(e)) => {
            if e.file_type().is_dir() {
                PathKind::Dir
            } else if e.file_type().is_file() {
                PathKind::File
            } else {
                PathKind::Missing
            }
        },
        _ => PathKind::Missing,
    }
}

/// Relies on walkdir::WalkDir at depth one: lists the directory's direct
/// children in the walker's yield order. Each child's path is the directory
/// joined with `/` and a non-empty separator-free name, and its flag says
/// whether the child is itself a directory (symlinks are not followed).
#[verifier::external_body]
fn list_children(dir: &String) -> (r: Result<Vec<RawEntry>, String>)
    requires
        dir@ == normalize_spec(dir@),
    ensures
        r matches Ok(cs) ==> forall|i: int|
            0 <= i < cs@.len() ==> child_shape(dir@, #[trigger] cs@[i].path@),
{
    let mut out = Vec::new();
    for entry in walkdir::WalkDir::new(dir.as_str()).min_depth(1).max_depth(1) {
        match entry {
            Ok(e) => {
                let is_dir = e.file_type().is_dir();
                let path = e.path().to_string_lossy().into_owned();
                out.push(RawEntry { path, is_dir });
            },
            Err(e) => {
                return Err(e.to_string());
            },
        }
    }
    Ok(out)
}

/// No directory at or below the input `top` that anchors `p` is excluded:
/// containment implies exclusion, so an entry can only have been written if
/// every directory it was reached through was clear.
pub open spec fn no_excluded_ancestor(rules: Seq<Seq<char>>, top: Seq<char>, p: Seq<char>) -> bool {
    forall|a: Seq<char>|
        #![trigger is_ancestor(a, p)]
        (a == top || is_ancestor(top, a)) && is_ancestor(a, p) ==> !excluded_by(rules, a, true)
}

/// The entry stands for the top-level input `top` itself, under its own
/// relative name, or for a descendant of `top` named relative to `top`'s
/// container and reached without passing through any excluded directory.
pub open spec fn entry_from_input(
    rules: Seq<Seq<char>>,
    top: Seq<char>,
    name: Seq<char>,
    source: Seq<char>,
) -> bool {
    ||| (source == top && name == top_name_spec(top))
    ||| {
        &&& is_ancestor(top, source)
        &&& name == rel_name_spec(container_spec(top), source)
        &&& !excluded_by(rules, top, true)
        &&& no_excluded_ancestor(rules, top, source)
    }
}

/// What holds of every entry the engine writes: the entry itself is not
/// excluded, its name is non-empty, and it comes from the input its origin
/// names (normalized), either as that input or as a descendant reached only
/// through non-excluded directories.
pub open spec fn entry_ok(rules: Seq<Seq<char>>, inputs: Seq<Seq<char>>, e: ArchiveEntry) -> bool {
    &&& !excluded_by(rules, e.source@, e.kind is Directory)
    &&& e.name@.len() > 0
    &&& 0 <= e.origin@ < inputs.len()
    &&& entry_from_input(rules, normalize_spec(inputs[e.origin@]), e.name@, e.source@)
}

/// The writer-level view of a list of entries: their names, in order.
pub open spec fn entries_log(es: Seq<ArchiveEntry>) -> Seq<Seq<char>> {
    es.map_values(|e: ArchiveEntry| e.name@)
}

/// What must hold of an item waiting on the traversal stack: it lies under
/// the (normalized) top-level input, it was reached only through
/// non-excluded directories, and its path is already normalized.
spec fn pending_ok(rules: Seq<Seq<char>>, top: Seq<char>, it: RawEntry) -> bool {
    &&& is_ancestor(top, it.path@)
    &&& no_excluded_ancestor(rules, top, it.path@)
    &&& normalize_spec(it.path@) == it.path@
}

/// Packs the input paths, in order, into a gzip-compressed tar archive held
/// in memory, skipping everything the matcher excludes and pruning excluded
/// directories. Fails with `Path` on the first unreadable path, with `Io` on
/// the first archive-write failure, and with `EmptyResult` — before the
/// archive is finalized — when nothing at all survives exclusion.
pub fn pack_paths(input_paths: &Vec<String>, exclude: &ExclusionMatcher, show_progress: bool) -> (r:
    Result<PackOutput, PackError>)
    ensures
        r matches Ok(out) ==> {
            &&& out.entries@.len() >= 1
            &&& out.bytes@.len() > 0
            &&& forall|i: int|
                #![trigger out.entries@[i]]
                0 <= i < out.entries@.len() ==> entry_ok(
                    exclude.rules(),
                    input_paths.deep_view(),
                    out.entries@[i],
                )
            &&& forall|i: int, j: int|
                #![trigger out.entries@[i], out.entries@[j]]
                0 <= i < j < out.entries@.len() ==> out.entries@[i].origin@
                    <= out.entries@[j].origin@
            &&& forall|i: int, j: int|
                #![trigger out.entries@[i], out.entries@[j]]
                0 <= i < j < out.entries@.len() && out.entries@[i].origin@
                    == out.entries@[j].origin@ ==> is_ancestor(
                    normalize_spec(input_paths.deep_view()[out.entries@[j].origin@]),
                    out.entries@[j].source@,
                )
        },
        (forall|k: int|
            0 <= k < input_paths.deep_view().len() ==> excluded_by(
                exclude.rules(),
                normalize_spec(#[trigger] input_paths.deep_view()[k]),
                true,
            ) && excluded_by(
                exclude.rules(),
                normalize_spec(input_paths.deep_view()[k]),
                false,
            )) ==> !(r is Ok),
        (exists|k: int|
            0 <= k < input_paths.deep_view().len() && normalize_spec(
                #[trigger] input_paths.deep_view()[k],
            ).len() == 0) ==> !(r is Ok),
        r matches Err(e) ==> !(e is Pattern),
        r matches Err(e) ==> (e matches PackError::Path(s) ==> exists|k: int|
            0 <= k < input_paths.deep_view().len() && (s@ == #[trigger] input_paths.deep_view()[k]
                || is_ancestor(normalize_spec(input_paths.deep_view()[k]), s@))),
{
    let mut progress = ProgressReporter::new(show_progress);
    let result = pack_paths_inner(input_paths, exclude, &mut progress);
    let succeeded = match &result {
        Ok(_) => true,
        Err(_) => false,
    };
    progress.on_done(succeeded);
    result
}

#[verifier::loop_isolation(false)]
fn pack_paths_inner(
    input_paths: &Vec<String>,
    exclude: &ExclusionMatcher,
    progress: &mut ProgressReporter,
) -> (r: Result<PackOutput, PackError>)
    ensures
        r matches Ok(out) ==> {
            &&& out.entries@.len() >= 1
            &&& out.bytes@.len() > 0
            &&& forall|i: int|
                #![trigger out.entries@[i]]
                0 <= i < out.entries@.len() ==> entry_ok(
                    exclude.rules(),
                    input_paths.deep_view(),
                    out.entries@[i],
                )
            &&& forall|i: int, j: int|
                #![trigger out.entries@[i], out.entries@[j]]
                0 <= i < j < out.entries@.len() ==> out.entries@[i].origin@
                    <= out.entries@[j].origin@
            &&& forall|i: int, j: int|
                #![trigger out.entries@[i], out.entries@[j]]
                0 <= i < j < out.entries@.len() && out.entries@[i].origin@
                    == out.entries@[j].origin@ ==> is_ancestor(
                    normalize_spec(input_paths.deep_view()[out.entries@[j].origin@]),
                    out.entries@[j].source@,
                )
        },
        (forall|k: int|
            0 <= k < input_paths.deep_view().len() ==> excluded_by(
                exclude.rules(),
                normalize_spec(#[trigger] input_paths.deep_view()[k]),
                true,
            ) && excluded_by(
                exclude.rules(),
                normalize_spec(input_paths.deep_view()[k]),
                false,
            )) ==> !(r is Ok),
        (exists|k: int|
            0 <= k < input_paths.deep_view().len() && normalize_spec(
                #[trigger] input_paths.deep_view()[k],
            ).len() == 0) ==> !(r is Ok),
        r matches Err(e) ==> !(e is Pattern),
        r matches Err(e) ==> (e matches PackError::Path(s) ==> exists|k: int|
            0 <= k < input_paths.deep_view().len() && (s@ == #[trigger] input_paths.deep_view()[k]
                || is_ancestor(normalize_spec(input_paths.deep_view()[k]), s@))),
{
    let ghost rules = exclude.rules();
    let ghost inputs = input_paths.deep_view();
    let mut writer = ArchiveWriter::new();
    let mut entries: Vec<ArchiveEntry> = Vec::new();
    let mut k: usize = 0;
    while k < input_paths.len()
        invariant
            k <= input_paths@.len(),
            forall|j: int| 0 <= j < k ==> normalize_spec(#[trigger] inputs[j]).len() > 0,
            writer.wf(),
            writer.entries() == entries_log(entries@),
            forall|i: int|
                #![trigger entries@[i]]
                0 <= i < entries@.len() ==> entry_ok(rules, inputs, entries@[i])
                    && entries@[i].origin@ < k,
            forall|i: int, j: int|
                #![trigger entries@[i], entries@[j]]
                0 <= i < j < entries@.len() ==> entries@[i].origin@ <= entries@[j].origin@,
            forall|i: int, j: int|
                #![trigger entries@[i], entries@[j]]
                0 <= i < j < entries@.len() && entries@[i].origin@ == entries@[j].origin@
                    ==> is_ancestor(normalize_spec(inputs[entries@[j].origin@]), entries@[j].source@),
        decreases input_paths@.len() - k,
    {
        let np = normalize(&input_paths[k]);
        proof {
            assert(np@ == normalize_spec(inputs[k as int]));
        }
        if np.as_str().unicode_len() == 0 {
            return Err(PackError::Path(input_paths[k].clone()));
        }
        let kind = stat_path(&np);
        let is_dir = match kind {
            PathKind::Dir => true,
            PathKind::File => false,
            PathKind::Missing => {
                return Err(PackError::Path(input_paths[k].clone()));
            },
        };
        if !exclude.matches(&np, is_dir) {
            let (container, name) = split_container(&np);
            if is_dir {
                if name.as_str().unicode_len() > 0 {
                    match writer.append_dir(&name, &np) {
                        Ok(()) => {},
                        Err(m) => {
                            return Err(PackError::Io(m));
                        },
                    }
                    let entry = ArchiveEntry {
                        name,
                        source: np.clone(),
                        kind: EntryKind::Directory,
                        origin: Ghost(k as int),
                    };
                    proof {
                        assert(entry_from_input(rules, np@, entry.name@, entry.source@));
                        assert(entry_ok(rules, inputs, entry));
                        assert(entries_log(entries@.push(entry)) =~= entries_log(entries@).push(
                            entry.name@,
                        ));
                    }
                    entries.push(entry);
                    progress.on_tick(entries.len());
                }
                proof {
                    lemma_normalize_idempotent(inputs[k as int]);
                }
                let mut stack: Vec<RawEntry> = Vec::new();
                match list_children(&np) {
                    Err(_) => {
                        return Err(PackError::Path(input_paths[k].clone()));
                    },
                    Ok(mut children) => {
                        while children.len() > 0
                            invariant
                                forall|i: int|
                                    0 <= i < children@.len() ==> child_shape(
                                        np@,
                                        #[trigger] children@[i].path@,
                                    ),
                                forall|j: int|
                                    #![trigger stack@[j]]
                                    0 <= j < stack@.len() ==> pending_ok(rules, np@, stack@[j]),
                            decreases children@.len(),
                        {
                            let c = children.pop().unwrap();
                            proof {
                                lemma_child_ancestors(np@, c.path@);
                                lemma_child_normalized(np@, c.path@);
                                assert forall|a: Seq<char>|
                                    (a == np@ || is_ancestor(np@, a)) && is_ancestor(
                                        a,
                                        c.path@,
                                    ) implies !excluded_by(rules, a, true) by {
                                    assert(a.len() > 0);
                                    if a != np@ && is_ancestor(a, np@) {
                                        lemma_ancestor_transitive(np@, a, np@);
                                    }
                                }
                                assert(pending_ok(rules, np@, c));
                            }
                            stack.push(c);
                        }
                    },
                }
                // More pending items than a usize can count cannot arise from
                // walking a real tree; the bound gives the traversal a
                // provable measure, and running into it reads as an error.
                let mut remaining: usize = usize::MAX;
                while stack.len() > 0
                    invariant
                        writer.wf(),
                        writer.entries() == entries_log(entries@),
                        forall|i: int|
                            #![trigger entries@[i]]
                            0 <= i < entries@.len() ==> entry_ok(rules, inputs, entries@[i])
                                && entries@[i].origin@ <= k,
                        forall|i: int, j: int|
                            #![trigger entries@[i], entries@[j]]
                            0 <= i < j < entries@.len() ==> entries@[i].origin@
                                <= entries@[j].origin@,
                        forall|i: int, j: int|
                            #![trigger entries@[i], entries@[j]]
                            0 <= i < j < entries@.len() && entries@[i].origin@
                                == entries@[j].origin@ ==> is_ancestor(
                                normalize_spec(inputs[entries@[j].origin@]),
                                entries@[j].source@,
                            ),
                        forall|j: int|
                            #![trigger stack@[j]]
                            0 <= j < stack@.len() ==> pending_ok(rules, np@, stack@[j]),
                    decreases remaining,
                {
                    if remaining == 0 {
                        return Err(PackError::Io(String::from_str("directory tree too large")));
                    }
                    remaining = remaining - 1;
                    let item = stack.pop().unwrap();
                    let decision = classify_child(&item, exclude, &container);
                    match decision.entry {
                        Some(entry) => {
                            let mut entry = entry;
                            proof {
                                entry.origin@ = k as int;
                            }
                            let entry_is_dir = entry.kind == EntryKind::Directory;
                            let appended = if entry_is_dir {
                                writer.append_dir(&entry.name, &entry.source)
                            } else {
                                writer.append_file(&entry.name, &entry.source)
                            };
                            match appended {
                                Ok(()) => {},
                                Err(m) => {
                                    return Err(PackError::Io(m));
                                },
                            }
                            proof {
                                assert(entry_from_input(rules, np@, entry.name@, entry.source@));
                                assert(entry_ok(rules, inputs, entry));
                                assert(entries_log(entries@.push(entry)) =~= entries_log(
                                    entries@,
                                ).push(entry.name@));
                            }
                            entries.push(entry);
                            progress.on_tick(entries.len());
                        },
                        None => {},
                    }
                    if decision.descend {
                        match list_children(&item.path) {
                            Err(_) => {
                                return Err(PackError::Path(item.path));
                            },
                            Ok(mut children) => {
                                while children.len() > 0
                                    invariant
                                        forall|i: int|
                                            0 <= i < children@.len() ==> child_shape(
                                                item.path@,
                                                #[trigger] children@[i].path@,
                                            ),
                                        forall|j: int|
                                            #![trigger stack@[j]]
                                            0 <= j < stack@.len() ==> pending_ok(
                                                rules,
                                                np@,
                                                stack@[j],
                                            ),
                                    decreases children@.len(),
                                {
                                    let c = children.pop().unwrap();
                                    proof {
                                        lemma_child_ancestors(item.path@, c.path@);
                                        lemma_child_normalized(item.path@, c.path@);
                                        lemma_ancestor_transitive(np@, item.path@, c.path@);
                                        assert forall|a: Seq<char>|
                                            (a == np@ || is_ancestor(np@, a)) && is_ancestor(
                                                a,
                                                c.path@,
                                            ) implies !excluded_by(rules, a, true) by {
                                            assert(a.len() > 0);
                                            if a == item.path@ {
                                            } else if is_ancestor(a, item.path@) {
                                                assert(no_excluded_ancestor(
                                                    rules,
                                                    np@,
                                                    item.path@,
                                                ));
                                            }
                                        }
                                        assert(pending_ok(rules, np@, c));
                                    }
                                    stack.push(c);
                                }
                            },
                        }
                    }
                }
            } else {
                if name.as_str().unicode_len() > 0 {
                    match writer.append_file(&name, &np) {
                        Ok(()) => {},
                        Err(m) => {
                            return Err(PackError::Io(m));
                        },
                    }
                    let entry = ArchiveEntry {
                        name,
                        source: np.clone(),
                        kind: EntryKind::File,
                        origin: Ghost(k as int),
                    };
                    proof {
                        assert(entry_from_input(rules, np@, entry.name@, entry.source@));
                        assert(entry_ok(rules, inputs, entry));
                        assert(entries_log(entries@.push(entry)) =~= entries_log(entries@).push(
                            entry.name@,
                        ));
                    }
                    entries.push(entry);
                    progress.on_tick(entries.len());
                }
            }
        }
        k = k + 1;
    }
    if entries.len() == 0 {
        return Err(PackError::EmptyResult);
    }
    match writer.finalize() {
        Ok(bytes) => {
            proof {
                if forall|j: int|
                    0 <= j < inputs.len() ==> excluded_by(
                        rules,
                        normalize_spec(#[trigger] inputs[j]),
                        true,
                    ) && excluded_by(rules, normalize_spec(inputs[j]), false) {
                    let e0 = entries@[0];
                    assert(entry_ok(rules, inputs, e0));
                    assert(excluded_by(rules, normalize_spec(inputs[e0.origin@]), true));
                    assert(excluded_by(rules, normalize_spec(inputs[e0.origin@]), false));
                    assert(false);
                }
                if exists|j: int|
                    0 <= j < inputs.len() && normalize_spec(#[trigger] inputs[j]).len() == 0 {
                    let je = choose|j: int|
                        0 <= j < inputs.len() && normalize_spec(#[trigger] inputs[j]).len() == 0;
                    assert(false);
                }
            }
            Ok(PackOutput { bytes, entries })
        },
        Err(m) => Err(PackError::Io(m)),
    }
}

} // verus!
