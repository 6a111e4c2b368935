use vstd::prelude::*;
use crate::error::PlayError;
use crate::ignore_rules::{ignore_match, is_excluded, spec_excluded};
use crate::paths::rel_string;

verus! {

/// One entry met while walking a source tree: its path relative to the root
/// of the walk (component by component, the root itself being the empty
/// path), and whether it is a directory.
pub struct WalkEntry {
    pub rel: Vec<String>,
    pub is_dir: bool,
}

/// The mathematical shape of a [`WalkEntry`].
pub struct EntryModel {
    pub rel: Seq<Seq<char>>,
    pub is_dir: bool,
}

impl DeepView for WalkEntry {
    type V = EntryModel;

    open spec fn deep_view(&self) -> EntryModel {
        EntryModel { rel: self.rel.deep_view(), is_dir: self.is_dir }
    }
}

/// The copy plan for a walked tree: the entries that survive the ignore
/// rules, in walk order. A directory entry stands for creating the mirrored
/// directory under the destination; a file entry stands for copying the
/// file's bytes to the mirrored path.
pub open spec fn plan_spec(entries: Seq<EntryModel>, patterns: Seq<Seq<char>>) -> Seq<EntryModel>
    decreases entries.len(),
{
    if entries.len() == 0 {
        Seq::<EntryModel>::empty()
    } else {
        let rest = plan_spec(entries.drop_last(), patterns);
        let e = entries.last();
        if spec_excluded(patterns, e.rel, e.is_dir) {
            rest
        } else {
            rest.push(e)
        }
    }
}

/// Appending one walked entry extends the plan by that entry exactly when the
/// ignore rules keep it.
pub proof fn lemma_plan_spec_push(
    entries: Seq<EntryModel>,
    patterns: Seq<Seq<char>>,
    e: EntryModel,
)
    ensures
        plan_spec(entries.push(e), patterns) == if spec_excluded(patterns, e.rel, e.is_dir) {
            plan_spec(entries, patterns)
        } else {
            plan_spec(entries, patterns).push(e)
        },
{
    let extended = entries.push(e);
    assert(extended.drop_last() =~= entries);
    assert(extended.last() == e);
}

/// Computes the copy plan for the walked entries of a source tree under the
/// given ignore-pattern lines.
pub fn copy_plan(entries: &Vec<WalkEntry>, patterns: &Vec<String>) -> (plan: Vec<WalkEntry>)
    ensures
        plan.deep_view() == plan_spec(entries.deep_view(), patterns.deep_view()),
{
    let ghost pats = patterns.deep_view();
    let ghost dv = entries.deep_view();
    let mut plan: Vec<WalkEntry> = Vec::new();
    proof {
        assert(dv.take(0) =~= Seq::<EntryModel>::empty());
        assert(plan.deep_view() =~= Seq::<EntryModel>::empty());
    }
    let mut i: usize = 0;
    while i < entries.len()
        invariant
            i <= entries.len(),
            pats == patterns.deep_view(),
            dv == entries.deep_view(),
            dv.len() == entries.len(),
            plan.deep_view() == plan_spec(dv.take(i as int), pats),
        decreases entries.len() - i,
    {
        let e = &entries[i];
        proof {
            assert(dv[i as int] == entries@[i as int].deep_view());
        }
        if !is_excluded(patterns, &e.rel, e.is_dir) {
            let kept = WalkEntry { rel: crate::paths::clone_strings(&e.rel), is_dir: e.is_dir };
            let ghost pre = plan.deep_view();
            plan.push(kept);
            proof {
                assert(kept.rel.deep_view() =~= e.rel.deep_view());
                assert(plan.deep_view() =~= pre.push(dv[i as int]));
            }
        }
        proof {
            assert(dv.take(i as int + 1) =~= dv.take(i as int).push(dv[i as int]));
            lemma_plan_spec_push(dv.take(i as int), pats, dv[i as int]);
        }
        i = i + 1;
    }
    proof {
        assert(dv.take(dv.len() as int) =~= dv);
    }
    plan
}

/// The whole tree-copy decision. The source must exist and be a directory;
/// otherwise nothing is planned and the failure names the offending path.
/// On success the plan is exactly [`plan_spec`] over the walked entries.
pub fn copy_tree_plan(
    source_exists: bool,
    source_is_dir: bool,
    source_path: &String,
    entries: &Vec<WalkEntry>,
    patterns: &Vec<String>,
) -> (r: Result<Vec<WalkEntry>, PlayError>)
    ensures
        r is Ok <==> source_exists && source_is_dir,
        r matches Err(e) ==> e matches PlayError::SourceNotFound { path } && path@
            == source_path@,
        r matches Ok(plan) ==> plan.deep_view() == plan_spec(
            entries.deep_view(),
            patterns.deep_view(),
        ),
{
    if !source_exists || !source_is_dir {
        return Err(PlayError::SourceNotFound { path: source_path.clone() });
    }
    Ok(copy_plan(entries, patterns))
}

/// What a destination tree holds: the byte content of each file by relative
/// path, and the set of directories, both relative to the destination root.
#[verifier::ext_equal]
pub struct DestModel {
    pub files: Map<Seq<Seq<char>>, Seq<u8>>,
    pub dirs: Set<Seq<Seq<char>>>,
}

/// A destination with nothing in it yet.
pub open spec fn dest_empty() -> DestModel {
    DestModel { files: Map::<Seq<Seq<char>>, Seq<u8>>::empty(), dirs: Set::<Seq<Seq<char>>>::empty() }
}

/// Running a copy plan against a destination: each directory entry creates
/// the mirrored directory, each file entry writes the source file's bytes at
/// the mirrored path, overwriting whatever was there.
pub open spec fn apply_plan(
    plan: Seq<EntryModel>,
    source_files: Map<Seq<Seq<char>>, Seq<u8>>,
    dest: DestModel,
) -> DestModel
    decreases plan.len(),
{
    if plan.len() == 0 {
        dest
    } else {
        let prior = apply_plan(plan.drop_last(), source_files, dest);
        let e = plan.last();
        if e.is_dir {
            DestModel { files: prior.files, dirs: prior.dirs.insert(e.rel) }
        } else {
            DestModel { files: prior.files.insert(e.rel, source_files[e.rel]), dirs: prior.dirs }
        }
    }
}

/// The destination produced by copying a freshly walked source tree into an
/// empty destination under the given ignore-pattern lines.
pub open spec fn copied_tree(
    entries: Seq<EntryModel>,
    patterns: Seq<Seq<char>>,
    source_files: Map<Seq<Seq<char>>, Seq<u8>>,
) -> DestModel {
    apply_plan(plan_spec(entries, patterns), source_files, dest_empty())
}

/// Some entry of the sequence is a file at relative path `p`.
pub open spec fn has_file(entries: Seq<EntryModel>, p: Seq<Seq<char>>) -> bool {
    exists|i: int| 0 <= i < entries.len() && entries[i].rel == p && !entries[i].is_dir
}

/// Some entry of the sequence is a directory at relative path `p`.
pub open spec fn has_dir(entries: Seq<EntryModel>, p: Seq<Seq<char>>) -> bool {
    exists|i: int| 0 <= i < entries.len() && entries[i].rel == p && entries[i].is_dir
}

/// What running a plan leaves at each path: exactly the plan's files carrying
/// the source bytes and the plan's directories, on top of whatever the
/// destination already held.
pub proof fn lemma_apply_plan(
    plan: Seq<EntryModel>,
    source_files: Map<Seq<Seq<char>>, Seq<u8>>,
    dest: DestModel,
)
    ensures
        forall|p: Seq<Seq<char>>|
            #[trigger] apply_plan(plan, source_files, dest).files.dom().contains(p) <==> (
            dest.files.dom().contains(p) || has_file(plan, p)),
        forall|p: Seq<Seq<char>>|
            #[trigger] apply_plan(plan, source_files, dest).files.dom().contains(p)
                ==> apply_plan(plan, source_files, dest).files[p] == (if has_file(plan, p) {
                source_files[p]
            } else {
                dest.files[p]
            }),
        forall|p: Seq<Seq<char>>|
            #[trigger] apply_plan(plan, source_files, dest).dirs.contains(p) <==> (
            dest.dirs.contains(p) || has_dir(plan, p)),
    decreases plan.len(),
{
    if plan.len() == 0 {
    } else {
        let rest = plan.drop_last();
        let e = plan.last();
        let prior = apply_plan(rest, source_files, dest);
        let result = apply_plan(plan, source_files, dest);
        lemma_apply_plan(rest, source_files, dest);
        assert forall|p: Seq<Seq<char>>|
            #[trigger] has_file(plan, p) implies (has_file(rest, p) || (e.rel == p
            && !e.is_dir)) by {
            let i = choose|i: int| 0 <= i < plan.len() && plan[i].rel == p && !plan[i].is_dir;
            if i < plan.len() - 1 {
                assert(rest[i] == plan[i]);
                assert(has_file(rest, p));
            }
        }
        assert forall|p: Seq<Seq<char>>|
            #[trigger] has_dir(plan, p) implies (has_dir(rest, p) || (e.rel == p
            && e.is_dir)) by {
            let i = choose|i: int| 0 <= i < plan.len() && plan[i].rel == p && plan[i].is_dir;
            if i < plan.len() - 1 {
                assert(rest[i] == plan[i]);
                assert(has_dir(rest, p));
            }
        }
        assert forall|p: Seq<Seq<char>>| has_file(rest, p) implies #[trigger] has_file(
            plan,
            p,
        ) by {
            let i = choose|i: int| 0 <= i < rest.len() && rest[i].rel == p && !rest[i].is_dir;
            assert(plan[i] == rest[i]);
        }
        assert forall|p: Seq<Seq<char>>| has_dir(rest, p) implies #[trigger] has_dir(
            plan,
            p,
        ) by {
            let i = choose|i: int| 0 <= i < rest.len() && rest[i].rel == p && rest[i].is_dir;
            assert(plan[i] == rest[i]);
        }
        if e.is_dir {
            assert(has_dir(plan, e.rel)) by {
                assert(plan[plan.len() - 1] == e);
            }
            assert(result.files == prior.files);
            assert forall|p: Seq<Seq<char>>|
                #[trigger] result.dirs.contains(p) <==> (dest.dirs.contains(p) || has_dir(
                plan,
                p,
            )) by {
                assert(result.dirs == prior.dirs.insert(e.rel));
                assert(prior.dirs.contains(p) <==> (dest.dirs.contains(p) || has_dir(rest, p)));
            }
            assert forall|p: Seq<Seq<char>>|
                #[trigger] result.files.dom().contains(p) implies result.files[p] == (if has_file(
                plan,
                p,
            ) {
                source_files[p]
            } else {
                dest.files[p]
            }) by {
                assert(prior.files.dom().contains(p));
            }
        } else {
            assert(has_file(plan, e.rel)) by {
                assert(plan[plan.len() - 1] == e);
            }
            assert(result.dirs == prior.dirs);
            assert(result.files == prior.files.insert(e.rel, source_files[e.rel]));
            assert forall|p: Seq<Seq<char>>|
                #[trigger] result.files.dom().contains(p) <==> (dest.files.dom().contains(p)
                || has_file(plan, p)) by {
                assert(prior.files.dom().contains(p) <==> (dest.files.dom().contains(p)
                    || has_file(rest, p)));
            }
            assert forall|p: Seq<Seq<char>>|
                #[trigger] result.files.dom().contains(p) implies result.files[p] == (if has_file(
                plan,
                p,
            ) {
                source_files[p]
            } else {
                dest.files[p]
            }) by {
                if p == e.rel {
                    assert(result.files[p] == source_files[e.rel]);
                } else {
                    assert(result.files[p] == prior.files[p]);
                    assert(prior.files.dom().contains(p));
                }
            }
        }
    }
}

/// With no ignore rules the plan keeps every walked entry.
pub proof fn lemma_plan_no_rules(entries: Seq<EntryModel>)
    ensures
        plan_spec(entries, Seq::<Seq<char>>::empty()) == entries,
    decreases entries.len(),
{
    if entries.len() > 0 {
        lemma_plan_no_rules(entries.drop_last());
        assert(plan_spec(entries, Seq::<Seq<char>>::empty()) =~= entries);
    }
}

/// No entry of a plan is excluded by the rules the plan was computed under.
pub proof fn lemma_plan_not_excluded(entries: Seq<EntryModel>, patterns: Seq<Seq<char>>)
    ensures
        forall|i: int|
            0 <= i < plan_spec(entries, patterns).len() ==> !spec_excluded(
                patterns,
                #[trigger] plan_spec(entries, patterns)[i].rel,
                plan_spec(entries, patterns)[i].is_dir,
            ),
    decreases entries.len(),
{
    if entries.len() > 0 {
        lemma_plan_not_excluded(entries.drop_last(), patterns);
        let kept = plan_spec(entries, patterns);
        let rest = plan_spec(entries.drop_last(), patterns);
        let e = entries.last();
        assert forall|i: int| 0 <= i < kept.len() implies !spec_excluded(
            patterns,
            #[trigger] kept[i].rel,
            kept[i].is_dir,
        ) by {
            if spec_excluded(patterns, e.rel, e.is_dir) {
                assert(kept[i] == rest[i]);
                assert(!spec_excluded(patterns, rest[i].rel, rest[i].is_dir));
            } else {
                if i < rest.len() {
                    assert(kept[i] == rest[i]);
                    assert(!spec_excluded(patterns, rest[i].rel, rest[i].is_dir));
                } else {
                    assert(kept[i] == e);
                }
            }
        }
    }
}

/// Round trip: with no ignore rules, copying a source tree into an empty
/// destination yields exactly the source's files — same relative paths, same
/// bytes — and exactly its mirrored directory structure.
pub proof fn lemma_round_trip(
    entries: Seq<EntryModel>,
    source_files: Map<Seq<Seq<char>>, Seq<u8>>,
)
    ensures
        forall|p: Seq<Seq<char>>|
            #[trigger] copied_tree(entries, Seq::<Seq<char>>::empty(), source_files)
                .files.dom().contains(p) <==> has_file(entries, p),
        forall|p: Seq<Seq<char>>|
            #[trigger] copied_tree(entries, Seq::<Seq<char>>::empty(), source_files)
                .files.dom().contains(p) ==> copied_tree(
                entries,
                Seq::<Seq<char>>::empty(),
                source_files,
            ).files[p] == source_files[p],
        forall|p: Seq<Seq<char>>|
            #[trigger] copied_tree(entries, Seq::<Seq<char>>::empty(), source_files).dirs.contains(
                p,
            ) <==> has_dir(entries, p),
{
    lemma_plan_no_rules(entries);
    lemma_apply_plan(entries, source_files, dest_empty());
}

/// Ignore respected: a path whose name — or any enclosing directory's name —
/// the ignore rules mark as ignored ends up nowhere in the destination,
/// neither as a file nor as a directory.
pub proof fn lemma_ignore_respected(
    entries: Seq<EntryModel>,
    patterns: Seq<Seq<char>>,
    source_files: Map<Seq<Seq<char>>, Seq<u8>>,
    q: Seq<Seq<char>>,
)
    requires
        patterns.len() > 0,
        exists|k: int|
            1 <= k <= q.len() && ignore_match(patterns, rel_string(#[trigger] q.take(k)), true)
                && ignore_match(patterns, rel_string(q.take(k)), false),
    ensures
        !copied_tree(entries, patterns, source_files).files.dom().contains(q),
        !copied_tree(entries, patterns, source_files).dirs.contains(q),
{
    let plan = plan_spec(entries, patterns);
    lemma_apply_plan(plan, source_files, dest_empty());
    lemma_plan_not_excluded(entries, patterns);
    let k = choose|k: int|
        1 <= k <= q.len() && ignore_match(patterns, rel_string(#[trigger] q.take(k)), true)
            && ignore_match(patterns, rel_string(q.take(k)), false);
    if copied_tree(entries, patterns, source_files).files.dom().contains(q) {
        let i = choose|i: int| 0 <= i < plan.len() && plan[i].rel == q && !plan[i].is_dir;
        assert(spec_excluded(patterns, q, false)) by {
            assert(ignore_match(patterns, rel_string(q.take(k)), k < q.len() || false));
        }
        assert(false);
    }
    if copied_tree(entries, patterns, source_files).dirs.contains(q) {
        let i = choose|i: int| 0 <= i < plan.len() && plan[i].rel == q && plan[i].is_dir;
        assert(spec_excluded(patterns, q, true)) by {
            assert(ignore_match(patterns, rel_string(q.take(k)), k < q.len() || true));
        }
        assert(false);
    }
}

/// Idempotent re-copy: running the same plan a second time changes nothing —
/// copying overwrites files with the same bytes and re-creates the same
/// directories, whatever the destination held before the first run.
pub proof fn lemma_recopy_idempotent(
    plan: Seq<EntryModel>,
    source_files: Map<Seq<Seq<char>>, Seq<u8>>,
    dest: DestModel,
)
    ensures
        apply_plan(plan, source_files, apply_plan(plan, source_files, dest)) == apply_plan(
            plan,
            source_files,
            dest,
        ),
{
    let once = apply_plan(plan, source_files, dest);
    let twice = apply_plan(plan, source_files, once);
    lemma_apply_plan(plan, source_files, dest);
    lemma_apply_plan(plan, source_files, once);
    assert(twice.files =~= once.files);
    assert(twice.dirs =~= once.dirs);
    assert(twice =~= once);
}

} // verus!
