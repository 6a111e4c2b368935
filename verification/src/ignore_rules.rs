use vstd::prelude::*;
use crate::paths::rel_string;

verus! {

/// The verdict of gitignore-style matching: whether `patterns` (the lines of
/// an ignore file at the root of a tree) mark the relative path `rel_path` as
/// ignored, `is_dir` saying whether that path names a directory. The verdict
/// is a function of these three values alone.
pub uninterp spec fn ignore_match(patterns: Seq<Seq<char>>, rel_path: Seq<char>, is_dir: bool) -> bool;

/// Relies on `ignore::gitignore`: `GitignoreBuilder::add_line` reads one
/// ignore-file pattern line (handling comments, blank lines, negation and
/// directory-only markers), and `Gitignore::matched` decides one relative
/// path against the accumulated patterns. The verdict depends only on the
/// pattern lines, the path and the directory flag.
#[verifier::external_body]
fn gitignore_verdict(patterns: &Vec<String>, rel_path: &String, is_dir: bool) -> (r: bool)
    ensures
        r == ignore_match(patterns.deep_view(), rel_path@, is_dir),
{
    let mut builder = ignore::gitignore::GitignoreBuilder::new(".");
    for line in patterns.iter() {
        let _ = builder.add_line(None, line);
    }
    match builder.build() {
        Ok(matcher) => matcher.matched(rel_path.as_str(), is_dir).is_ignore(),
        Err(_) => false,
    }
}

/// Whether the entry at relative path `rel` is excluded from a copy: some
/// prefix of its path — an enclosing directory, or the entry itself — is
/// marked ignored by the patterns. With no pattern lines at all nothing is
/// excluded. The root of the tree (the empty path) is never excluded.
pub open spec fn spec_excluded(patterns: Seq<Seq<char>>, rel: Seq<Seq<char>>, is_dir: bool) -> bool {
    patterns.len() > 0 && exists|k: int|
        1 <= k <= rel.len() && ignore_match(
            patterns,
            rel_string(#[trigger] rel.take(k)),
            k < rel.len() || is_dir,
        )
}

/// Decides [`spec_excluded`] by asking the matcher about every prefix of the
/// path: enclosing directories first, the entry itself last.
pub fn is_excluded(patterns: &Vec<String>, rel: &Vec<String>, is_dir: bool) -> (r: bool)
    ensures
        r == spec_excluded(patterns.deep_view(), rel.deep_view(), is_dir),
{
    proof {
        reveal_strlit("/");
    }
    let ghost pats = patterns.deep_view();
    let ghost dv = rel.deep_view();
    if patterns.len() == 0 || rel.len() == 0 {
        return false;
    }
    let n = rel.len();
    let mut prefix = rel[0].clone();
    proof {
        assert(dv.take(1) =~= seq![dv[0]]);
        assert(rel_string(dv.take(1)) == dv[0]);
    }
    let mut k: usize = 1;
    while k < n
        invariant
            1 <= k <= n,
            n == rel.len(),
            pats == patterns.deep_view(),
            dv == rel.deep_view(),
            dv.len() == n,
            pats.len() > 0,
            prefix@ == rel_string(dv.take(k as int)),
            forall|j: int|
                1 <= j < k ==> !ignore_match(pats, rel_string(#[trigger] dv.take(j)), true),
            "/"@ == seq!['/'],
        decreases n - k,
    {
        if gitignore_verdict(patterns, &prefix, true) {
            proof {
                assert(1 <= k <= dv.len() && ignore_match(
                    pats,
                    rel_string(dv.take(k as int)),
                    k < dv.len() || is_dir,
                ));
            }
            return true;
        }
        prefix.append("/");
        prefix.append(rel[k].as_str());
        proof {
            assert(dv[k as int] == rel@[k as int]@);
            assert(dv.take(k as int + 1) =~= dv.take(k as int).push(dv[k as int]));
            crate::paths::lemma_rel_string_push(dv.take(k as int), dv[k as int]);
        }
        k = k + 1;
    }
    let verdict = gitignore_verdict(patterns, &prefix, is_dir);
    proof {
        assert(dv.take(n as int) =~= dv);
        if verdict {
            assert(1 <= n <= dv.len() && ignore_match(
                pats,
                rel_string(dv.take(n as int)),
                n < dv.len() || is_dir,
            ));
        } else {
            assert forall|j: int| 1 <= j <= dv.len() implies !ignore_match(
                pats,
                rel_string(#[trigger] dv.take(j)),
                j < dv.len() || is_dir,
            ) by {
                if j < dv.len() {
                    assert(!ignore_match(pats, rel_string(dv.take(j)), true));
                }
            }
        }
    }
    verdict
}

} // verus!
