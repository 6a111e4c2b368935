use vstd::prelude::*;
use crate::config::{Config, ExternalModel};

verus! {

/// The names of the external-command templates, in registration order.
pub open spec fn external_names(external: Seq<ExternalModel>) -> Seq<Seq<char>> {
    external.map_values(|e: ExternalModel| e.name)
}

/// Whether one of the strings is exactly `name`.
pub fn has_name(names: &Vec<String>, name: &String) -> (r: bool)
    ensures
        r == names.deep_view().contains(name@),
{
    let ghost dv = names.deep_view();
    let mut i: usize = 0;
    while i < names.len()
        invariant
            i <= names.len(),
            dv == names.deep_view(),
            dv.len() == names.len(),
            forall|j: int| 0 <= j < i ==> dv[j] != name@,
        decreases names.len() - i,
    {
        if names[i] == *name {
            proof {
                assert(dv[i as int] == name@);
            }
            return true;
        }
        i = i + 1;
    }
    false
}

/// Every available template name: the template directories found under the
/// templates root, followed by the external-command names. A name is
/// available exactly when it comes from one of the two sources.
pub fn template_names(template_dirs: &Vec<String>, config: &Config) -> (names: Vec<String>)
    ensures
        names.deep_view() == template_dirs.deep_view() + external_names(
            config.deep_view().external,
        ),
        forall|n: Seq<char>|
            names.deep_view().contains(n) <==> (template_dirs.deep_view().contains(n)
                || external_names(config.deep_view().external).contains(n)),
{
    let ghost dirs = template_dirs.deep_view();
    let ghost ext = config.deep_view().external;
    let mut names = crate::paths::clone_strings(template_dirs);
    proof {
        assert(names.deep_view() =~= dirs);
        assert(ext.map_values(|e: ExternalModel| e.name).take(0) =~= Seq::<Seq<char>>::empty());
        assert(names.deep_view() =~= dirs + external_names(ext).take(0));
    }
    let mut i: usize = 0;
    while i < config.external.len()
        invariant
            i <= config.external.len(),
            dirs == template_dirs.deep_view(),
            ext == config.deep_view().external,
            ext.len() == config.external.len(),
            names.deep_view() == dirs + external_names(ext).take(i as int),
        decreases config.external.len() - i,
    {
        let ghost pre = names.deep_view();
        names.push(config.external[i].name.clone());
        proof {
            assert(ext[i as int] == config.external@[i as int].deep_view());
            assert(names.deep_view() =~= pre.push(ext[i as int].name));
            assert(external_names(ext).take(i as int + 1) =~= external_names(ext).take(
                i as int,
            ).push(ext[i as int].name));
            assert(names.deep_view() =~= dirs + external_names(ext).take(i as int + 1));
        }
        i = i + 1;
    }
    proof {
        assert(external_names(ext).take(external_names(ext).len() as int) =~= external_names(ext));
        assert forall|n: Seq<char>| #[trigger] names.deep_view().contains(n) implies (
        dirs.contains(n) || external_names(ext).contains(n)) by {
            let i = choose|i: int| 0 <= i < names.deep_view().len() && names.deep_view()[i] == n;
            if i < dirs.len() {
                assert(dirs[i] == n);
            } else {
                assert(external_names(ext)[i - dirs.len()] == n);
            }
        }
        assert forall|n: Seq<char>| (dirs.contains(n) || external_names(ext).contains(
            n,
        )) implies #[trigger] names.deep_view().contains(n) by {
            if dirs.contains(n) {
                let i = choose|i: int| 0 <= i < dirs.len() && dirs[i] == n;
                assert(names.deep_view()[i] == n);
            } else {
                let i = choose|i: int|
                    0 <= i < external_names(ext).len() && external_names(ext)[i] == n;
                assert(names.deep_view()[dirs.len() + i] == n);
            }
        }
    }
    names
}

} // verus!
