use vstd::prelude::*;

verus! {

/// One immediate entry of the directory that groups a template's project
/// instances: its base name and whether it is a directory.
pub struct DirEntry {
    pub name: String,
    pub is_dir: bool,
}

/// The mathematical shape of a [`DirEntry`].
pub struct DirEntryModel {
    pub name: Seq<char>,
    pub is_dir: bool,
}

impl DeepView for DirEntry {
    type V = DirEntryModel;

    open spec fn deep_view(&self) -> DirEntryModel {
        DirEntryModel { name: self.name@, is_dir: self.is_dir }
    }
}

/// The project names among a directory's entries: the names of the entries
/// that are directories, in order; plain files are not projects.
pub open spec fn project_names(entries: Seq<DirEntryModel>) -> Seq<Seq<char>>
    decreases entries.len(),
{
    if entries.len() == 0 {
        Seq::<Seq<char>>::empty()
    } else {
        let rest = project_names(entries.drop_last());
        if entries.last().is_dir {
            rest.push(entries.last().name)
        } else {
            rest
        }
    }
}

/// Lists the previously created project instances of a template, given the
/// entries of `target_dir/<template>`. A template whose directory does not
/// exist simply has no projects yet: the listing is empty, not an error.
pub fn list_projects(dir_exists: bool, entries: &Vec<DirEntry>) -> (names: Vec<String>)
    ensures
        dir_exists ==> names.deep_view() == project_names(entries.deep_view()),
        !dir_exists ==> names.deep_view() == Seq::<Seq<char>>::empty(),
{
    let mut names: Vec<String> = Vec::new();
    proof {
        assert(names.deep_view() =~= Seq::<Seq<char>>::empty());
    }
    if !dir_exists {
        return names;
    }
    let ghost dv = entries.deep_view();
    proof {
        assert(dv.take(0) =~= Seq::<DirEntryModel>::empty());
    }
    let mut i: usize = 0;
    while i < entries.len()
        invariant
            i <= entries.len(),
            dv == entries.deep_view(),
            dv.len() == entries.len(),
            names.deep_view() == project_names(dv.take(i as int)),
        decreases entries.len() - i,
    {
        proof {
            assert(dv[i as int] == entries@[i as int].deep_view());
            assert(dv.take(i as int + 1) =~= dv.take(i as int).push(dv[i as int]));
            assert(dv.take(i as int + 1).drop_last() =~= dv.take(i as int));
        }
        if entries[i].is_dir {
            let ghost pre = names.deep_view();
            names.push(entries[i].name.clone());
            proof {
                assert(names.deep_view() =~= pre.push(dv[i as int].name));
            }
        }
        i = i + 1;
    }
    proof {
        assert(dv.take(dv.len() as int) =~= dv);
    }
    names
}

} // verus!
