//! The project descriptor: engine association and installed plugins.
//!
//! The descriptor itself is parsed from JSON outside this crate and handed
//! in as plain values; the logic here derives the per-module manifest
//! locations that the dealiasing pass walks.

use vstd::prelude::*;

use crate::paths::path_join;
use crate::strutil::views_of;
use crate::types::{AsUnrealStr, Platform};

verus! {

#[derive(Clone, Debug)]
pub struct Plugin {
    pub name: String,
}

#[derive(Clone, Debug)]
pub struct UProject {
    pub engine_association: String,
    pub plugins: Vec<Plugin>,
}

/// The manifest path below one project or plugin root.
pub open spec fn module_rel_path(subpath: Seq<char>, plat: Seq<char>) -> Seq<char> {
    path_join(subpath, "Binaries/"@ + plat + "/UE4Editor.modules"@)
}

/// The manifest paths of the project itself followed by one per plugin.
pub open spec fn module_paths_spec(plugins: Seq<Seq<char>>, plat: Seq<char>) -> Seq<Seq<char>> {
    seq![module_rel_path(Seq::empty(), plat)] + plugins.map_values(
        |name: Seq<char>| module_rel_path("Plugins/"@ + name, plat),
    )
}

impl UProject {
    /// The names of the installed plugins.
    pub open spec fn plugin_names(&self) -> Seq<Seq<char>> {
        self.plugins@.map_values(|p: Plugin| p.name@)
    }

    pub fn get_engine_association(&self) -> (r: Option<&String>)
        ensures
            match r {
                Some(s) => self.engine_association@.len() > 0 && s@ == self.engine_association@,
                None => self.engine_association@.len() == 0,
            },
    {
        if self.engine_association.as_str().is_empty() {
            None
        } else {
            Some(&self.engine_association)
        }
    }

    /// The relative path of every binary-module manifest this project may
    /// own: one at the project root, one per installed plugin.
    pub fn get_module_paths(&self, platform: Platform) -> (r: Vec<String>)
        ensures
            views_of(r@) == module_paths_spec(self.plugin_names(), platform.ue_spec()),
    {
        let plat = platform.as_ue();
        let suffix = crate::strutil::concat3("Binaries/", plat, "/UE4Editor.modules");
        let mut out: Vec<String> = Vec::new();
        out.push(suffix.clone());
        let ghost goal = module_paths_spec(self.plugin_names(), platform.ue_spec());
        proof {
            assert(module_rel_path(Seq::empty(), platform.ue_spec()) == suffix@);
        }
        let mut i: usize = 0;
        while i < self.plugins.len()
            invariant
                suffix@ == "Binaries/"@ + platform.ue_spec() + "/UE4Editor.modules"@,
                goal == module_paths_spec(self.plugin_names(), platform.ue_spec()),
                i <= self.plugins@.len(),
                out@.len() == i + 1,
                views_of(out@) =~= goal.subrange(0, i + 1 as int),
            decreases self.plugins@.len() - i,
        {
            let root = crate::strutil::concat2("Plugins/", self.plugins[i].name.as_str());
            let p = crate::paths::join(root.as_str(), suffix.as_str());
            out.push(p);
            proof {
                let names = self.plugin_names();
                let mapped = names.map_values(
                    |name: Seq<char>| module_rel_path("Plugins/"@ + name, platform.ue_spec()),
                );
                assert(names[i as int] == self.plugins@[i as int].name@);
                assert(mapped[i as int] == module_rel_path(
                    "Plugins/"@ + names[i as int],
                    platform.ue_spec(),
                ));
                assert(goal[i + 1 as int] == mapped[i as int]);
                assert(p@ == goal[i + 1 as int]);
                assert(views_of(out@) =~= goal.subrange(0, i + 2 as int)) by {
                    assert(out@.len() == i + 2);
                    assert(views_of(out@).len() == out@.len());
                    assert(forall|j: int|
                        0 <= j < i + 1 ==> views_of(out@)[j] == #[trigger] goal.subrange(
                            0,
                            i + 1 as int,
                        )[j]);
                    assert(views_of(out@)[i + 1 as int] == p@);
                }
            }
            i += 1;
        }
        proof {
            assert(goal.subrange(0, goal.len() as int) =~= goal);
        }
        out
    }
}

} // verus!
