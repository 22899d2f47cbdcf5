//! Compiling the project, and the fixup pass that dealiases its binaries.
//!
//! `Compile` resolves to one `Build.bat` invocation. `FixupBinaries` walks
//! every module manifest, computes a rename plan per manifest (see
//! [`crate::editor_modules`]), opens the whole touched-path set for edit in
//! one batched source-control request, then relocates the files; the
//! functions here compute those path sets and invocations, while the file
//! reads, copies and deletes happen outside the crate.

use vstd::prelude::*;

use crate::config::{target_key_spec, Config, MissingValue};
use crate::editor_modules::pair_views;
use crate::errors::Error;
use crate::paths::{parent_of, path_join, windows_path_of};
use crate::process::ProcessInvocation;
use crate::strutil::views_of;
use crate::types::{AsUnrealStr, Configuration, Platform, Target};

verus! {

/// Compiles the code for the project.
#[derive(Clone, Debug)]
pub struct Compile {
    pub target: Target,
    pub platform: Platform,
    pub configuration: Configuration,
}

impl Compile {
    /// The single `Build.bat` invocation a compile resolves to, or
    /// `MissingValue` when the requested target's build name was never
    /// discovered.
    pub fn invocation(&self, config: &Config) -> (r: Result<ProcessInvocation, Error>)
        ensures
            config.target_spec(self.target) is None ==> r == Err::<ProcessInvocation, Error>(
                Error::MissingValue(MissingValue(target_key_spec(self.target))),
            ),
            config.target_spec(self.target) is Some ==> {
                &&& r is Ok
                &&& r->Ok_0.program@ == path_join(
                    config.engine_path@,
                    "Build/BatchFiles/Build.bat"@,
                )
                &&& r->Ok_0.working_dir == Some(config.project_root)
                &&& views_of(r->Ok_0.args@) == seq![
                    config.target_spec(self.target)->Some_0@,
                    self.configuration.ue_spec(),
                    self.platform.ue_spec(),
                ]
            },
    {
        let target_name: String = match config.get_project_target(self.target) {
            Some(n) => n.clone(),
            None => {
                return Err(Error::MissingValue(MissingValue(crate::config::target_key(
                    self.target,
                ))));
            },
        };
        let batch = crate::paths::join(config.engine_path.as_str(), "Build/BatchFiles/Build.bat");
        let mut inv = ProcessInvocation::new(batch, Some(config.project_root.clone()));
        inv.arg(target_name);
        inv.arg(String::from_str(self.configuration.as_ue()));
        inv.arg(String::from_str(self.platform.as_ue()));
        proof {
            assert(views_of(inv.args@) =~= seq![
                config.target_spec(self.target)->Some_0@,
                self.configuration.ue_spec(),
                self.platform.ue_spec(),
            ]);
        }
        Ok(inv)
    }
}

/// Dealiases the binaries for the project and its plugins.
#[derive(Clone, Debug)]
pub struct FixupBinaries;

/// The before-and-after paths of every rename, resolved against the
/// manifest's directory, in plan order.
pub open spec fn checkout_pairs(
    manifest_path: Seq<char>,
    plan: Seq<(Seq<char>, Seq<char>)>,
) -> Seq<Seq<char>>
    decreases plan.len(),
{
    if plan.len() == 0 {
        Seq::empty()
    } else {
        seq![
            path_join(parent_of(manifest_path), plan[0].0),
            path_join(parent_of(manifest_path), plan[0].1),
        ] + checkout_pairs(manifest_path, plan.drop_first())
    }
}

/// Every path one manifest's renames touch, for the batched checkout: the
/// manifest itself, then every rename's existing and target path.
pub open spec fn checkout_spec(
    manifest_path: Seq<char>,
    plan: Seq<(Seq<char>, Seq<char>)>,
) -> Seq<Seq<char>> {
    seq![manifest_path] + checkout_pairs(manifest_path, plan)
}

/// The rename plan resolved against the manifest's directory.
pub open spec fn moves_spec(
    manifest_path: Seq<char>,
    plan: Seq<(Seq<char>, Seq<char>)>,
) -> Seq<(Seq<char>, Seq<char>)> {
    plan.map_values(
        |p: (Seq<char>, Seq<char>)| (
            path_join(parent_of(manifest_path), p.0),
            path_join(parent_of(manifest_path), p.1),
        ),
    )
}

proof fn lemma_checkout_pairs_index(
    manifest_path: Seq<char>,
    plan: Seq<(Seq<char>, Seq<char>)>,
    i: int,
)
    requires
        0 <= i < plan.len(),
    ensures
        checkout_pairs(manifest_path, plan).len() == 2 * plan.len(),
        checkout_pairs(manifest_path, plan)[2 * i] == path_join(
            parent_of(manifest_path),
            plan[i].0,
        ),
        checkout_pairs(manifest_path, plan)[2 * i + 1] == path_join(
            parent_of(manifest_path),
            plan[i].1,
        ),
    decreases plan.len(),
{
    lemma_checkout_pairs_len(manifest_path, plan);
    lemma_checkout_pairs_len(manifest_path, plan.drop_first());
    if i > 0 {
        lemma_checkout_pairs_index(manifest_path, plan.drop_first(), i - 1);
        assert(plan.drop_first()[i - 1] == plan[i]);
    }
}

proof fn lemma_checkout_pairs_len(manifest_path: Seq<char>, plan: Seq<(Seq<char>, Seq<char>)>)
    ensures
        checkout_pairs(manifest_path, plan).len() == 2 * plan.len(),
    decreases plan.len(),
{
    if plan.len() > 0 {
        lemma_checkout_pairs_len(manifest_path, plan.drop_first());
    }
}

/// The checkout batch covers the whole rename plan: every move's existing
/// and target path is in the set opened for edit, so no file is relocated
/// outside the batched source-control request.
pub proof fn lemma_plan_fully_checked_out(
    manifest_path: Seq<char>,
    plan: Seq<(Seq<char>, Seq<char>)>,
)
    ensures
        forall|i: int|
            0 <= i < moves_spec(manifest_path, plan).len() ==> checkout_spec(
                manifest_path,
                plan,
            ).contains(#[trigger] moves_spec(manifest_path, plan)[i].0) && checkout_spec(
                manifest_path,
                plan,
            ).contains(moves_spec(manifest_path, plan)[i].1),
{
    let ms = moves_spec(manifest_path, plan);
    let cs = checkout_spec(manifest_path, plan);
    assert forall|i: int|
        0 <= i < ms.len() implies cs.contains(#[trigger] ms[i].0) && cs.contains(ms[i].1) by {
        lemma_checkout_pairs_index(manifest_path, plan, i);
        assert(cs[1 + 2 * i] == ms[i].0);
        assert(cs[1 + 2 * i + 1] == ms[i].1);
    }
}

/// Resolve one manifest's rename plan into the paths to check out and the
/// file moves to apply.
pub fn fixup_module_plan(manifest_path: &str, plan: &Vec<(String, String)>) -> (r: (
    Vec<String>,
    Vec<(String, String)>,
))
    ensures
        views_of(r.0@) == checkout_spec(manifest_path@, pair_views(plan@)),
        pair_views(r.1@) == moves_spec(manifest_path@, pair_views(plan@)),
{
    let dir = crate::paths::parent(manifest_path);
    let ghost pv = pair_views(plan@);
    let mut checkout: Vec<String> = Vec::new();
    let mut moves: Vec<(String, String)> = Vec::new();
    checkout.push(manifest_path.to_owned());
    let mut i: usize = 0;
    proof {
        assert(pv.subrange(0, pv.len() as int) =~= pv);
        assert(views_of(checkout@) =~= seq![manifest_path@]);
    }
    while i < plan.len()
        invariant
            dir@ == parent_of(manifest_path@),
            pv == pair_views(plan@),
            i <= plan@.len(),
            moves@.len() == i,
            views_of(checkout@) + checkout_pairs(
                manifest_path@,
                pv.subrange(i as int, pv.len() as int),
            ) == checkout_spec(manifest_path@, pv),
            pair_views(moves@) =~= moves_spec(manifest_path@, pv).subrange(0, i as int),
        decreases plan@.len() - i,
    {
        let ghost suffix = pv.subrange(i as int, pv.len() as int);
        proof {
            assert(pv[i as int] == (plan@[i as int].0@, plan@[i as int].1@));
            assert(suffix[0] == pv[i as int]);
            assert(suffix.drop_first() =~= pv.subrange(i + 1, pv.len() as int));
            assert(moves_spec(manifest_path@, pv)[i as int] == (
                path_join(parent_of(manifest_path@), pv[i as int].0),
                path_join(parent_of(manifest_path@), pv[i as int].1),
            ));
        }
        let from = crate::paths::join(dir.as_str(), plan[i].0.as_str());
        let to = crate::paths::join(dir.as_str(), plan[i].1.as_str());
        let ghost checkout_before = checkout@;
        checkout.push(from.clone());
        checkout.push(to.clone());
        moves.push((from, to));
        proof {
            assert(views_of(checkout@) =~= views_of(checkout_before) + seq![
                path_join(parent_of(manifest_path@), suffix[0].0),
                path_join(parent_of(manifest_path@), suffix[0].1),
            ]);
            assert(views_of(checkout@) + checkout_pairs(manifest_path@, suffix.drop_first())
                =~= checkout_spec(manifest_path@, pv));
            assert(pair_views(moves@) =~= moves_spec(manifest_path@, pv).subrange(0, i + 1 as int));
        }
        i += 1;
    }
    proof {
        let ms = moves_spec(manifest_path@, pv);
        assert(ms.subrange(0, ms.len() as int) =~= ms);
        assert(pv.subrange(pv.len() as int, pv.len() as int) =~= Seq::<(Seq<char>, Seq<char>)>::empty());
        assert(views_of(checkout@) + Seq::<Seq<char>>::empty() =~= views_of(checkout@));
    }
    (checkout, moves)
}

/// The batched source-control request that opens every touched path for
/// edit, each path rendered in the Windows form the tool expects.
pub fn checkout_invocation(project_root: &str, files: &Vec<String>) -> (r: ProcessInvocation)
    ensures
        r.program@ == "p4.exe"@,
        r.working_dir is Some && r.working_dir->Some_0@ == project_root@,
        views_of(r.args@) == seq!["edit"@] + views_of(files@).map_values(
            |f: Seq<char>| windows_path_of(f),
        ),
{
    let mut inv = ProcessInvocation::new(
        String::from_str("p4.exe"),
        Some(project_root.to_owned()),
    );
    inv.arg(String::from_str("edit"));
    let ghost goal = seq!["edit"@] + views_of(files@).map_values(|f: Seq<char>| windows_path_of(f));
    let mut i: usize = 0;
    while i < files.len()
        invariant
            goal == seq!["edit"@] + views_of(files@).map_values(|f: Seq<char>| windows_path_of(f)),
            i <= files@.len(),
            inv.program@ == "p4.exe"@,
            inv.working_dir is Some && inv.working_dir->Some_0@ == project_root@,
            inv.args@.len() == i + 1,
            views_of(inv.args@) =~= goal.subrange(0, i + 1 as int),
        decreases files@.len() - i,
    {
        let w = crate::paths::windows_path(files[i].as_str());
        inv.arg(w);
        proof {
            assert(views_of(files@)[i as int] == files@[i as int]@);
            assert(goal[i + 1 as int] == windows_path_of(views_of(files@)[i as int]));
            assert(views_of(inv.args@) =~= goal.subrange(0, i + 2 as int));
        }
        i += 1;
    }
    proof {
        assert(goal.subrange(0, goal.len() as int) =~= goal);
    }
    inv
}

/// The permission-clearing command run on each rename endpoint before the
/// copy, with no working directory of its own.
pub fn make_writable_invocation(path: &str) -> (r: ProcessInvocation)
    ensures
        r.program@ == "chmod"@,
        r.working_dir is None,
        views_of(r.args@) == seq!["777"@, path@],
{
    let mut inv = ProcessInvocation::new(String::from_str("chmod"), None);
    inv.arg(String::from_str("777"));
    inv.arg(path.to_owned());
    proof {
        assert(views_of(inv.args@) =~= seq!["777"@, path@]);
    }
    inv
}

} // verus!
