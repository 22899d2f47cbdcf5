//! The binary-module manifest and the dealiasing algorithm.
//!
//! A manifest maps module names to the file names of their compiled
//! binaries. Dealiasing rewrites every entry to the fixed naming convention
//! `UE4Editor-<module>.dll` and returns the rename plan — a `(from, to)`
//! pair for each misnamed binary, always paired with its debug-symbol
//! sibling. The manifest is parsed from and persisted to JSON outside this
//! crate.

use vstd::prelude::*;

use crate::paths::with_ext;
use crate::strutil::{concat3, ends_with, str_eq, views_of};

verus! {

/// The view of a sequence of string pairs.
pub open spec fn pair_views(v: Seq<(String, String)>) -> Seq<(Seq<char>, Seq<char>)> {
    v.map_values(|p: (String, String)| (p.0@, p.1@))
}

/// The manifest: a build identifier and the module-name → binary-file-name
/// entries, in their stored order.
#[derive(Clone, Debug)]
pub struct BinaryModule {
    pub build_id: String,
    pub modules: Vec<(String, String)>,
}

/// The binary file name the convention demands for a module.
pub open spec fn desired_name(module: Seq<char>) -> Seq<char> {
    "UE4Editor-"@ + module + ".dll"@
}

/// The debug-symbol sibling of a binary file name.
pub open spec fn pdb_of(name: Seq<char>) -> Seq<char> {
    with_ext(name, "pdb"@)
}

/// The manifest entries after dealiasing: every module keeps its name and
/// gets the conventional binary file name.
pub open spec fn dealias_result(mods: Seq<(Seq<char>, Seq<char>)>) -> Seq<(Seq<char>, Seq<char>)> {
    mods.map_values(|m: (Seq<char>, Seq<char>)| (m.0, desired_name(m.0)))
}

/// The rename plan: for each entry whose stored name disagrees with the
/// convention, the binary rename followed immediately by its debug-symbol
/// rename; correctly-named entries contribute nothing.
pub open spec fn dealias_plan(mods: Seq<(Seq<char>, Seq<char>)>) -> Seq<(Seq<char>, Seq<char>)>
    decreases mods.len(),
{
    if mods.len() == 0 {
        Seq::empty()
    } else {
        let m = mods[0];
        let rest = dealias_plan(mods.drop_first());
        if m.1 == desired_name(m.0) {
            rest
        } else {
            seq![(m.1, desired_name(m.0)), (pdb_of(m.1), pdb_of(desired_name(m.0)))] + rest
        }
    }
}

fn desired_name_exec(module: &str) -> (r: String)
    ensures
        r@ == desired_name(module@),
{
    concat3("UE4Editor-", module, ".dll")
}

impl BinaryModule {
    /// Rewrite every entry to the conventional binary name and return the
    /// rename plan. A manifest already in convention yields an empty plan
    /// and ends up unchanged.
    pub fn dealias(&mut self) -> (plan: Vec<(String, String)>)
        ensures
            final(self).build_id == old(self).build_id,
            pair_views(final(self).modules@) == dealias_result(pair_views(old(self).modules@)),
            pair_views(plan@) == dealias_plan(pair_views(old(self).modules@)),
    {
        let ghost mv = pair_views(old(self).modules@);
        let n = self.modules.len();
        let mut plan: Vec<(String, String)> = Vec::new();
        let mut i: usize = 0;
        proof {
            assert(mv.subrange(0, mv.len() as int) =~= mv);
        }
        while i < n
            invariant
                mv == pair_views(old(self).modules@),
                n == self.modules@.len(),
                n == mv.len(),
                self.build_id == old(self).build_id,
                i <= n,
                forall|j: int|
                    0 <= j < i ==> #[trigger] pair_views(self.modules@)[j] == (
                        mv[j].0,
                        desired_name(mv[j].0),
                    ),
                forall|j: int| i <= j < n ==> self.modules@[j] == old(self).modules@[j],
                pair_views(plan@) + dealias_plan(mv.subrange(i as int, n as int)) == dealias_plan(
                    mv,
                ),
            decreases n - i,
        {
            let ghost suffix = mv.subrange(i as int, n as int);
            proof {
                assert(self.modules@[i as int] == old(self).modules@[i as int]);
                assert(suffix[0] == (self.modules@[i as int].0@, self.modules@[i as int].1@));
                assert(suffix.drop_first() =~= mv.subrange(i + 1, n as int));
            }
            let desired = desired_name_exec(self.modules[i].0.as_str());
            if !str_eq(self.modules[i].1.as_str(), desired.as_str()) {
                let existing = self.modules[i].1.clone();
                let existing_pdb = crate::paths::replace_extension(existing.as_str(), "pdb");
                let desired_pdb = crate::paths::replace_extension(desired.as_str(), "pdb");
                let ghost plan_before = plan@;
                plan.push((existing, desired.clone()));
                plan.push((existing_pdb, desired_pdb));
                proof {
                    assert(pair_views(plan@) =~= pair_views(plan_before) + seq![
                        (suffix[0].1, desired_name(suffix[0].0)),
                        (pdb_of(suffix[0].1), pdb_of(desired_name(suffix[0].0))),
                    ]);
                }
            }
            let name = self.modules[i].0.clone();
            let ghost before_set = self.modules@;
            self.modules.set(i, (name, desired));
            proof {
                assert forall|j: int|
                    0 <= j <= i implies #[trigger] pair_views(self.modules@)[j] == (
                    mv[j].0,
                    desired_name(mv[j].0),
                ) by {
                    if j < i {
                        assert(self.modules@[j] == before_set[j]);
                        assert(pair_views(before_set)[j] == (mv[j].0, desired_name(mv[j].0)));
                    } else {
                        assert(self.modules@[i as int].0@ == mv[i as int].0);
                        assert(self.modules@[i as int].1@ == desired_name(mv[i as int].0));
                    }
                }
            }
            i += 1;
        }
        proof {
            assert(mv.subrange(n as int, n as int) =~= Seq::<(Seq<char>, Seq<char>)>::empty());
            assert(pair_views(self.modules@) =~= dealias_result(mv));
        }
        plan
    }
}

/// The renames of binary files in a plan.
pub open spec fn dll_renames(plan: Seq<(Seq<char>, Seq<char>)>) -> Seq<(Seq<char>, Seq<char>)> {
    plan.filter(|p: (Seq<char>, Seq<char>)| ends_with(p.1, ".dll"@))
}

/// The renames of debug-symbol files in a plan.
pub open spec fn pdb_renames(plan: Seq<(Seq<char>, Seq<char>)>) -> Seq<(Seq<char>, Seq<char>)> {
    plan.filter(|p: (Seq<char>, Seq<char>)| ends_with(p.1, ".pdb"@))
}

proof fn lemma_desired_ends_dll(module: Seq<char>)
    ensures
        ends_with(desired_name(module), ".dll"@),
        !ends_with(desired_name(module), ".pdb"@),
{
    reveal_strlit(".dll");
    reveal_strlit(".pdb");
    reveal_strlit("UE4Editor-");
    let d = desired_name(module);
    assert(d.subrange(d.len() - 4, d.len() as int) =~= ".dll"@);
    assert(d[d.len() - 1] == 'l');
    if ends_with(d, ".pdb"@) {
        assert(d.subrange(d.len() - 4, d.len() as int)[3] == ".pdb"@[3]);
    }
}

proof fn lemma_pdb_ends_pdb(name: Seq<char>)
    ensures
        ends_with(pdb_of(name), ".pdb"@),
        !ends_with(pdb_of(name), ".dll"@),
{
    reveal_strlit(".dll");
    reveal_strlit(".pdb");
    reveal_strlit("pdb");
    let p = pdb_of(name);
    assert(p =~= crate::paths::strip_ext(name) + seq!['.'] + "pdb"@);
    assert(p.subrange(p.len() - 4, p.len() as int) =~= ".pdb"@);
    assert(p[p.len() - 1] == 'b');
    if ends_with(p, ".dll"@) {
        assert(p.subrange(p.len() - 4, p.len() as int)[3] == ".dll"@[3]);
    }
}

/// A `.dll`/`.pdb` pair is always renamed together: in every dealiasing
/// rename plan, the count of debug-symbol renames equals the count of
/// binary renames.
pub proof fn lemma_dll_pdb_paired(mods: Seq<(Seq<char>, Seq<char>)>)
    ensures
        dll_renames(dealias_plan(mods)).len() == pdb_renames(dealias_plan(mods)).len(),
    decreases mods.len(),
{
    reveal(Seq::filter);
    let dll_pred = |p: (Seq<char>, Seq<char>)| ends_with(p.1, ".dll"@);
    let pdb_pred = |p: (Seq<char>, Seq<char>)| ends_with(p.1, ".pdb"@);
    if mods.len() == 0 {
    } else {
        let m = mods[0];
        let rest = dealias_plan(mods.drop_first());
        lemma_dll_pdb_paired(mods.drop_first());
        if m.1 == desired_name(m.0) {
        } else {
            let head = seq![(m.1, desired_name(m.0)), (pdb_of(m.1), pdb_of(desired_name(m.0)))];
            Seq::filter_distributes_over_add(head, rest, dll_pred);
            Seq::filter_distributes_over_add(head, rest, pdb_pred);
            lemma_desired_ends_dll(m.0);
            lemma_pdb_ends_pdb(m.1);
            lemma_pdb_ends_pdb(desired_name(m.0));
            let single = seq![(m.1, desired_name(m.0))];
            assert(head.last() == (pdb_of(m.1), pdb_of(desired_name(m.0))));
            assert(head.drop_last() =~= single);
            assert(single.last() == (m.1, desired_name(m.0)));
            assert(single.drop_last() =~= Seq::<(Seq<char>, Seq<char>)>::empty());
            assert(dll_pred((m.1, desired_name(m.0))));
            assert(!dll_pred((pdb_of(m.1), pdb_of(desired_name(m.0)))));
            assert(pdb_pred((pdb_of(m.1), pdb_of(desired_name(m.0)))));
            assert(!pdb_pred((m.1, desired_name(m.0))));
            assert(Seq::<(Seq<char>, Seq<char>)>::empty().filter(dll_pred).len() == 0);
            assert(Seq::<(Seq<char>, Seq<char>)>::empty().filter(pdb_pred).len() == 0);
            assert(single.filter(dll_pred).len() == 1);
            assert(single.filter(pdb_pred).len() == 0);
            assert(head.filter(dll_pred).len() == 1);
            assert(head.filter(pdb_pred).len() == 1);
        }
    }
}

/// Dealiasing is idempotent: a manifest already rewritten to convention
/// produces an empty rename plan and is left exactly as it stands.
pub proof fn lemma_dealias_idempotent(mods: Seq<(Seq<char>, Seq<char>)>)
    ensures
        dealias_plan(dealias_result(mods)) == Seq::<(Seq<char>, Seq<char>)>::empty(),
        dealias_result(dealias_result(mods)) == dealias_result(mods),
    decreases mods.len(),
{
    let r = dealias_result(mods);
    if mods.len() == 0 {
        assert(r.len() == 0);
    } else {
        lemma_dealias_idempotent(mods.drop_first());
        assert(r[0] == (mods[0].0, desired_name(mods[0].0)));
        assert(r.drop_first() =~= dealias_result(mods.drop_first()));
    }
    assert(dealias_result(r) =~= r);
}

} // verus!
