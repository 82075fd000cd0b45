//! Laws of the host, stated over the same models its contracts use.

use vstd::prelude::*;

use crate::ordered_map::entries_have_key;
use crate::registry::LintPluginContainer;
use crate::registry::RuleHandle;
use crate::runner::load_all;
use crate::runner::PluginDefinition;

verus! {

/// Law: loading two plugin definitions that share a name into a registry
/// that does not hold that name yet registers exactly the first — the
/// second attempt stops the load naming the duplicate, and the registry
/// holds exactly the first definition and nothing else of the pair.
pub proof fn lemma_registration_uniqueness(
    reg: Seq<(Seq<char>, Seq<(Seq<char>, RuleHandle)>)>,
    d1: PluginDefinition,
    d2: PluginDefinition,
)
    requires
        d1.name@ == d2.name@,
        !entries_have_key(reg, d1.name@),
    ensures
        load_all(reg, seq![d1, d2]) == (reg.push(d1.view_pair()), Some(d2.name@)),
{
    let ds = seq![d1, d2];
    assert(ds[0] == d1);
    assert(ds.drop_first() =~= seq![d2]);
    let pushed = reg.push(d1.view_pair());
    assert(pushed[reg.len() as int].0 == d2.name@);
    assert(entries_have_key(pushed, d2.name@));
    assert(load_all(pushed, seq![d2]) == (pushed, Some(d2.name@)));
}

/// Law: the plan a run snapshots names every registered (plugin, rule)
/// pair exactly once, in registration/insertion order — position for
/// position the registry's own contents, with no two positions naming the
/// same pair. Whether earlier invocations of the plan fail changes
/// nothing: the plan is fixed before the run starts.
pub proof fn lemma_run_completeness(c: LintPluginContainer)
    requires
        c.wf(),
    ensures
        c.run_plan().len() == c.registry_view().len(),
        forall|i: int|
            0 <= i < c.registry_view().len() ==> (#[trigger] c.run_plan()[i]).0
                == c.registry_view()[i].0,
        forall|i: int|
            0 <= i < c.registry_view().len() ==> (#[trigger] c.run_plan()[i]).1.len()
                == c.registry_view()[i].1.len(),
        forall|i: int, j: int|
            0 <= i < c.registry_view().len() && 0 <= j < c.registry_view()[i].1.len()
                ==> #[trigger] c.run_plan()[i].1[j] == c.registry_view()[i].1[j].0,
        forall|i1: int, j1: int, i2: int, j2: int|
            0 <= i1 < c.run_plan().len() && 0 <= j1 < c.run_plan()[i1].1.len() && 0 <= i2
                < c.run_plan().len() && 0 <= j2 < c.run_plan()[i2].1.len() && (i1 != i2 || j1 != j2)
                ==> (c.run_plan()[i1].0, #[trigger] c.run_plan()[i1].1[j1]) != (
            c.run_plan()[i2].0,
            #[trigger] c.run_plan()[i2].1[j2],
        ),
{
    assert forall|i1: int, j1: int, i2: int, j2: int|
        0 <= i1 < c.run_plan().len() && 0 <= j1 < c.run_plan()[i1].1.len() && 0 <= i2
            < c.run_plan().len() && 0 <= j2 < c.run_plan()[i2].1.len() && (i1 != i2 || j1
            != j2) implies (c.run_plan()[i1].0, #[trigger] c.run_plan()[i1].1[j1]) != (
        c.run_plan()[i2].0,
        #[trigger] c.run_plan()[i2].1[j2],
    ) by {
        if i1 != i2 {
            assert(c.plugins_seq()[i1].0 != c.plugins_seq()[i2].0);
            assert(c.run_plan()[i1].0 != c.run_plan()[i2].0);
        } else {
            let rules = crate::registry::rule_entries(c.plugins_seq()[i1].1.rules);
            assert(rules[j1].0 != rules[j2].0);
        }
    }
}

} // verus!
