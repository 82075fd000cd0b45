//! The runner's side of the host: the request/response protocol envelope
//! and the decisions its run loop makes. The loop itself lives with the
//! embedding (it owns the engine and the channels); each of its steps that
//! computes or changes host state is a verified function here:
//! registration of freshly deserialized plugin definitions, snapshotting
//! the rule plan, and draining the diagnostics buffer into a response.

use vstd::prelude::*;

use crate::diagnostics::Diagnostic;
use crate::diagnostics::HostError;
use crate::ordered_map::entries_have_key;
use crate::ordered_map::entries_unique;
use crate::registry::rule_entries;
use crate::registry::rule_map_new;
use crate::registry::rule_map_insert;
use crate::registry::rule_map_keys;
use crate::registry::plugin_map_get;
use crate::registry::plugin_map_keys;
use crate::registry::lemma_view_key_equiv;
use crate::registry::LintPluginContainer;
use crate::registry::LintPluginDesc;
use crate::registry::RuleHandle;

verus! {

/// A request sent from a proxy to the runner: load these plugin modules,
/// or run every registered rule against this serialized syntax tree.
#[derive(Debug)]
pub enum PluginRunnerRequest {
    LoadPlugins(Vec<String>),
    Run(String),
}

/// The runner's answer: one response per request, in order.
#[derive(Debug, PartialEq, Eq)]
pub enum PluginRunnerResponse {
    LoadPlugin(Result<(), HostError>),
    Run(Result<Vec<Diagnostic>, HostError>),
}

/// One rule of a plugin definition: the callable entry point the engine
/// handed back for it.
#[derive(Clone, Copy, Debug, PartialEq, Eq, Structural)]
pub struct RuleDefinition {
    pub create: RuleHandle,
}

/// A plugin module's default export after deserialization: its name and
/// its rules in declaration order, names unique within the plugin.
#[derive(Debug)]
pub struct PluginDefinition {
    pub name: String,
    pub rules: Vec<(String, RuleDefinition)>,
}

impl PluginDefinition {
    /// The definition's rules as (name, handle) pairs in declaration order.
    pub open spec fn rules_view(&self) -> Seq<(Seq<char>, RuleHandle)> {
        self.rules@.map_values(|p: (String, RuleDefinition)| (p.0@, p.1.create))
    }

    /// Rule names are unique within one plugin definition.
    pub open spec fn wf(&self) -> bool {
        entries_unique(self.rules_view())
    }

    /// The definition reduced to plain values: name and rule pairs.
    pub open spec fn view_pair(&self) -> (Seq<char>, Seq<(Seq<char>, RuleHandle)>) {
        (self.name@, self.rules_view())
    }
}

/// What registering a list of definitions one after the other does to a
/// registry: each fresh name is appended in order; the first name that is
/// already taken stops the registration there, with no rollback of the
/// definitions registered before it.
pub open spec fn load_all(
    reg: Seq<(Seq<char>, Seq<(Seq<char>, RuleHandle)>)>,
    defs: Seq<PluginDefinition>,
) -> (Seq<(Seq<char>, Seq<(Seq<char>, RuleHandle)>)>, Option<Seq<char>>)
    decreases defs.len(),
{
    if defs.len() == 0 {
        (reg, None)
    } else if entries_have_key(reg, defs[0].name@) {
        (reg, Some(defs[0].name@))
    } else {
        load_all(reg.push(defs[0].view_pair()), defs.drop_first())
    }
}

/// The host side of the runner: it owns the registry the engine's
/// intrinsics mutate. The engine instance, the bootstrap entry point and
/// the channel ends it also owns are opaque to the host's logic and stay
/// with the embedding.
pub struct PluginRunner {
    pub container: LintPluginContainer,
}

impl PluginRunner {
    /// A fresh runner: empty registry, empty diagnostics buffer.
    pub fn new() -> (r: PluginRunner)
        ensures
            r.container.wf(),
            r.container.plugins_seq() == Seq::<(Seq<char>, LintPluginDesc)>::empty(),
            r.container.diagnostics@ == Seq::<Diagnostic>::empty(),
    {
        PluginRunner { container: LintPluginContainer::new() }
    }

    /// Registers the deserialized default exports of the loaded plugin
    /// modules, in order. The first duplicate name fails the call with
    /// `AlreadyExists`; definitions registered before it stay registered.
    pub fn load_plugins(&mut self, defs: Vec<PluginDefinition>) -> (r: Result<(), HostError>)
        requires
            old(self).container.wf(),
            forall|k: int| 0 <= k < defs@.len() ==> (#[trigger] defs@[k]).wf(),
        ensures
            final(self).container.wf(),
            final(self).container.diagnostics == old(self).container.diagnostics,
            final(self).container.registry_view() == load_all(
                old(self).container.registry_view(),
                defs@,
            ).0,
            match r {
                Ok(()) => load_all(old(self).container.registry_view(), defs@).1 is None,
                Err(e) => e matches HostError::AlreadyExists { plugin } && Some(plugin@)
                    == load_all(old(self).container.registry_view(), defs@).1,
            },
    {
        let ghost orig = old(self).container.registry_view();
        proof {
            assert(defs@.skip(0) =~= defs@);
        }
        let n = defs.len();
        let mut i: usize = 0;
        while i < n
            invariant
                i <= n,
                n == defs@.len(),
                forall|k: int| 0 <= k < defs@.len() ==> (#[trigger] defs@[k]).wf(),
                self.container.wf(),
                orig == old(self).container.registry_view(),
                self.container.diagnostics == old(self).container.diagnostics,
                load_all(orig, defs@) == load_all(
                    self.container.registry_view(),
                    defs@.skip(i as int),
                ),
            decreases n - i,
        {
            let ghost prev = self.container;
            let def = &defs[i];
            let mut rules = rule_map_new();
            let m = def.rules.len();
            let mut j: usize = 0;
            while j < m
                invariant
                    j <= m,
                    m == def.rules@.len(),
                    def.wf(),
                    rule_entries(rules).len() == j,
                    forall|k: int|
                        0 <= k < j ==> #[trigger] rule_entries(rules)[k] == def.rules_view()[k],
                decreases m - j,
            {
                let pair = &def.rules[j];
                proof {
                    assert(def.rules_view()[j as int] == (pair.0@, pair.1.create));
                    assert forall|k: int| 0 <= k < j implies (#[trigger] rule_entries(rules)[k]).0
                        != pair.0@ by {
                        assert(rule_entries(rules)[k] == def.rules_view()[k]);
                        assert(def.rules_view()[k].0 != def.rules_view()[j as int].0);
                    }
                    assert(!entries_have_key(rule_entries(rules), pair.0@));
                }
                rule_map_insert(&mut rules, pair.0.clone(), pair.1.create);
                j += 1;
            }
            proof {
                assert(rule_entries(rules) =~= def.rules_view());
            }
            let name = def.name.clone();
            let desc = LintPluginDesc { rules };
            proof {
                lemma_view_key_equiv(self.container, def.name@);
                assert(defs@.skip(i as int)[0] == defs@[i as int]);
            }
            let reg_result = self.container.register(name, desc);
            match reg_result {
                Ok(()) => {
                    proof {
                        assert(self.container.registry_view() =~= prev.registry_view().push(
                            defs@[i as int].view_pair(),
                        ));
                        assert(defs@.skip(i as int).drop_first() =~= defs@.skip(i as int + 1));
                    }
                },
                Err(e) => {
                    proof {
                        assert(entries_have_key(prev.registry_view(), defs@[i as int].name@));
                        assert(load_all(prev.registry_view(), defs@.skip(i as int)) == (
                            prev.registry_view(),
                            Some(defs@[i as int].name@),
                        ));
                    }
                    return Err(e);
                },
            }
            i += 1;
        }
        proof {
            assert(defs@.skip(n as int) =~= Seq::<PluginDefinition>::empty());
        }
        Ok(())
    }

    /// Snapshots the plan of a run: every registered plugin with its rule
    /// names, in registration/insertion order.
    pub fn get_rules_to_run(&self) -> (r: Vec<(String, Vec<String>)>)
        requires
            self.container.wf(),
        ensures
            plan_view(r@) == self.container.run_plan(),
    {
        let names = plugin_map_keys(&self.container.plugins);
        let mut out: Vec<(String, Vec<String>)> = Vec::new();
        let n = names.len();
        let mut i: usize = 0;
        while i < n
            invariant
                i <= n,
                n == names@.len(),
                names@.len() == self.container.plugins_seq().len(),
                forall|k: int|
                    0 <= k < names@.len() ==> #[trigger] names@[k]@
                        == self.container.plugins_seq()[k].0,
                self.container.wf(),
                out@.len() == i,
                forall|k: int|
                    0 <= k < i ==> #[trigger] plan_entry_view(out@[k])
                        == self.container.run_plan()[k],
            decreases n - i,
        {
            let name = &names[i];
            proof {
                assert(self.container.plugins_seq()[i as int].0 == name@);
                assert(entries_have_key(self.container.plugins_seq(), name@));
            }
            let desc_opt = plugin_map_get(&self.container.plugins, name.as_str());
            match desc_opt {
                None => {
                    proof {
                        assert(false);
                    }
                },
                Some(desc) => {
                    let ghost w = choose|w: int|
                        0 <= w < self.container.plugins_seq().len()
                            && #[trigger] self.container.plugins_seq()[w] == (name@, *desc);
                    proof {
                        if w != i as int {
                            assert(self.container.plugins_seq()[w].0
                                != self.container.plugins_seq()[i as int].0);
                        }
                        assert(self.container.plugins_seq()[i as int].1 == *desc);
                    }
                    let rule_names = rule_map_keys(&desc.rules);
                    proof {
                        assert(rule_names@.map_values(|s: String| s@) =~= rule_entries(
                            self.container.plugins_seq()[i as int].1.rules,
                        ).map_values(|re: (Seq<char>, RuleHandle)| re.0));
                    }
                    out.push((name.clone(), rule_names));
                },
            }
            i += 1;
        }
        proof {
            assert(plan_view(out@) =~= self.container.run_plan());
        }
        out
    }

    /// Drains the diagnostics buffer: returns everything reported since the
    /// last drain and leaves the buffer empty.
    pub fn take_diagnostics(&mut self) -> (r: Vec<Diagnostic>)
        ensures
            final(self).container.plugins == old(self).container.plugins,
            r@ == old(self).container.diagnostics@,
            final(self).container.diagnostics@ == Seq::<Diagnostic>::empty(),
    {
        let mut taken: Vec<Diagnostic> = Vec::new();
        core::mem::swap(&mut taken, &mut self.container.diagnostics);
        taken
    }

    /// Builds the response of a finished run: per-rule failures were
    /// swallowed along the way, so the response always carries exactly the
    /// drained diagnostics buffer, and the buffer is left empty — a second
    /// run with no new reports answers with an empty sequence.
    pub fn finish_run(&mut self) -> (resp: PluginRunnerResponse)
        ensures
            final(self).container.plugins == old(self).container.plugins,
            final(self).container.diagnostics@ == Seq::<Diagnostic>::empty(),
            resp matches PluginRunnerResponse::Run(res) && res matches Ok(d) && d@ == old(
                self,
            ).container.diagnostics@,
    {
        let taken = self.take_diagnostics();
        PluginRunnerResponse::Run(Ok(taken))
    }
}

/// One plan entry reduced to plain values.
pub open spec fn plan_entry_view(p: (String, Vec<String>)) -> (Seq<char>, Seq<Seq<char>>) {
    (p.0@, p.1@.map_values(|s: String| s@))
}

/// A whole plan reduced to plain values.
pub open spec fn plan_view(r: Seq<(String, Vec<String>)>) -> Seq<(Seq<char>, Seq<Seq<char>>)> {
    r.map_values(|p: (String, Vec<String>)| plan_entry_view(p))
}

} // verus!
