//! The plugin registry: per plugin name, its ordered set of rules, each
//! rule bound to an opaque callable handle inside the engine; plus the
//! buffer of diagnostics reported during a run, and the two intrinsic
//! primitives that script code can reach.

use vstd::prelude::*;
use vstd::string::StringExecFns;

use crate::diagnostics::Diagnostic;
use crate::diagnostics::HostError;
use crate::ordered_map::entries_have_key;
use crate::ordered_map::entries_unique;
use crate::ordered_map::lemma_push_fresh_key_unique;

verus! {

/// An opaque handle naming a callable rule implementation that lives inside
/// the engine; the host only stores and hands back such handles.
#[derive(Clone, Copy, Debug, PartialEq, Eq, Structural)]
pub struct RuleHandle {
    pub id: u64,
}

/// The rules of one registered plugin, in insertion order, each mapped to
/// its callable handle.
pub struct LintPluginDesc {
    pub rules: indexmap::IndexMap<String, RuleHandle>,
}

/// The in-engine registry: registered plugins in insertion order, and the
/// accumulating diagnostics buffer of the current run.
pub struct LintPluginContainer {
    pub plugins: indexmap::IndexMap<String, LintPluginDesc>,
    pub diagnostics: Vec<Diagnostic>,
}

/// The contents of a plugin map, as key/descriptor pairs in insertion order.
pub uninterp spec fn plugin_entries(m: indexmap::IndexMap<String, LintPluginDesc>) -> Seq<
    (Seq<char>, LintPluginDesc),
>;

/// The contents of a rule map, as key/handle pairs in insertion order.
pub uninterp spec fn rule_entries(m: indexmap::IndexMap<String, RuleHandle>) -> Seq<
    (Seq<char>, RuleHandle),
>;

/// Relies on indexmap's `IndexMap::new`: the new map is empty.
#[verifier::external_body]
pub(crate) fn rule_map_new() -> (m: indexmap::IndexMap<String, RuleHandle>)
    ensures
        rule_entries(m) == Seq::<(Seq<char>, RuleHandle)>::empty(),
{
    indexmap::IndexMap::new()
}

/// Relies on indexmap's `IndexMap::insert`: a key absent from the map is
/// inserted last in order.
#[verifier::external_body]
pub(crate) fn rule_map_insert(
    m: &mut indexmap::IndexMap<String, RuleHandle>,
    k: String,
    v: RuleHandle,
)
    requires
        !entries_have_key(rule_entries(*old(m)), k@),
    ensures
        rule_entries(*final(m)) == rule_entries(*old(m)).push((k@, v)),
{
    m.insert(k, v);
}

/// Relies on indexmap's `IndexMap::get`: returns the value stored under an
/// equal key, or `None` if the key is absent.
#[verifier::external_body]
pub(crate) fn rule_map_get(m: &indexmap::IndexMap<String, RuleHandle>, k: &str) -> (r: Option<
    RuleHandle,
>)
    ensures
        match r {
            Some(v) => exists|i: int|
                0 <= i < rule_entries(*m).len() && #[trigger] rule_entries(*m)[i] == (k@, v),
            None => !entries_have_key(rule_entries(*m), k@),
        },
{
    m.get(k).copied()
}

/// Relies on indexmap's `IndexMap::keys`: yields the keys in insertion
/// order; the wrapper clones each into an owned vector.
#[verifier::external_body]
pub(crate) fn rule_map_keys(m: &indexmap::IndexMap<String, RuleHandle>) -> (r: Vec<String>)
    ensures
        r@.len() == rule_entries(*m).len(),
        forall|i: int| 0 <= i < r@.len() ==> #[trigger] r@[i]@ == rule_entries(*m)[i].0,
{
    m.keys().cloned().collect()
}

/// Relies on indexmap's `IndexMap::new`: the new map is empty.
#[verifier::external_body]
pub(crate) fn plugin_map_new() -> (m: indexmap::IndexMap<String, LintPluginDesc>)
    ensures
        plugin_entries(m) == Seq::<(Seq<char>, LintPluginDesc)>::empty(),
{
    indexmap::IndexMap::new()
}

/// Relies on indexmap's `IndexMap::contains_key`: true exactly when an
/// equal key is in the map.
#[verifier::external_body]
pub(crate) fn plugin_map_contains_key(
    m: &indexmap::IndexMap<String, LintPluginDesc>,
    k: &str,
) -> (b: bool)
    ensures
        b == entries_have_key(plugin_entries(*m), k@),
{
    m.contains_key(k)
}

/// Relies on indexmap's `IndexMap::insert`: a key absent from the map is
/// inserted last in order.
#[verifier::external_body]
pub(crate) fn plugin_map_insert(
    m: &mut indexmap::IndexMap<String, LintPluginDesc>,
    k: String,
    v: LintPluginDesc,
)
    requires
        !entries_have_key(plugin_entries(*old(m)), k@),
    ensures
        plugin_entries(*final(m)) == plugin_entries(*old(m)).push((k@, v)),
{
    m.insert(k, v);
}

/// Relies on indexmap's `IndexMap::get`: returns the descriptor stored
/// under an equal key, or `None` if the key is absent.
#[verifier::external_body]
pub(crate) fn plugin_map_get<'a>(
    m: &'a indexmap::IndexMap<String, LintPluginDesc>,
    k: &str,
) -> (r: Option<&'a LintPluginDesc>)
    ensures
        match r {
            Some(d) => exists|i: int|
                0 <= i < plugin_entries(*m).len() && #[trigger] plugin_entries(*m)[i] == (k@, *d),
            None => !entries_have_key(plugin_entries(*m), k@),
        },
{
    m.get(k)
}

/// Relies on indexmap's `IndexMap::keys`: yields the keys in insertion
/// order; the wrapper clones each into an owned vector.
#[verifier::external_body]
pub(crate) fn plugin_map_keys(m: &indexmap::IndexMap<String, LintPluginDesc>) -> (r: Vec<String>)
    ensures
        r@.len() == plugin_entries(*m).len(),
        forall|i: int| 0 <= i < r@.len() ==> #[trigger] r@[i]@ == plugin_entries(*m)[i].0,
{
    m.keys().cloned().collect()
}

impl LintPluginContainer {
    /// The registered plugins as (name, descriptor) pairs in insertion order.
    pub open spec fn plugins_seq(&self) -> Seq<(Seq<char>, LintPluginDesc)> {
        plugin_entries(self.plugins)
    }

    /// The registry reduced to plain values: per plugin, its name and its
    /// (rule name, handle) pairs, everything in insertion order.
    pub open spec fn registry_view(&self) -> Seq<(Seq<char>, Seq<(Seq<char>, RuleHandle)>)> {
        self.plugins_seq().map_values(
            |e: (Seq<char>, LintPluginDesc)| (e.0, rule_entries(e.1.rules)),
        )
    }

    /// The plan a run snapshots from the registry: per plugin, its name and
    /// its rule names, everything in insertion order.
    pub open spec fn run_plan(&self) -> Seq<(Seq<char>, Seq<Seq<char>>)> {
        self.registry_view().map_values(
            |e: (Seq<char>, Seq<(Seq<char>, RuleHandle)>)|
                (e.0, e.1.map_values(|re: (Seq<char>, RuleHandle)| re.0)),
        )
    }

    /// Well-formedness: plugin names are unique, and each plugin's rule
    /// names are unique.
    pub open spec fn wf(&self) -> bool {
        &&& entries_unique(self.plugins_seq())
        &&& forall|i: int|
            0 <= i < self.plugins_seq().len() ==> entries_unique(
                rule_entries(#[trigger] self.plugins_seq()[i].1.rules),
            )
    }

    /// Whether a plugin of this name is registered.
    pub open spec fn has_plugin(&self, plugin: Seq<char>) -> bool {
        entries_have_key(self.plugins_seq(), plugin)
    }

    /// Whether a plugin of this name is registered and defines this rule.
    pub open spec fn has_rule(&self, plugin: Seq<char>, rule: Seq<char>) -> bool {
        exists|i: int|
            0 <= i < self.plugins_seq().len() && (#[trigger] self.plugins_seq()[i]).0 == plugin
                && entries_have_key(rule_entries(self.plugins_seq()[i].1.rules), rule)
    }

    /// An empty registry: no plugins, no diagnostics.
    pub fn new() -> (c: LintPluginContainer)
        ensures
            c.plugins_seq() == Seq::<(Seq<char>, LintPluginDesc)>::empty(),
            c.diagnostics@ == Seq::<Diagnostic>::empty(),
            c.wf(),
    {
        LintPluginContainer { plugins: plugin_map_new(), diagnostics: Vec::new() }
    }

    /// Registers a plugin under `name`. A duplicate name fails with
    /// `AlreadyExists` and leaves the registry exactly as it was; a fresh
    /// name appends the plugin last in order.
    pub fn register(&mut self, name: String, desc: LintPluginDesc) -> (r: Result<(), HostError>)
        requires
            old(self).wf(),
            entries_unique(rule_entries(desc.rules)),
        ensures
            final(self).wf(),
            final(self).diagnostics == old(self).diagnostics,
            match r {
                Ok(()) => !old(self).has_plugin(name@) && final(self).has_plugin(name@)
                    && final(self).plugins_seq() == old(self).plugins_seq().push((name@, desc)),
                Err(e) => old(self).has_plugin(name@) && *final(self) == *old(self) && e == (
                HostError::AlreadyExists { plugin: name }),
            },
    {
        if plugin_map_contains_key(&self.plugins, name.as_str()) {
            Err(HostError::AlreadyExists { plugin: name })
        } else {
            let ghost n = name@;
            proof {
                lemma_push_fresh_key_unique(self.plugins_seq(), name@, desc);
            }
            plugin_map_insert(&mut self.plugins, name, desc);
            proof {
                assert(self.plugins_seq()[old(self).plugins_seq().len() as int].0 == n);
            }
            Ok(())
        }
    }

    /// The intrinsic report primitive: appends one diagnostic carrying the
    /// given rule code, the specifier resolved to a file URL, and the
    /// message; range, hint, fixes and info stay empty in this minimal
    /// form. It cannot fail observably to the calling script.
    pub fn report(&mut self, id: String, specifier: String, message: String)
        ensures
            final(self).plugins == old(self).plugins,
            final(self).diagnostics@.len() == old(self).diagnostics@.len() + 1,
            final(self).diagnostics@.drop_last() == old(self).diagnostics@,
            final(self).diagnostics@.last().id@ == id@,
            final(self).diagnostics@.last().specifier@ == "file:///"@ + specifier@,
            final(self).diagnostics@.last().message@ == message@,
            final(self).diagnostics@.last().range is None,
            final(self).diagnostics@.last().hint is None,
            final(self).diagnostics@.last().fixes@ == Seq::<crate::diagnostics::Fix>::empty(),
            final(self).diagnostics@.last().info@ == Seq::<String>::empty(),
    {
        let url = "file:///".to_owned().concat(specifier.as_str());
        let diagnostic = Diagnostic {
            id,
            specifier: url,
            range: None,
            message,
            hint: None,
            fixes: Vec::new(),
            info: Vec::new(),
        };
        self.diagnostics.push(diagnostic);
        proof {
            assert(self.diagnostics@.drop_last() =~= old(self).diagnostics@);
        }
    }
}

/// The registry view and the raw plugin sequence hold the same keys.
pub proof fn lemma_view_key_equiv(c: LintPluginContainer, k: Seq<char>)
    ensures
        entries_have_key(c.registry_view(), k) <==> entries_have_key(c.plugins_seq(), k),
{
    if entries_have_key(c.registry_view(), k) {
        let i = choose|i: int|
            0 <= i < c.registry_view().len() && #[trigger] c.registry_view()[i].0 == k;
        assert(c.plugins_seq()[i].0 == k);
    }
    if entries_have_key(c.plugins_seq(), k) {
        let i = choose|i: int|
            0 <= i < c.plugins_seq().len() && #[trigger] c.plugins_seq()[i].0 == k;
        assert(c.registry_view()[i].0 == k);
    }
}

/// The intrinsic resolve primitive: looks up `(plugin, rule)` and returns
/// the stored callable handle, or says which of the two is missing.
pub fn op_lint_get_rule(
    container: &LintPluginContainer,
    plugin_name: &str,
    rule_name: &str,
) -> (r: Result<RuleHandle, HostError>)
    requires
        container.wf(),
    ensures
        match r {
            Ok(h) => container.has_rule(plugin_name@, rule_name@) && exists|i: int|
                0 <= i < container.plugins_seq().len() && (#[trigger] container.plugins_seq()[
                    i
                ]).0 == plugin_name@ && entries_have_key(
                    rule_entries(container.plugins_seq()[i].1.rules),
                    rule_name@,
                ) && exists|j: int|
                    0 <= j < rule_entries(container.plugins_seq()[i].1.rules).len() && #[trigger] rule_entries(
                        container.plugins_seq()[i].1.rules,
                    )[j] == (rule_name@, h),
            Err(HostError::PluginNotFound { plugin }) => plugin@ == plugin_name@
                && !container.has_plugin(plugin_name@),
            Err(HostError::RuleNotFound { plugin, rule }) => plugin@ == plugin_name@ && rule@
                == rule_name@ && container.has_plugin(plugin_name@) && !container.has_rule(
                plugin_name@,
                rule_name@,
            ),
            Err(_) => false,
        },
{
    match plugin_map_get(&container.plugins, plugin_name) {
        None => Err(HostError::PluginNotFound { plugin: plugin_name.to_owned() }),
        Some(desc) => {
            let ghost i = choose|i: int|
                0 <= i < container.plugins_seq().len() && container.plugins_seq()[i] == (
                    plugin_name@,
                    *desc,
                );
            match rule_map_get(&desc.rules, rule_name) {
                None => {
                    proof {
                        assert forall|k: int|
                            0 <= k < container.plugins_seq().len() && (
                            #[trigger] container.plugins_seq()[k]).0 == plugin_name@ implies
                            !entries_have_key(
                                rule_entries(container.plugins_seq()[k].1.rules),
                                rule_name@,
                            ) by {
                            if k != i {
                                assert(container.plugins_seq()[k].0 != container.plugins_seq()[
                                    i
                                ].0);
                            }
                        }
                    }
                    Err(
                        HostError::RuleNotFound {
                            plugin: plugin_name.to_owned(),
                            rule: rule_name.to_owned(),
                        },
                    )
                },
                Some(handle) => {
                    proof {
                        assert(container.plugins_seq()[i].1 == *desc);
                        let rs = rule_entries(container.plugins_seq()[i].1.rules);
                        let j = choose|j: int|
                            0 <= j < rule_entries(desc.rules).len() && #[trigger] rule_entries(
                                desc.rules,
                            )[j] == (rule_name@, handle);
                        assert(rs[j] == (rule_name@, handle));
                        assert(rs[j].0 == rule_name@);
                        assert(entries_have_key(rs, rule_name@));
                    }
                    Ok(handle)
                },
            }
        },
    }
}

/// The intrinsic report primitive as script code reaches it: appends one
/// diagnostic to the registry's buffer.
pub fn op_lint_report(
    container: &mut LintPluginContainer,
    id: String,
    specifier: String,
    message: String,
)
    ensures
        final(container).plugins == old(container).plugins,
        final(container).diagnostics@.len() == old(container).diagnostics@.len() + 1,
        final(container).diagnostics@.drop_last() == old(container).diagnostics@,
        final(container).diagnostics@.last().id@ == id@,
        final(container).diagnostics@.last().specifier@ == "file:///"@ + specifier@,
        final(container).diagnostics@.last().message@ == message@,
{
    container.report(id, specifier, message);
}

} // verus!
