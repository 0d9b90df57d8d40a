//! The plugin model: what a plugin declares about itself, the registry that
//! orders plugins, and how the outcome of a hook is read.
//!
//! A plugin belongs to one phase and has a priority; within a phase, hooks
//! run by ascending priority, and plugins of equal priority run in the
//! order in which they were registered. The registry keeps its plugins in
//! exactly that order, so that nothing is sorted while a request is served.
//! The hooks themselves are the caller's: the registry says which plugin is
//! next, and the caller reports how its hook ended.

use crate::keyed::KeyedTable;
use crate::text::{joined, owned, starts_with};
use vstd::prelude::*;

verus! {

/// How a plugin hook can fail.
#[derive(Debug)]
pub enum PluginError {
    /// The hook broke. The plugin is skipped.
    Execution(String),
    /// The plugin is misconfigured. The plugin is skipped.
    Config(String),
    /// The plugin refuses the request. The request ends here.
    Rejected(String),
}

/// What a hook returns.
pub type PluginResult<T> = Result<T, PluginError>;

impl PluginError {
    /// The error written out as a sentence.
    pub open spec fn message_text(&self) -> Seq<char> {
        match self {
            PluginError::Execution(what) => "Plugin execution failed: "@ + what@,
            PluginError::Config(what) => "Plugin configuration error: "@ + what@,
            PluginError::Rejected(why) => "Request rejected: "@ + why@,
        }
    }

    /// Whether the error ends the request.
    pub open spec fn rejects(&self) -> bool {
        self is Rejected
    }

    /// The error written out as a sentence.
    pub fn message(&self) -> (r: String)
        ensures
            r@ == self.message_text(),
    {
        match self {
            PluginError::Execution(what) => joined("Plugin execution failed: ", what.as_str()),
            PluginError::Config(what) => joined("Plugin configuration error: ", what.as_str()),
            PluginError::Rejected(why) => joined("Request rejected: ", why.as_str()),
        }
    }

    /// Whether the error ends the request. Any other error is logged and
    /// the plugin counts as having done nothing.
    pub fn is_rejection(&self) -> (r: bool)
        ensures
            r == self.rejects(),
    {
        match self {
            PluginError::Rejected(_) => true,
            _ => false,
        }
    }
}

/// What plugins of one request share: the route, the client, and a bag of
/// named values that later plugins can read.
#[derive(Clone, Debug)]
pub struct PluginContext {
    pub route_path: String,
    pub client_ip: Option<String>,
    pub metadata: KeyedTable<String>,
}

impl PluginContext {
    /// The context of a request on `route_path`, with no client known and
    /// an empty bag.
    pub fn new(route_path: String) -> (r: PluginContext)
        ensures
            r.route_path == route_path,
            r.client_ip is None,
            r.metadata@ == Map::<Seq<char>, String>::empty(),
    {
        PluginContext { route_path, client_ip: None, metadata: KeyedTable::new() }
    }

    /// The same context with the client set to `ip`.
    pub fn with_client_ip(self, ip: Option<String>) -> (r: PluginContext)
        ensures
            r.route_path == self.route_path,
            r.client_ip == ip,
            r.metadata == self.metadata,
    {
        PluginContext { route_path: self.route_path, client_ip: ip, metadata: self.metadata }
    }
}

/// The four points of the pipeline at which plugins run.
#[derive(Clone, Copy, PartialEq, Eq, Debug, Structural)]
pub enum PluginPhase {
    PreAuth,
    PostAuth,
    PreProxy,
    PostProxy,
}

/// The place of a phase in the pipeline.
pub open spec fn phase_rank(phase: PluginPhase) -> int {
    match phase {
        PluginPhase::PreAuth => 0,
        PluginPhase::PostAuth => 1,
        PluginPhase::PreProxy => 2,
        PluginPhase::PostProxy => 3,
    }
}

fn rank_of(phase: PluginPhase) -> (r: u8)
    ensures
        r == phase_rank(phase),
{
    match phase {
        PluginPhase::PreAuth => 0,
        PluginPhase::PostAuth => 1,
        PluginPhase::PreProxy => 2,
        PluginPhase::PostProxy => 3,
    }
}

/// The routes that a plugin applies to.
#[derive(Debug)]
pub enum RouteFilter {
    /// Every route.
    All,
    /// The routes whose path begins with this prefix.
    Prefix(String),
}

/// The mathematical content of a [`RouteFilter`].
pub ghost enum FilterSpec {
    All,
    Prefix(Seq<char>),
}

impl View for RouteFilter {
    type V = FilterSpec;

    open spec fn view(&self) -> FilterSpec {
        match self {
            RouteFilter::All => FilterSpec::All,
            RouteFilter::Prefix(p) => FilterSpec::Prefix(p@),
        }
    }
}

/// Whether a filter lets a plugin run on the route `route_path`.
pub open spec fn accepts(filter: FilterSpec, route_path: Seq<char>) -> bool {
    match filter {
        FilterSpec::All => true,
        FilterSpec::Prefix(p) => p.is_prefix_of(route_path),
    }
}

impl RouteFilter {
    /// Whether the filter lets a plugin run on the route `route_path`.
    pub fn is_enabled_for_route(&self, route_path: &str) -> (r: bool)
        ensures
            r == accepts(self@, route_path@),
    {
        match self {
            RouteFilter::All => true,
            RouteFilter::Prefix(p) => starts_with(route_path, p.as_str()),
        }
    }
}

/// What a plugin declares when it is registered.
#[derive(Debug)]
pub struct PluginRegistration {
    /// The number that the registry gave the plugin: how many were
    /// registered before it.
    pub id: usize,
    pub name: String,
    pub phase: PluginPhase,
    /// Lower runs earlier.
    pub priority: i32,
    pub filter: RouteFilter,
}

/// The mathematical content of a [`PluginRegistration`].
pub ghost struct RegistrationSpec {
    pub id: usize,
    pub name: Seq<char>,
    pub phase: PluginPhase,
    pub priority: i32,
    pub filter: FilterSpec,
}

impl View for PluginRegistration {
    type V = RegistrationSpec;

    open spec fn view(&self) -> RegistrationSpec {
        RegistrationSpec {
            id: self.id,
            name: self.name@,
            phase: self.phase,
            priority: self.priority,
            filter: self.filter@,
        }
    }
}

/// The priority that a plugin has when it names none.
pub const DEFAULT_PRIORITY: i32 = 100;

/// `a` does not run after `b`: its phase is earlier, or the phase is the
/// same and its priority is not higher.
pub open spec fn not_after(a: RegistrationSpec, b: RegistrationSpec) -> bool {
    phase_rank(a.phase) < phase_rank(b.phase) || (a.phase == b.phase && a.priority <= b.priority)
}

/// The plugins are in running order: by phase, within a phase by ascending
/// priority, and at equal priority by ascending registration number.
pub open spec fn in_running_order(plugins: Seq<RegistrationSpec>) -> bool {
    forall|i: int, j: int|
        0 <= i < j < plugins.len() ==> {
            &&& not_after(#[trigger] plugins[i], #[trigger] plugins[j])
            &&& (plugins[i].phase == plugins[j].phase && plugins[i].priority
                == plugins[j].priority ==> plugins[i].id < plugins[j].id)
        }
}

/// Where a new plugin goes: behind every plugin that does not run after
/// it, and before all others.
pub open spec fn is_insertion_point(
    plugins: Seq<RegistrationSpec>,
    new: RegistrationSpec,
    at: int,
) -> bool {
    &&& 0 <= at <= plugins.len()
    &&& forall|i: int| 0 <= i < at ==> not_after(#[trigger] plugins[i], new)
    &&& forall|i: int| at <= i < plugins.len() ==> !not_after(#[trigger] plugins[i], new)
}

/// The position that [`is_insertion_point`] describes: one past the last
/// plugin that does not run after the new one.
pub open spec fn insertion_point(plugins: Seq<RegistrationSpec>, new: RegistrationSpec) -> int
    decreases plugins.len(),
{
    if plugins.len() == 0 {
        0
    } else if not_after(plugins.last(), new) {
        plugins.len() as int
    } else {
        insertion_point(plugins.drop_last(), new)
    }
}

/// Whether the plugin at `at` runs in `phase` on the route `route_path`.
pub open spec fn runs(
    plugins: Seq<RegistrationSpec>,
    at: int,
    phase: PluginPhase,
    route_path: Seq<char>,
) -> bool {
    plugins[at].phase == phase && accepts(plugins[at].filter, route_path)
}

/// The position of the first plugin at or after `from` that runs in `phase`
/// on `route_path`.
pub open spec fn next_running(
    plugins: Seq<RegistrationSpec>,
    phase: PluginPhase,
    route_path: Seq<char>,
    from: int,
) -> Option<int>
    decreases plugins.len() - from,
{
    if from < 0 || from >= plugins.len() {
        None
    } else if runs(plugins, from, phase, route_path) {
        Some(from)
    } else {
        next_running(plugins, phase, route_path, from + 1)
    }
}

/// The view of a vector of registrations.
pub open spec fn registrations_view(plugins: Seq<PluginRegistration>) -> Seq<RegistrationSpec> {
    Seq::new(plugins.len(), |i: int| plugins[i]@)
}

/// The plugins of a gateway, in running order.
pub struct PluginRegistry {
    plugins: Vec<PluginRegistration>,
}

impl View for PluginRegistry {
    type V = Seq<RegistrationSpec>;

    closed spec fn view(&self) -> Seq<RegistrationSpec> {
        registrations_view(self.plugins@)
    }
}

impl PluginRegistry {
    /// The plugins are in running order and numbered as they came.
    #[verifier::type_invariant]
    spec fn well_formed(&self) -> bool {
        &&& in_running_order(registrations_view(self.plugins@))
        &&& forall|i: int|
            0 <= i < self.plugins@.len() ==> (#[trigger] self.plugins@[i]).id < self.plugins@.len()
    }

    /// A registry without plugins.
    pub fn new() -> (r: PluginRegistry)
        ensures
            r@ == Seq::<RegistrationSpec>::empty(),
    {
        let r = PluginRegistry { plugins: Vec::new() };
        assert(r@ =~= Seq::<RegistrationSpec>::empty());
        r
    }

    /// The number of plugins.
    pub fn len(&self) -> (r: usize)
        ensures
            r == self@.len(),
            in_running_order(self@),
    {
        proof {
            use_type_invariant(self);
        }
        self.plugins.len()
    }

    /// The plugin at position `at` of the running order.
    pub fn plugin_at(&self, at: usize) -> (r: Option<&PluginRegistration>)
        ensures
            match r {
                Some(p) => at < self@.len() && p@ == self@[at as int],
                None => at >= self@.len(),
            },
    {
        if at < self.plugins.len() {
            Some(&self.plugins[at])
        } else {
            None
        }
    }

    /// Registers a plugin and returns its number. The plugin takes its
    /// place in the running order; the others keep theirs relative to each
    /// other.
    pub fn register(&mut self, name: &str, phase: PluginPhase, priority: i32, filter: RouteFilter)
        -> (id: usize)
        ensures
            id == old(self)@.len(),
            ({
                let new = RegistrationSpec { id, name: name@, phase, priority, filter: filter@ };
                final(self)@ == old(self)@.insert(insertion_point(old(self)@, new), new)
            }),
            in_running_order(final(self)@),
    {
        proof {
            use_type_invariant(&*self);
        }
        let ghost before = self@;
        let mut plugins: Vec<PluginRegistration> = Vec::new();
        core::mem::swap(&mut plugins, &mut self.plugins);
        assert(registrations_view(plugins@) == before);
        let id = plugins.len();
        let ghost new = RegistrationSpec { id, name: name@, phase, priority, filter: filter@ };
        let rank = rank_of(phase);
        let mut at: usize = 0;
        while at < plugins.len() && (rank_of(plugins[at].phase) < rank || (rank_of(
            plugins[at].phase,
        ) == rank && plugins[at].priority <= priority))
            invariant
                0 <= at <= plugins@.len(),
                registrations_view(plugins@) == before,
                rank == phase_rank(phase),
                new.phase == phase && new.priority == priority,
                forall|i: int| 0 <= i < at ==> not_after(#[trigger] before[i], new),
            decreases plugins@.len() - at,
        {
            assert(before[at as int] == plugins@[at as int]@);
            at = at + 1;
        }
        proof {
            if at < plugins@.len() {
                assert(before[at as int] == plugins@[at as int]@);
                assert(!not_after(before[at as int], new));
            }
            assert forall|i: int| at <= i < before.len() implies !not_after(
                #[trigger] before[i],
                new,
            ) by {
                if i > at {
                    assert(not_after(before[at as int], before[i]));
                }
            }
            assert(is_insertion_point(before, new, at as int));
            lemma_insertion_point(before, new, at as int);
        }
        plugins.insert(at, PluginRegistration { id, name: owned(name), phase, priority, filter });
        proof {
            let after = registrations_view(plugins@);
            assert(after =~= before.insert(at as int, new));
            assert forall|i: int, j: int| 0 <= i < j < after.len() implies {
                &&& not_after(#[trigger] after[i], #[trigger] after[j])
                &&& (after[i].phase == after[j].phase && after[i].priority == after[j].priority
                    ==> after[i].id < after[j].id)
            } by {
                let i0 = if i < at {
                    i
                } else {
                    i - 1
                };
                let j0 = if j < at {
                    j
                } else {
                    j - 1
                };
                if i != at && j != at {
                    assert(after[i] == before[i0] && after[j] == before[j0]);
                } else if i == at {
                    assert(after[j] == before[j0]);
                    assert(!not_after(before[j0], new));
                } else {
                    assert(after[i] == before[i0]);
                    assert(not_after(before[i0], new));
                    assert(before[i0] == plugins@[i as int]@);
                }
            }
            assert forall|i: int| 0 <= i < plugins@.len() implies (#[trigger] plugins@[i]).id
                < plugins@.len() by {
                if i != at {
                    let i0 = if i < at {
                        i
                    } else {
                        i - 1
                    };
                    assert(after[i] == before[i0]);
                    assert(after[i] == plugins@[i]@);
                }
            }
        }
        self.plugins = plugins;
        id
    }

    /// The position of the first plugin at or after `from` that runs in
    /// `phase` on the route `route_path`.
    pub fn next_plugin(&self, phase: PluginPhase, route_path: &str, from: usize) -> (r: Option<
        usize,
    >)
        ensures
            match r {
                Some(at) => next_running(self@, phase, route_path@, from as int) == Some(at as int),
                None => next_running(self@, phase, route_path@, from as int) is None,
            },
    {
        let mut at: usize = from;
        while at < self.plugins.len()
            invariant
                from <= at,
                next_running(self@, phase, route_path@, from as int) == next_running(
                    self@,
                    phase,
                    route_path@,
                    at as int,
                ),
            decreases self.plugins@.len() - at,
        {
            assert(self@[at as int] == self.plugins@[at as int]@);
            if self.plugins[at].phase == phase && self.plugins[at].filter.is_enabled_for_route(
                route_path,
            ) {
                return Some(at);
            }
            at = at + 1;
        }
        None
    }
}

/// The position that [`is_insertion_point`] describes is the one that
/// [`insertion_point`] computes.
pub proof fn lemma_insertion_point(plugins: Seq<RegistrationSpec>, new: RegistrationSpec, at: int)
    requires
        is_insertion_point(plugins, new, at),
    ensures
        insertion_point(plugins, new) == at,
    decreases plugins.len(),
{
    if plugins.len() > 0 {
        if not_after(plugins.last(), new) {
            assert(plugins[plugins.len() - 1] == plugins.last());
        } else {
            let init = plugins.drop_last();
            assert(plugins[plugins.len() - 1] == plugins.last());
            assert forall|i: int| 0 <= i < at implies not_after(#[trigger] init[i], new) by {
                assert(init[i] == plugins[i]);
            }
            assert forall|i: int| at <= i < init.len() implies !not_after(
                #[trigger] init[i],
                new,
            ) by {
                assert(init[i] == plugins[i]);
            }
            lemma_insertion_point(init, new, at);
        }
    }
}

/// What [`next_running`] finds is the first plugin, from `from` on, that
/// runs in the phase on the route.
pub proof fn lemma_next_running_is_first(
    plugins: Seq<RegistrationSpec>,
    phase: PluginPhase,
    route_path: Seq<char>,
    from: int,
)
    requires
        0 <= from,
    ensures
        match next_running(plugins, phase, route_path, from) {
            Some(at) => {
                &&& from <= at < plugins.len()
                &&& runs(plugins, at, phase, route_path)
                &&& forall|i: int| from <= i < at ==> !runs(plugins, i, phase, route_path)
            },
            None => forall|i: int|
                from <= i < plugins.len() ==> !runs(plugins, i, phase, route_path),
        },
    decreases plugins.len() - from,
{
    if from < plugins.len() && !runs(plugins, from, phase, route_path) {
        lemma_next_running_is_first(plugins, phase, route_path, from + 1);
    }
}

/// Within a phase, plugins run by ascending priority: of two plugins that
/// run one after the other in the same phase, the later has no lower
/// priority, and at equal priority it was registered later.
pub proof fn lemma_runs_in_priority_order(
    plugins: Seq<RegistrationSpec>,
    phase: PluginPhase,
    route_path: Seq<char>,
    first: int,
)
    requires
        in_running_order(plugins),
        0 <= first < plugins.len(),
        runs(plugins, first, phase, route_path),
    ensures
        match next_running(plugins, phase, route_path, first + 1) {
            Some(second) => {
                &&& first < second < plugins.len()
                &&& plugins[first].priority <= plugins[second].priority
                &&& plugins[first].priority == plugins[second].priority ==> plugins[first].id
                    < plugins[second].id
            },
            None => true,
        },
{
    lemma_next_running_is_first(plugins, phase, route_path, first + 1);
}

} // verus!
