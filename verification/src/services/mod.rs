//! The services a bridgehead can run, and the engine that composes them.
//!
//! Services are installed first, each with what it is built from; hooks may
//! be registered for them. `materialise` then builds every installed
//! service, after the services it depends on, building those by default where
//! they were not installed themselves.

pub mod beam;
pub mod beam_connect;
pub mod blaze;
pub mod catalog;
pub mod construct;
pub mod datashield;
pub mod directory_sync;
pub mod dnpm_node;
pub mod exporter;
pub mod focus;
pub mod forward_proxy;
pub mod id_management;
pub mod obds2fhir;
pub mod outcome;
pub mod output;
pub mod podest2fhir;
pub mod postgres;
pub mod secret_sync;
pub mod teiler;
pub mod traefik;
pub mod transfair;

use vstd::pervasive::unreached;
use vstd::prelude::*;
use vstd::string::*;

use crate::config::{Config, LocalConf};
use crate::graph::{
    acyclic, build_order, has_edge, is_cycle, is_topological, lemma_reachable_root, DepGraph, Edge,
    GraphError, Node,
};
use crate::identity::{DepKind, Dependency, Network, ServiceId};
use crate::modules::Module;
use crate::modules::ccp::CcpDefault;
use crate::ordered_map::lookup;
use crate::registry::{held, lemma_restored, with_slots, without, Registry};
use crate::services::beam::url_host_text;
use crate::services::obds2fhir::Obds2FhirProvider;
use crate::services::catalog::{
    hooks_applied, hooks_beside, hooks_for, hooks_left, lemma_hooks_left_all, lemma_hooks_left_step,
    lemma_hooks_left_twice, run_hooks, PostInstall, ServiceConfig, ServiceValue, ToCompose,
};
use crate::services::construct::{build, made, same_services, BuildError};
use crate::services::secret_sync::OidcClients;
use crate::utils::same_text;

verus! {

/// Why the engine refused a request or could not build the services.
#[derive(Debug)]
pub enum EngineError {
    /// The services depend on each other in a circle.
    Cycle(Vec<ServiceId>),
    /// The service cannot be built by default: it needs a configuration of
    /// its own.
    MissingConfig(ServiceId),
    /// The configuration is not of the kind the service is built from.
    ConfigMismatch(ServiceId),
    /// The hook is not made for the family of the service.
    HookMismatch(ServiceId),
    /// Two services would carry the same name.
    NameClash(ServiceId, ServiceId),
    /// The URL of the network's broker has no host.
    BrokerUrl(Network),
    /// The constructor of the service failed.
    Build(ServiceId, BuildError),
}

impl EngineError {
    /// The error is one that building a service can end in.
    pub open spec fn from_building(&self) -> bool {
        self is NameClash || self is BrokerUrl || self is Build
    }
}

/// The edges that an installation of `id` adds to the graph: one from the
/// root, and one to each service that `id` declares.
pub open spec fn install_edges(id: ServiceId) -> Seq<Edge> {
    seq![Edge { parent: Node::Root, child: id }] + Seq::new(
        id.spec_dependencies().len(),
        |i: int| Edge { parent: Node::Service(id), child: id.spec_dependencies()[i].id },
    )
}

/// The identities that `id` declares, in the order of its declaration.
pub open spec fn spec_dependency_ids(id: ServiceId) -> Seq<ServiceId> {
    Seq::new(id.spec_dependencies().len(), |i: int| id.spec_dependencies()[i].id)
}

/// What the constructor of `id` is given of the services held: one slot for
/// each service that `id` declares, filled where the service is built.
pub open spec fn given_slots(services: Map<ServiceId, ServiceValue>, id: ServiceId) -> Seq<
    Option<ServiceValue>,
> {
    Seq::new(
        id.spec_dependencies().len(),
        |i: int| held(services, id.spec_dependencies()[i].id),
    )
}

/// The broker id that the constructor of `id` is handed: the host of the
/// broker of the network the service talks through, and nothing for a
/// service that talks through none.
pub open spec fn spec_broker_id(id: ServiceId) -> Seq<char> {
    match id.spec_network() {
        Some(network) => match url_host_text(network.spec_broker_url()) {
            Some(host) => host,
            None => Seq::empty(),
        },
        None => Seq::empty(),
    }
}

/// Whether the constructor of `id` is sure to succeed on `cfg` with the
/// local store `local`: it is, unless it has to add a user to the reverse
/// proxy that is not there yet, or lacks a setting.
pub open spec fn sure_to_build(local: LocalConf, id: ServiceId, cfg: ServiceConfig) -> bool {
    match id {
        ServiceId::Blaze(site) => match site.spec_treafik_exposure() {
            Some((_, user)) => lookup(local.users(), user) is Some,
            None => true,
        },
        ServiceId::Obds2Fhir => {
            &&& cfg matches ServiceConfig::Obds2Fhir(conf)
            &&& conf.first_missing() is None
            &&& lookup(local.users(), CcpDefault::spec_prefix() + "-obds2fhir-auth"@) is Some
        },
        _ => true,
    }
}

/// One service entered into the engine: `after` is `before` with the
/// service `id` built from `cfg`, and as well formed as `before` was. Every
/// service that `id` requires was built.
/// The constructor was given the services that `id` declares, as the registry
/// held them, and left them as `slots`, which the registry holds in their
/// place afterwards. Where it made a service,
/// `value` is that service once the hooks that waited for `id` have run on
/// it, first come first; it stands under `id`, and the hooks are off the
/// list. Where it failed, nothing else has changed.
pub open spec fn entered_with(
    before: ServiceMap,
    after: ServiceMap,
    id: ServiceId,
    cfg: ServiceConfig,
    problem: Option<BuildError>,
    slots: Seq<Option<ServiceValue>>,
    built: Result<ServiceValue, BuildError>,
    value: ServiceValue,
) -> bool {
    let ids = spec_dependency_ids(id);
    let given = given_slots(before.registry@, id);
    let restored = with_slots(
        without(before.registry@, ids, ids.len() as int),
        ids,
        slots,
        ids.len() as int,
    );
    &&& before.wf()
    &&& after.wf()
    &&& !before.registry@.contains_key(id)
    &&& cfg.spec_fits(id)
    &&& after.local_conf.grown_from(before.local_conf)
    &&& forall|i: int|
        0 <= i < id.spec_dependencies().len() && (#[trigger] id.spec_dependencies()[i]).kind
            == DepKind::Required ==> before.registry@.contains_key(id.spec_dependencies()[i].id)
    &&& after.config == before.config
    &&& after.graph == before.graph
    &&& made(
        id,
        cfg,
        given,
        slots,
        before.config,
        before.local_conf,
        after.local_conf,
        before.oidc,
        after.oidc,
        spec_broker_id(id),
        built,
    )
    &&& same_services(given, slots)
    &&& match built {
        Ok(raw) => {
            &&& problem is None
            &&& hooks_applied(raw, value, hooks_for(before.hooks@, id))
            &&& after.registry@ == restored.insert(id, value)
            &&& after.registry.order() == before.registry.order().push(id)
            &&& after.hooks@ == hooks_beside(before.hooks@, id)
        },
        Err(e) => {
            &&& problem == Some(e)
            &&& after.registry@ == restored
            &&& after.registry.order() == before.registry.order()
            &&& after.hooks == before.hooks
        },
    }
}

/// One service entered into the engine, whatever the constructor made of
/// the services it was given. `problem` is why the constructor failed, if it
/// did.
#[verifier::opaque]
pub open spec fn entered(
    before: ServiceMap,
    after: ServiceMap,
    id: ServiceId,
    cfg: ServiceConfig,
    problem: Option<BuildError>,
) -> bool {
    exists|
        slots: Seq<Option<ServiceValue>>,
        built: Result<ServiceValue, BuildError>,
        value: ServiceValue,
    |
        #[trigger] entered_with(before, after, id, cfg, problem, slots, built, value)
}

/// Entering a service loses none: what was built is built afterwards, and
/// so is the new service where its constructor did not fail.
pub proof fn lemma_entered_keeps(
    before: ServiceMap,
    after: ServiceMap,
    id: ServiceId,
    cfg: ServiceConfig,
    problem: Option<BuildError>,
    s: ServiceId,
)
    requires
        entered(before, after, id, cfg, problem),
    ensures
        before.registry@.contains_key(s) ==> after.registry@.contains_key(s),
        after.registry@.contains_key(s) ==> before.registry@.contains_key(s) || (s == id
            && problem is None),
        problem is None ==> after.registry@.contains_key(id),
{
    reveal(entered);
    let (slots, built, value) = choose|
        slots: Seq<Option<ServiceValue>>,
        built: Result<ServiceValue, BuildError>,
        value: ServiceValue,
    | #[trigger] entered_with(before, after, id, cfg, problem, slots, built, value);
    let ids = spec_dependency_ids(id);
    let given = given_slots(before.registry@, id);
    id.lemma_dependencies();
    assert forall|a: int, b: int| 0 <= a < ids.len() && 0 <= b < ids.len() && a != b implies ids[a]
        != ids[b] by {
        if a < b {
            assert(id.spec_dependencies()[a].id != id.spec_dependencies()[b].id);
        } else {
            assert(id.spec_dependencies()[b].id != id.spec_dependencies()[a].id);
        }
    }
    lemma_restored(before.registry@, ids, given, slots, s);
    lemma_restored(before.registry@, ids, given, slots, id);
}

/// The registry after hooks ran on the service `id`, which it holds: it
/// holds the same services in the same order, each but `id` as it was.
pub open spec fn only_touched(
    before: Registry<ServiceValue>,
    after: Registry<ServiceValue>,
    id: ServiceId,
) -> bool {
    &&& after.order() == before.order()
    &&& after@.dom() == before@.dom()
    &&& forall|s: ServiceId|
        s != id && before@.contains_key(s) ==> #[trigger] after@[s] == before@[s]
}

/// One step of a run of the engine: the service `id` was entered, built
/// from `cfg`, into the engine as it stood at `before`, which left it as
/// `after`.
pub struct Step {
    pub id: ServiceId,
    pub cfg: ServiceConfig,
    pub before: ServiceMap,
    pub after: ServiceMap,
}

/// `b` stands as `a` does, but for what is installed and not built yet.
pub open spec fn follows(a: ServiceMap, b: ServiceMap) -> bool {
    &&& b.config == a.config
    &&& b.graph == a.graph
    &&& b.registry == a.registry
    &&& b.local_conf == a.local_conf
    &&& b.oidc == a.oidc
    &&& b.hooks == a.hooks
}

/// Why the constructor of step `k` failed, in a run that ended in `r`: none
/// but that of the last step did, if `r` says so.
pub open spec fn step_problem(steps: Seq<Step>, k: int, r: Result<(), EngineError>) -> Option<
    BuildError,
> {
    match r {
        Err(EngineError::Build(_, e)) => if k == steps.len() - 1 {
            Some(e)
        } else {
            None
        },
        _ => None,
    }
}

/// The engine went from `start` to `end` by the steps `steps`, one after
/// the other, and by nothing else: each step entered one service into the
/// engine as the step before left it. A run that ends in the failure of a
/// constructor ends with the step that failed.
pub open spec fn run(
    start: ServiceMap,
    steps: Seq<Step>,
    end: ServiceMap,
    r: Result<(), EngineError>,
) -> bool {
    &&& r matches Err(EngineError::Build(id, _)) ==> steps.len() > 0 && steps.last().id == id
    &&& forall|k: int|
        0 <= k < steps.len() ==> entered(
            (#[trigger] steps[k]).before,
            steps[k].after,
            steps[k].id,
            steps[k].cfg,
            step_problem(steps, k, r),
        )
    &&& steps.len() > 0 ==> follows(start, steps[0].before)
    &&& forall|j: int, k: int|
        0 <= j && j + 1 == k && k < steps.len() ==> follows(
            (#[trigger] steps[j]).after,
            (#[trigger] steps[k]).before,
        )
    &&& follows(
        if steps.len() == 0 {
            start
        } else {
            steps.last().after
        },
        end,
    )
}

/// A run followed by a run is a run.
pub proof fn lemma_run_then(
    a: ServiceMap,
    first: Seq<Step>,
    b: ServiceMap,
    c: ServiceMap,
    then: Seq<Step>,
    d: ServiceMap,
    r: Result<(), EngineError>,
)
    requires
        run(a, first, b, Ok(())),
        follows(b, c),
        run(c, then, d, r),
    ensures
        run(a, first + then, d, r),
{
    let all = first + then;
    let n = first.len() as int;
    assert forall|k: int| 0 <= k < all.len() implies entered(
        (#[trigger] all[k]).before,
        all[k].after,
        all[k].id,
        all[k].cfg,
        step_problem(all, k, r),
    ) by {
        if k < n {
            assert(all[k] == first[k]);
            assert(step_problem(all, k, r) == step_problem(first, k, Ok(())));
        } else {
            assert(all[k] == then[k - n]);
            assert(step_problem(all, k, r) == step_problem(then, k - n, r));
        }
    }
    assert forall|j: int, k: int| 0 <= j && j + 1 == k && k < all.len() implies follows(
        (#[trigger] all[j]).after,
        (#[trigger] all[k]).before,
    ) by {
        if k < n {
            assert(all[k] == first[k]);
            assert(all[j] == first[j]);
        } else if k > n {
            assert(all[k] == then[k - n]);
            assert(all[j] == then[j - n]);
        } else {
            assert(all[k] == then[0]);
            assert(all[j] == first.last());
        }
    }
    if all.len() > 0 {
        if n > 0 {
            assert(all[0] == first[0]);
        } else {
            assert(all[0] == then[0]);
        }
    }
    if then.len() > 0 {
        assert(all.last() == then.last());
    } else if n > 0 {
        assert(all.last() == first.last());
    }
}

/// A run whose steps all went well may have ended in a failure other than
/// that of a constructor.
pub proof fn lemma_run_stopped(
    start: ServiceMap,
    steps: Seq<Step>,
    end: ServiceMap,
    r: Result<(), EngineError>,
)
    requires
        run(start, steps, end, Ok(())),
        !(r is Err && r->Err_0 is Build),
    ensures
        run(start, steps, end, r),
{
    assert forall|k: int| 0 <= k < steps.len() implies step_problem(steps, k, r)
        == step_problem(steps, k, Ok(())) by {}
}

/// A single step is a run.
pub proof fn lemma_run_one(step: Step, r: Result<(), EngineError>)
    requires
        entered(step.before, step.after, step.id, step.cfg, step_problem(seq![step], 0, r)),
        r matches Err(EngineError::Build(id, _)) ==> id == step.id,
    ensures
        run(step.before, seq![step], step.after, r),
{
    let steps = seq![step];
    assert(steps[0] == step);
    assert(steps.last() == step);
}

/// Why a run stopped short of a service among `among`: two services would
/// carry one name, of which one is built and the other is not; or a service
/// that is not built talks through a network whose broker has no host; or
/// the constructor of a service failed, which is not built then.
pub open spec fn caused(after: ServiceMap, e: EngineError, among: Set<ServiceId>) -> bool {
    match e {
        EngineError::NameClash(a, b) => {
            &&& a != b
            &&& a.spec_service_name() == b.spec_service_name()
            &&& among.contains(a)
            &&& !after.registry@.contains_key(a)
            &&& after.registry@.contains_key(b)
        },
        EngineError::BrokerUrl(network) => {
            &&& url_host_text(network.spec_broker_url()) is None
            &&& exists|s: ServiceId|
                among.contains(s) && !after.registry@.contains_key(s) && #[trigger] s.spec_network()
                    == Some(network)
        },
        EngineError::Build(id, _) => among.contains(id) && !after.registry@.contains_key(id),
        _ => false,
    }
}

/// What `top` cannot be built without.
pub open spec fn needs(top: ServiceId) -> Set<ServiceId> {
    Set::new(|s: ServiceId| top.depends_on(s))
}

/// What the installed services cannot be built without.
pub open spec fn wanted(installed: Map<ServiceId, ServiceConfig>) -> Set<ServiceId> {
    Set::new(
        |s: ServiceId|
            exists|root: ServiceId| #[trigger] installed.contains_key(root) && root.depends_on(s),
    )
}

/// A cause among few services is a cause among more.
pub proof fn lemma_caused_among(
    after: ServiceMap,
    e: EngineError,
    few: Set<ServiceId>,
    more: Set<ServiceId>,
)
    requires
        caused(after, e, few),
        few.subset_of(more),
    ensures
        caused(after, e, more),
{
    match e {
        EngineError::BrokerUrl(network) => {
            let s = choose|s: ServiceId|
                few.contains(s) && !after.registry@.contains_key(s) && #[trigger] s.spec_network()
                    == Some(network);
            assert(more.contains(s));
        },
        _ => {},
    }
}

/// What `s` is built from where `top` is built from `cfg`: `cfg` for `top`
/// itself, and nothing but the site's configuration for the others.
pub open spec fn cfg_for(top: ServiceId, cfg: ServiceConfig, s: ServiceId) -> ServiceConfig {
    if s == top {
        cfg
    } else {
        ServiceConfig::Default
    }
}

/// The step built a service for `root`, which is built from `cfg`: `root`
/// itself from `cfg`, or a service that `root` cannot be built without, by
/// default.
pub open spec fn built_for(step: Step, root: ServiceId, cfg: ServiceConfig) -> bool {
    root.depends_on(step.id) && step.cfg == cfg_for(root, cfg, step.id)
}

/// Every step built a service for `top`, which is built from `cfg`.
pub open spec fn steps_for(steps: Seq<Step>, top: ServiceId, cfg: ServiceConfig) -> bool {
    forall|k: int| 0 <= k < steps.len() ==> built_for(#[trigger] steps[k], top, cfg)
}

/// Every step built, by default, a service other than `top` that `top`
/// cannot be built without.
pub open spec fn steps_below(steps: Seq<Step>, top: ServiceId) -> bool {
    forall|k: int|
        0 <= k < steps.len() ==> (#[trigger] steps[k]).id != top && built_for(
            steps[k],
            top,
            ServiceConfig::Default,
        )
}

/// Every step built a service for one of the installed services, which is
/// built from what it was installed with.
pub open spec fn steps_of(steps: Seq<Step>, installed: Map<ServiceId, ServiceConfig>) -> bool {
    forall|k: int|
        0 <= k < steps.len() ==> exists|root: ServiceId|
            installed.contains_key(root) && built_for(#[trigger] steps[k], root, installed[root])
}

/// No two services among those built and those in `among` carry one name.
pub open spec fn names_clear(state: ServiceMap, among: Set<ServiceId>) -> bool {
    forall|a: ServiceId, b: ServiceId|
        #![trigger a.spec_service_name(), b.spec_service_name()]
        a != b && (among.contains(a) || state.registry@.contains_key(a)) && (among.contains(b)
            || state.registry@.contains_key(b)) ==> a.spec_service_name()
            != b.spec_service_name()
}

/// Nothing of its own stands in the way of building `s` from `cfg`: the
/// network it talks through, if it talks through one, has a broker with a
/// host, and its constructor is sure to succeed.
pub open spec fn ready(state: ServiceMap, s: ServiceId, cfg: ServiceConfig) -> bool {
    &&& s.spec_network() matches Some(network) ==> url_host_text(
        network.spec_broker_url(),
    ) is Some
    &&& sure_to_build(state.local_conf, s, cfg)
}

/// Nothing stands in the way of building, by default, what `top` cannot be
/// built without, as the engine stands: no two services among those built
/// and those that `top` cannot be built without carry one name, and each of
/// the latter that is not built, but for `top`, is ready.
pub open spec fn clear_below(state: ServiceMap, top: ServiceId) -> bool {
    &&& names_clear(state, needs(top))
    &&& forall|s: ServiceId|
        #[trigger] top.depends_on(s) && s != top && !state.registry@.contains_key(s) ==> ready(
            state,
            s,
            ServiceConfig::Default,
        )
}

/// Nothing stands in the way of building `top` from `cfg`, as the engine
/// stands.
pub open spec fn clear(state: ServiceMap, top: ServiceId, cfg: ServiceConfig) -> bool {
    clear_below(state, top) && ready(state, top, cfg)
}

/// Nothing stands in the way of building what is installed, as the engine
/// stands: no two services among those built and those that an installed
/// service cannot be built without carry one name, and each of the latter
/// that is not built is ready, whichever of the installed services it is
/// built for.
pub open spec fn all_clear(state: ServiceMap) -> bool {
    &&& names_clear(state, wanted(state.constructors@))
    &&& forall|root: ServiceId, s: ServiceId|
        #![trigger state.constructors@.contains_key(root), root.depends_on(s)]
        state.constructors@.contains_key(root) && root.depends_on(s)
            && !state.registry@.contains_key(s) ==> ready(
            state,
            s,
            cfg_for(root, state.constructors@[root], s),
        )
}

/// The services that the steps entered, in the order of the steps.
pub open spec fn entered_ids(steps: Seq<Step>) -> Seq<ServiceId> {
    Seq::new(steps.len(), |k: int| steps[k].id)
}

/// The services that are entered, one after the other, to build what
/// `id` requires from its dependency `i` on, where the services of `built`
/// are built: for each required dependency that is not built, in the order
/// of the declaration, what it takes to build that dependency.
pub open spec fn plan_required(built: Set<ServiceId>, id: ServiceId, i: int) -> Seq<ServiceId>
    decreases id.rank(), 0int, id.spec_dependencies().len() - i,
{
    let deps = id.spec_dependencies();
    if i < 0 || i >= deps.len() {
        Seq::empty()
    } else if deps[i].kind == DepKind::Required && !built.contains(deps[i].id) && deps[i].id.rank()
        < id.rank() {
        let first = plan(built, deps[i].id);
        first + plan_required(built.union(first.to_set()), id, i + 1)
    } else {
        plan_required(built, id, i + 1)
    }
}

/// The services that are entered, one after the other, to build `id`
/// where the services of `built` are built: first what `id` requires, then
/// `id` itself.
pub open spec fn plan(built: Set<ServiceId>, id: ServiceId) -> Seq<ServiceId>
    decreases id.rank(), 1int, 0int,
{
    plan_required(built, id, 0).push(id)
}

/// The services that are entered, one after the other, to build the
/// installed services from position `i` of `order` on, where the services of
/// `built` are built: for each installed service that is not built, in the
/// order of `order`, what it takes to build it. A service that was not
/// installed is passed over.
pub open spec fn plan_all(
    built: Set<ServiceId>,
    installed: Set<ServiceId>,
    order: Seq<ServiceId>,
    i: int,
) -> Seq<ServiceId>
    decreases order.len() - i,
{
    if i < 0 || i >= order.len() {
        Seq::empty()
    } else if !built.contains(order[i]) && installed.contains(order[i]) {
        let first = plan(built, order[i]);
        first + plan_all(built.union(first.to_set()), installed, order, i + 1)
    } else {
        plan_all(built, installed, order, i + 1)
    }
}

/// The services `ids` were entered on the way through `whole`, from a
/// registry that held `before` to one that holds `after`: they are the first
/// of `whole`, and all of it where the way was gone to its end, which leaves
/// them built beside what was built.
pub open spec fn on_plan(
    ids: Seq<ServiceId>,
    whole: Seq<ServiceId>,
    before: Set<ServiceId>,
    after: Set<ServiceId>,
    ok: bool,
) -> bool {
    &&& ids.is_prefix_of(whole)
    &&& ok ==> ids == whole && after == before.union(ids.to_set())
}

/// The steps of two runs, one after the other, entered the services of
/// the first and then those of the second.
pub proof fn lemma_entered_ids_then(first: Seq<Step>, then: Seq<Step>)
    ensures
        entered_ids(first + then) == entered_ids(first) + entered_ids(then),
{
    let all = first + then;
    assert forall|k: int| 0 <= k < all.len() implies entered_ids(all)[k] == (entered_ids(first)
        + entered_ids(then))[k] by {
        if k < first.len() {
            assert(all[k] == first[k]);
        } else {
            assert(all[k] == then[k - first.len()]);
        }
    }
    assert(entered_ids(all) =~= entered_ids(first) + entered_ids(then));
}

/// What is built after two lists of services were built one after the
/// other is what is built after the two as one list.
pub proof fn lemma_built_then(base: Set<ServiceId>, a: Seq<ServiceId>, b: Seq<ServiceId>)
    ensures
        base.union(a.to_set()).union(b.to_set()) == base.union((a + b).to_set()),
{
    let all = a + b;
    assert forall|x: ServiceId| all.contains(x) <==> a.contains(x) || b.contains(x) by {
        if a.contains(x) {
            let i = choose|i: int| 0 <= i < a.len() && a[i] == x;
            assert(all[i] == x);
        }
        if b.contains(x) {
            let i = choose|i: int| 0 <= i < b.len() && b[i] == x;
            assert(all[a.len() + i] == x);
        }
        if all.contains(x) {
            let i = choose|i: int| 0 <= i < all.len() && all[i] == x;
            if i < a.len() {
                assert(a[i] == x);
            } else {
                assert(b[i - a.len()] == x);
            }
        }
    }
    assert(base.union(a.to_set()).union(b.to_set()) =~= base.union(all.to_set()));
}

/// One more part of a way: after the services `done`, which left `built`,
/// the services `part` were entered on the way through `first`; what follows
/// `first` on the whole way is `rest`, once `first` is gone through.
pub proof fn lemma_on_plan_then(
    done: Seq<ServiceId>,
    part: Seq<ServiceId>,
    first: Seq<ServiceId>,
    rest: Seq<ServiceId>,
    whole: Seq<ServiceId>,
    start: Set<ServiceId>,
    built: Set<ServiceId>,
    after: Set<ServiceId>,
    ok: bool,
)
    requires
        done + (first + rest) == whole,
        built == start.union(done.to_set()),
        on_plan(part, first, built, after, ok),
    ensures
        (done + part).is_prefix_of(whole),
        ok ==> (done + part) + rest == whole && after == start.union((done + part).to_set()),
{
    let ids = done + part;
    assert(ids.len() <= whole.len());
    assert forall|k: int| 0 <= k < ids.len() implies ids[k] == whole[k] by {
        if k >= done.len() {
            assert(part[k - done.len()] == first[k - done.len()]);
            assert(whole[k] == (first + rest)[k - done.len()]);
        }
    }
    assert(whole.subrange(0, ids.len() as int) =~= ids);
    if ok {
        assert((done + part) + rest =~= done + (first + rest));
        lemma_built_then(start, done, part);
    }
}

/// The first services of a way are the first services of a longer way.
pub proof fn lemma_on_longer_plan(ids: Seq<ServiceId>, whole: Seq<ServiceId>, last: ServiceId)
    requires
        ids.is_prefix_of(whole),
    ensures
        ids.is_prefix_of(whole.push(last)),
{
    assert(whole.push(last).subrange(0, ids.len() as int) =~= whole.subrange(0, ids.len() as int));
}

/// What one call of `materialise` did to the engine: it went from `before`
/// to `after` by steps that each built a service for one of the services
/// installed in `before`. The steps took the installed services in the
/// order of the graph, and what each of them requires in the order of its
/// declaration.
pub open spec fn materialised(
    before: ServiceMap,
    after: ServiceMap,
    r: Result<(), EngineError>,
) -> bool {
    exists|steps: Seq<Step>| #[trigger]
        run(before, steps, after, r) && steps_of(steps, before.constructors@) && on_plan(
            entered_ids(steps),
            plan_all(
                before.registry@.dom(),
                before.constructors@.dom(),
                build_order(before.graph@),
                0,
            ),
            before.registry@.dom(),
            after.registry@.dom(),
            r is Ok,
        )
}

/// A constructor that is sure to succeed stays so while the store grows.
pub proof fn lemma_ready_stays(
    before: ServiceMap,
    now: ServiceMap,
    s: ServiceId,
    cfg: ServiceConfig,
)
    requires
        ready(before, s, cfg),
        now.local_conf.grown_from(before.local_conf),
    ensures
        ready(now, s, cfg),
{
    match s {
        ServiceId::Blaze(site) => {
            if let Some((_, user)) = site.spec_treafik_exposure() {
                assert(lookup(before.local_conf.users(), user) is Some);
            }
        },
        ServiceId::Obds2Fhir => {
            assert(lookup(
                before.local_conf.users(),
                CcpDefault::spec_prefix() + "-obds2fhir-auth"@,
            ) is Some);
        },
        _ => {},
    }
}

/// Where nothing stands in the way of building what `top` cannot be built
/// without, nothing stands in the way of building one of the services it
/// requires once some of the others are built.
pub proof fn lemma_clear_down(before: ServiceMap, now: ServiceMap, top: ServiceId, i: int)
    requires
        now.after(before, top),
        clear_below(before, top),
        0 <= i < top.spec_dependencies().len(),
        top.spec_dependencies()[i].kind == DepKind::Required,
        !now.registry@.contains_key(top.spec_dependencies()[i].id),
    ensures
        clear(now, top.spec_dependencies()[i].id, ServiceConfig::Default),
{
    let dep = top.spec_dependencies()[i].id;
    top.lemma_dependencies();
    assert forall|s: ServiceId| #[trigger] dep.depends_on(s) implies top.depends_on(s) && s
        != top by {
        top.lemma_depends_on_step(i, s);
        dep.lemma_depends_on_rank(s);
    }
    assert forall|a: ServiceId, b: ServiceId|
        #![trigger a.spec_service_name(), b.spec_service_name()]
        a != b && (needs(dep).contains(a) || now.registry@.contains_key(a)) && (needs(
            dep,
        ).contains(b) || now.registry@.contains_key(b)) implies a.spec_service_name()
        != b.spec_service_name() by {
        assert(needs(top).contains(a) || before.registry@.contains_key(a));
        assert(needs(top).contains(b) || before.registry@.contains_key(b));
    }
    assert forall|s: ServiceId| #[trigger]
        dep.depends_on(s) && !now.registry@.contains_key(s) implies ready(
        now,
        s,
        ServiceConfig::Default,
    ) by {
        assert(top.depends_on(s) && s != top);
        assert(!before.registry@.contains_key(s));
        lemma_ready_stays(before, now, s, ServiceConfig::Default);
    }
    assert(dep.depends_on(dep));
}

/// Where nothing stands in the way of building what is installed, nothing
/// stands in the way of building one installed service once some of the
/// others are built.
pub proof fn lemma_all_clear_down(
    before: ServiceMap,
    now: ServiceMap,
    root: ServiceId,
    cfg: ServiceConfig,
)
    requires
        all_clear(before),
        held(before.constructors@, root) == Some(cfg),
        now.local_conf.grown_from(before.local_conf),
        forall|s: ServiceId| #[trigger]
            before.registry@.contains_key(s) ==> now.registry@.contains_key(s),
        forall|s: ServiceId| #[trigger]
            now.registry@.contains_key(s) && !before.registry@.contains_key(s) ==> wanted(
                before.constructors@,
            ).contains(s),
        !now.registry@.contains_key(root),
    ensures
        clear(now, root, cfg),
{
    assert(before.constructors@.contains_key(root));
    assert forall|s: ServiceId| #[trigger] root.depends_on(s) implies wanted(
        before.constructors@,
    ).contains(s) by {
        assert(before.constructors@.contains_key(root) && root.depends_on(s));
    }
    assert forall|a: ServiceId, b: ServiceId|
        #![trigger a.spec_service_name(), b.spec_service_name()]
        a != b && (needs(root).contains(a) || now.registry@.contains_key(a)) && (needs(
            root,
        ).contains(b) || now.registry@.contains_key(b)) implies a.spec_service_name()
        != b.spec_service_name() by {
        assert(wanted(before.constructors@).contains(a) || before.registry@.contains_key(a));
        assert(wanted(before.constructors@).contains(b) || before.registry@.contains_key(b));
    }
    assert forall|s: ServiceId| #[trigger]
        root.depends_on(s) && !now.registry@.contains_key(s) implies ready(
        now,
        s,
        cfg_for(root, cfg, s),
    ) by {
        assert(before.constructors@.contains_key(root) && root.depends_on(s));
        assert(!before.registry@.contains_key(s));
        lemma_ready_stays(before, now, s, cfg_for(root, cfg, s));
    }
    assert(root.depends_on(root));
}

/// The engine: the site it works for, the services that are built, what was
/// installed and is not built yet, and the hooks that wait for their
/// service.
#[derive(Debug)]
pub struct ServiceMap {
    pub config: Config,
    pub local_conf: LocalConf,
    /// The services that are built.
    pub registry: Registry<ServiceValue>,
    pub graph: DepGraph,
    /// What each installed service is to be built from, until it is built.
    pub constructors: Registry<ServiceConfig>,
    /// The hooks of the services that are not built yet, first come first.
    pub hooks: Vec<(ServiceId, PostInstall)>,
    pub oidc: OidcClients,
}

pub fn dependency_ids(deps: &Vec<Dependency>) -> (ids: Vec<ServiceId>)
    ensures
        ids@ == Seq::new(deps@.len(), |i: int| deps@[i].id),
{
    let mut ids: Vec<ServiceId> = Vec::new();
    let mut i: usize = 0;
    while i < deps.len()
        invariant
            i <= deps@.len(),
            ids@ == Seq::new(i as nat, |j: int| deps@[j].id),
        decreases deps@.len() - i,
    {
        ids.push(deps[i].id);
        assert(ids@ =~= Seq::new((i + 1) as nat, |j: int| deps@[j].id));
        i += 1;
    }
    ids
}

impl ServiceMap {
    /// Every service stands under its own identity.
    pub open spec fn typed(services: Map<ServiceId, ServiceValue>) -> bool {
        forall|id: ServiceId| #[trigger] services.contains_key(id) ==> services[id].id() == id
    }

    /// With a service, every service it requires is built.
    pub open spec fn closed(services: Map<ServiceId, ServiceValue>) -> bool {
        forall|id: ServiceId, i: int|
            #![trigger services.contains_key(id), id.spec_dependencies()[i]]
            services.contains_key(id) && 0 <= i < id.spec_dependencies().len()
                && id.spec_dependencies()[i].kind == DepKind::Required ==> services.contains_key(
                id.spec_dependencies()[i].id,
            )
    }

    /// No two services carry the same name.
    pub open spec fn names_distinct(services: Map<ServiceId, ServiceValue>) -> bool {
        forall|a: ServiceId, b: ServiceId|
            #![trigger services.contains_key(a), services.contains_key(b)]
            services.contains_key(a) && services.contains_key(b) && a != b
                ==> a.spec_service_name() != b.spec_service_name()
    }

    /// What holds of the engine between any two calls.
    pub open spec fn wf(&self) -> bool {
        &&& self.config.wf()
        &&& self.local_conf.wf()
        &&& self.registry.wf()
        &&& self.registry.complete()
        &&& self.constructors.wf()
        &&& Self::typed(self.registry@)
        &&& Self::closed(self.registry@)
        &&& Self::names_distinct(self.registry@)
        &&& forall|id: ServiceId| #[trigger]
            self.constructors@.contains_key(id) ==> self.constructors@[id].spec_fits(id)
        &&& forall|id: ServiceId| #[trigger]
            self.constructors@.contains_key(id) ==> has_edge(self.graph@, Node::Root, id)
        &&& forall|i: int|
            0 <= i < self.hooks@.len() ==> {
                &&& (#[trigger] self.hooks@[i]).1.spec_fits(self.hooks@[i].0)
                &&& !self.registry@.contains_key(self.hooks@[i].0)
            }
    }

    /// How the engine stands to an earlier state `before` after it built
    /// services on behalf of `id`: nothing that was built is lost, and what
    /// was built since is something that `id` cannot be built without.
    pub open spec fn after(&self, before: ServiceMap, id: ServiceId) -> bool {
        &&& self.wf()
        &&& self.config == before.config
        &&& self.graph == before.graph
        &&& self.constructors == before.constructors
        &&& self.local_conf.grown_from(before.local_conf)
        &&& forall|s: ServiceId| #[trigger]
            before.registry@.contains_key(s) ==> self.registry@.contains_key(s)
        &&& forall|s: ServiceId| #[trigger]
            self.registry@.contains_key(s) && !before.registry@.contains_key(s) ==> id.depends_on(
                s,
            )
        &&& self.hooks@ == hooks_left(before.hooks@, self.registry@.dom())
    }

    /// With a service, every service it requires is built: whatever was
    /// handed to its constructor as required is still there.
    pub proof fn lemma_required_built(&self, id: ServiceId, i: int)
        requires
            self.wf(),
            self.registry@.contains_key(id),
            0 <= i < id.spec_dependencies().len(),
            id.spec_dependencies()[i].kind == DepKind::Required,
        ensures
            self.registry@.contains_key(id.spec_dependencies()[i].id),
            self.registry@[id.spec_dependencies()[i].id].id() == id.spec_dependencies()[i].id,
    {
    }

    /// No two services that are built carry the same name.
    pub proof fn lemma_names_differ(&self, a: ServiceId, b: ServiceId)
        requires
            self.wf(),
            self.registry@.contains_key(a),
            self.registry@.contains_key(b),
            a != b,
        ensures
            a.spec_service_name() != b.spec_service_name(),
            self.registry@[a].spec_service_name() != self.registry@[b].spec_service_name(),
    {
    }

    /// An engine for the site `config` with the local store `local_conf`,
    /// with nothing installed.
    pub fn new(config: Config, local_conf: LocalConf) -> (m: Self)
        requires
            config.wf(),
            local_conf.wf(),
        ensures
            m.wf(),
            m.config == config,
            m.local_conf == local_conf,
            m.registry@ == Map::<ServiceId, ServiceValue>::empty(),
            m.constructors@ == Map::<ServiceId, ServiceConfig>::empty(),
            m.graph@ == Seq::<Edge>::empty(),
            m.hooks@.len() == 0,
            m.oidc.clients@.len() == 0,
    {
        ServiceMap {
            config,
            local_conf,
            registry: Registry::new(),
            graph: DepGraph::new(),
            constructors: Registry::new(),
            hooks: Vec::new(),
            oidc: OidcClients::new(),
        }
    }

    /// The number of services that are built.
    pub fn len(&self) -> (n: usize)
        ensures
            n == self.registry.order().len(),
    {
        self.registry.len()
    }

    /// Whether the service `id` is built.
    pub fn contains(&self, id: ServiceId) -> (b: bool)
        ensures
            b == self.registry@.contains_key(id),
    {
        self.registry.contains(id)
    }

    /// The service `id`, if it is built.
    pub fn get(&self, id: ServiceId) -> (v: Option<&ServiceValue>)
        ensures
            match v {
                Some(v) => held(self.registry@, id) == Some(*v),
                None => held(self.registry@, id) is None,
            },
    {
        self.registry.get(id)
    }

    /// Installs the service `id`, to be built from `cfg`. The configuration
    /// must be of the kind the service is built from. A service that is
    /// installed again is built from the configuration that came last.
    pub fn install_with_config(&mut self, id: ServiceId, cfg: ServiceConfig) -> (r: Result<
        (),
        EngineError,
    >)
        requires
            old(self).wf(),
        ensures
            final(self).wf(),
            final(self).config == old(self).config,
            final(self).local_conf == old(self).local_conf,
            final(self).registry == old(self).registry,
            final(self).hooks == old(self).hooks,
            final(self).oidc == old(self).oidc,
            if cfg.spec_fits(id) {
                &&& r is Ok
                &&& final(self).constructors@ == old(self).constructors@.insert(id, cfg)
                &&& final(self).graph@ == old(self).graph@ + install_edges(id)
            } else {
                &&& r matches Err(EngineError::ConfigMismatch(x))
                &&& x == id
                &&& final(self).constructors == old(self).constructors
                &&& final(self).graph == old(self).graph
            },
    {
        if !cfg.fits(id) {
            return Err(EngineError::ConfigMismatch(id));
        }
        self.constructors.insert(id, cfg);
        self.graph.register(Node::Root, id);
        let deps = id.dependencies();
        let dep_ids = dependency_ids(&deps);
        self.graph.register_many(Node::Service(id), &dep_ids);
        proof {
            let added = install_edges(id);
            assert(self.graph@ =~= old(self).graph@ + added);
            assert(added[0] == Edge { parent: Node::Root, child: id });
            assert forall|x: ServiceId| #[trigger]
                self.constructors@.contains_key(x) implies has_edge(self.graph@, Node::Root, x) by {
                let edge = Edge { parent: Node::Root, child: x };
                if x == id {
                    assert(self.graph@[old(self).graph@.len() as int] == edge);
                } else {
                    assert(old(self).constructors@.contains_key(x));
                    let e = choose|e: int|
                        0 <= e < old(self).graph@.len() && old(self).graph@[e] == edge;
                    assert(self.graph@[e] == edge);
                }
            }
        }
        Ok(())
    }

    /// Installs the service `id`, to be built from the configuration of the
    /// site alone. Only a service that can be built by default can be
    /// installed so.
    pub fn install_default(&mut self, id: ServiceId) -> (r: Result<(), EngineError>)
        requires
            old(self).wf(),
        ensures
            final(self).wf(),
            final(self).config == old(self).config,
            final(self).local_conf == old(self).local_conf,
            final(self).registry == old(self).registry,
            final(self).hooks == old(self).hooks,
            final(self).oidc == old(self).oidc,
            if id.spec_default_creatable() {
                &&& r is Ok
                &&& final(self).constructors@ == old(self).constructors@.insert(
                    id,
                    ServiceConfig::Default,
                )
                &&& final(self).graph@ == old(self).graph@ + install_edges(id)
            } else {
                &&& r matches Err(EngineError::MissingConfig(x))
                &&& x == id
                &&& final(self).constructors == old(self).constructors
                &&& final(self).graph == old(self).graph
            },
    {
        if !id.default_creatable() {
            return Err(EngineError::MissingConfig(id));
        }
        self.install_with_config(id, ServiceConfig::Default)
    }

    /// Lets the module `m` install what the configuration of the site asks
    /// of it: afterwards the engine stands as the module says it does. A
    /// module only installs; no service is built or lost.
    pub fn install_module<M: Module>(&mut self, m: &M) -> (r: Result<(), EngineError>)
        requires
            old(self).wf(),
        ensures
            final(self).wf(),
            final(self).config == old(self).config,
            final(self).registry@.dom() == old(self).registry@.dom(),
            m.installs(*old(self), *final(self), r),
    {
        m.install(self)
    }

    /// Registers `hook` for the service `id`. The hook runs when the service
    /// is built, after the hooks that were registered for it before; on a
    /// service that is built already it runs at once.
    pub fn post_install(&mut self, id: ServiceId, hook: PostInstall) -> (r: Result<
        (),
        EngineError,
    >)
        requires
            old(self).wf(),
        ensures
            final(self).wf(),
            final(self).config == old(self).config,
            final(self).local_conf == old(self).local_conf,
            final(self).graph == old(self).graph,
            final(self).constructors == old(self).constructors,
            final(self).oidc == old(self).oidc,
            final(self).registry@.dom() == old(self).registry@.dom(),
            final(self).registry.order() == old(self).registry.order(),
            if !hook.spec_fits(id) {
                &&& r matches Err(EngineError::HookMismatch(x))
                &&& x == id
                &&& final(self).registry == old(self).registry
                &&& final(self).hooks == old(self).hooks
            } else if old(self).registry@.contains_key(id) {
                &&& r is Ok
                &&& final(self).hooks == old(self).hooks
                &&& ServiceValue::applied(old(self).registry@[id], final(self).registry@[id], hook)
                &&& forall|s: ServiceId|
                    s != id && old(self).registry@.contains_key(s) ==> #[trigger] final(self).registry@[s] == old(self).registry@[s]
            } else {
                &&& r is Ok
                &&& final(self).registry == old(self).registry
                &&& final(self).hooks@ == old(self).hooks@.push((id, hook))
            },
    {
        if !hook.fits(id) {
            return Err(EngineError::HookMismatch(id));
        }
        if !self.registry.contains(id) {
            self.hooks.push((id, hook));
            return Ok(());
        }
        match self.registry.take(id) {
            Some(value) => {
                let mut value = value;
                value.apply(hook);
                self.registry.insert(id, value);
                proof {
                    old(self).registry.lemma_order();
                    assert(self.registry@ =~= old(self).registry@.insert(id, value));
                    assert(self.registry@.dom() =~= old(self).registry@.dom());
                    assert forall|s: ServiceId| #[trigger]
                        self.registry@.contains_key(s) implies old(self).registry@.contains_key(
                        s,
                    ) by {
                        assert(self.registry@.dom().contains(s));
                    }
                }
            },
            None => {},
        }
        Ok(())
    }

    /// A service that is built and carries the name of `id` without being
    /// `id`.
    fn name_clash(&self, id: ServiceId) -> (other: Option<ServiceId>)
        requires
            self.registry.wf(),
        ensures
            match other {
                Some(o) => self.registry@.contains_key(o) && o != id && o.spec_service_name()
                    == id.spec_service_name(),
                None => forall|o: ServiceId| #[trigger]
                    self.registry@.contains_key(o) && o != id ==> o.spec_service_name()
                        != id.spec_service_name(),
            },
    {
        let name = id.service_name();
        let mut i: usize = 0;
        while i < self.registry.len()
            invariant
                i <= self.registry.order().len(),
                self.registry.wf(),
                name@ == id.spec_service_name(),
                forall|j: int|
                    0 <= j < i && self.registry@.contains_key(#[trigger] self.registry.order()[j])
                        && self.registry.order()[j] != id
                        ==> self.registry.order()[j].spec_service_name() != name@,
            decreases self.registry.order().len() - i,
        {
            let o = self.registry.id_at(i);
            if !(o == id) && self.registry.contains(o) {
                let other_name = o.service_name();
                if same_text(other_name.as_str(), name.as_str()) {
                    return Some(o);
                }
            }
            i += 1;
        }
        proof {
            self.registry.lemma_order();
            assert forall|o: ServiceId| #[trigger]
                self.registry@.contains_key(o) && o != id implies o.spec_service_name()
                != id.spec_service_name() by {
                assert(self.registry.order().contains(o));
                let j = choose|j: int|
                    0 <= j < self.registry.order().len() && self.registry.order()[j] == o;
                assert(self.registry@.contains_key(self.registry.order()[j]));
            }
        }
        None
    }

    /// Builds `id` from `cfg` and from the services it depends on, which are
    /// taken out of the registry for the constructor and put back after it;
    /// runs the hooks that wait for `id`; and enters it into the registry.
    fn assemble(&mut self, id: ServiceId, cfg: ServiceConfig, broker_id: &str) -> (r: Result<
        (),
        EngineError,
    >)
        requires
            old(self).wf(),
            cfg.spec_fits(id),
            !old(self).registry@.contains_key(id),
            forall|i: int|
                0 <= i < id.spec_dependencies().len() && (#[trigger] id.spec_dependencies()[i]).kind
                    == DepKind::Required ==> old(self).registry@.contains_key(
                    id.spec_dependencies()[i].id,
                ),
            forall|o: ServiceId| #[trigger]
                old(self).registry@.contains_key(o) ==> o.spec_service_name()
                    != id.spec_service_name(),
            broker_id@ == spec_broker_id(id),
        ensures
            final(self).wf(),
            final(self).config == old(self).config,
            final(self).graph == old(self).graph,
            final(self).constructors == old(self).constructors,
            final(self).local_conf.grown_from(old(self).local_conf),
            entered(
                *old(self),
                *final(self),
                id,
                cfg,
                match r {
                    Err(EngineError::Build(_, e)) => Some(e),
                    _ => None,
                },
            ),
            r matches Err(EngineError::Build(failed, _)) ==> failed == id,
            sure_to_build(old(self).local_conf, id, cfg) ==> r is Ok,
            match r {
                Ok(()) => final(self).registry@.dom() == old(self).registry@.dom().insert(id)
                    && final(self).hooks@ == hooks_beside(old(self).hooks@, id),
                Err(e) => e is Build && final(self).registry@.dom() == old(self).registry@.dom()
                    && final(self).hooks == old(self).hooks,
            },
    {
        let deps = id.dependencies();
        let dep_ids = dependency_ids(&deps);
        proof {
            id.lemma_dependencies();
            assert forall|i: int, j: int|
                0 <= i < dep_ids@.len() && 0 <= j < dep_ids@.len() && i != j implies dep_ids@[i]
                != dep_ids@[j] by {
                if i < j {
                    assert(id.spec_dependencies()[i].id != id.spec_dependencies()[j].id);
                } else {
                    assert(id.spec_dependencies()[j].id != id.spec_dependencies()[i].id);
                }
            }
        }
        let taken = self.registry.take_disjoint(&dep_ids);
        let mut slots = match taken {
            Ok(slots) => slots,
            Err(_) => unreached(),
        };
        let ghost slots_before = slots@;
        proof {
            assert forall|i: int| 0 <= i < deps@.len() implies {
                &&& (#[trigger] deps@[i]).kind == DepKind::Required ==> slots@[i] is Some
                &&& slots@[i] matches Some(v) ==> v.id() == deps@[i].id
            } by {
                assert(slots@[i] == held(old(self).registry@, dep_ids@[i]));
                assert(dep_ids@[i] == deps@[i].id);
            }
        }
        let built = build(
            id,
            cfg,
            &mut slots,
            &self.config,
            &mut self.local_conf,
            &mut self.oidc,
            broker_id,
        );
        let ghost slots_after = slots@;
        let ghost outcome = built;
        self.registry.put_back(&dep_ids, slots);
        proof {
            let m = old(self).registry@;
            let now = self.registry@;
            old(self).registry.lemma_order();
            assert(dep_ids@ == spec_dependency_ids(id));
            assert(slots_before == given_slots(m, id)) by {
                assert forall|i: int| 0 <= i < slots_before.len() implies slots_before[i]
                    == given_slots(m, id)[i] by {
                    assert(slots_before[i] == held(m, dep_ids@[i]));
                }
            }
            assert forall|k: ServiceId| #[trigger] now.contains_key(k) == m.contains_key(k) by {
                lemma_restored(m, dep_ids@, slots_before, slots_after, k);
            }
            assert(now.dom() =~= m.dom());
            assert forall|k: ServiceId| #[trigger] now.contains_key(k) implies now[k].id() == k by {
                lemma_restored(m, dep_ids@, slots_before, slots_after, k);
                if exists|j: int| 0 <= j < dep_ids@.len() && dep_ids@[j] == k {
                    let j = choose|j: int| 0 <= j < dep_ids@.len() && dep_ids@[j] == k;
                    assert(slots_before[j] == held(m, dep_ids@[j]));
                    assert((slots_after[j] is Some) == (slots_before[j] is Some));
                }
            }
            assert forall|j: int|
                0 <= j < dep_ids@.len() && slots_after[j] is Some implies old(self).registry.order().contains(#[trigger] dep_ids@[j]) by {
                assert(slots_before[j] == held(m, dep_ids@[j]));
                assert((slots_after[j] is Some) == (slots_before[j] is Some));
            }
        }
        match built {
            Err(e) => {
                proof {
                    reveal(entered);
                    assert(entered_with(
                        *old(self),
                        *self,
                        id,
                        cfg,
                        Some(e),
                        slots_after,
                        outcome,
                        arbitrary(),
                    ));
                }
                Err(EngineError::Build(id, e))
            },
            Ok(value) => {
                let mut hooks: Vec<(ServiceId, PostInstall)> = Vec::new();
                core::mem::swap(&mut hooks, &mut self.hooks);
                let (value, kept) = run_hooks(value, hooks);
                self.hooks = kept;
                let ghost before_insert = self.registry@;
                let ghost hooked = value;
                self.registry.insert(id, value);
                proof {
                    if old(self).registry.order().contains(id) {
                        let j = choose|j: int|
                            0 <= j < old(self).registry.order().len() && old(self).registry.order()[j] == id;
                        assert(old(self).registry@.contains_key(old(self).registry.order()[j]));
                    }
                    reveal(entered);
                    assert(entered_with(
                        *old(self),
                        *self,
                        id,
                        cfg,
                        None,
                        slots_after,
                        outcome,
                        hooked,
                    ));
                    self.registry.lemma_order();
                    assert(self.registry@.dom() =~= old(self).registry@.dom().insert(id));
                    assert forall|i: int| 0 <= i < self.hooks@.len() implies {
                        &&& (#[trigger] self.hooks@[i]).1.spec_fits(self.hooks@[i].0)
                        &&& !self.registry@.contains_key(self.hooks@[i].0)
                    } by {
                        let h = self.hooks@[i];
                        let j = choose|j: int|
                            0 <= j < old(self).hooks@.len() && old(self).hooks@[j] == h;
                        assert(old(self).hooks@[j].1.spec_fits(old(self).hooks@[j].0));
                    }
                }
                Ok(())
            },
        }
    }

    /// Builds by default every required dependency of `id` that is not
    /// built, one after the other in the order of the declaration.
    fn ensure_required(&mut self, id: ServiceId) -> (out: (
        Result<(), EngineError>,
        Ghost<Seq<Step>>,
    ))
        requires
            old(self).wf(),
            !old(self).registry@.contains_key(id),
        ensures
            final(self).after(*old(self), id),
            !final(self).registry@.contains_key(id),
            out.0 is Ok ==> forall|i: int|
                0 <= i < id.spec_dependencies().len() && (#[trigger] id.spec_dependencies()[i]).kind
                    == DepKind::Required ==> final(self).registry@.contains_key(
                    id.spec_dependencies()[i].id,
                ),
            out.0 matches Err(e) ==> e.from_building() && caused(*final(self), e, needs(id)),
            run(*old(self), out.1@, *final(self), out.0),
            steps_below(out.1@, id),
            clear_below(*old(self), id) ==> out.0 is Ok,
            on_plan(
                entered_ids(out.1@),
                plan_required(old(self).registry@.dom(), id, 0),
                old(self).registry@.dom(),
                final(self).registry@.dom(),
                out.0 is Ok,
            ),
        decreases id.rank(), 0int,
    {
        let deps = id.dependencies();
        let mut i: usize = 0;
        let ghost mut steps: Seq<Step> = Seq::empty();
        let ghost whole = plan_required(old(self).registry@.dom(), id, 0);
        proof {
            id.lemma_dependencies();
            lemma_hooks_left_all(self.hooks@, self.registry@.dom());
            assert(entered_ids(steps) + whole =~= whole);
            assert(self.registry@.dom() =~= old(self).registry@.dom().union(
                entered_ids(steps).to_set(),
            ));
        }
        while i < deps.len()
            invariant
                i <= deps@.len(),
                deps@ == id.spec_dependencies(),
                self.after(*old(self), id),
                !self.registry@.contains_key(id),
                forall|j: int|
                    0 <= j < i && (#[trigger] deps@[j]).kind == DepKind::Required
                        ==> self.registry@.contains_key(deps@[j].id),
                run(*old(self), steps, *self, Ok(())),
                steps_below(steps, id),
                whole == plan_required(old(self).registry@.dom(), id, 0),
                entered_ids(steps) + plan_required(self.registry@.dom(), id, i as int) == whole,
                self.registry@.dom() == old(self).registry@.dom().union(
                    entered_ids(steps).to_set(),
                ),
            decreases deps@.len() - i,
        {
            let dep = deps[i];
            let ghost before = *self;
            let ghost done = entered_ids(steps);
            proof {
                id.lemma_dependencies();
                assert(id.spec_dependencies()[i as int].id.rank() < id.rank());
            }
            if matches!(dep.kind, DepKind::Required) && !self.registry.contains(dep.id) {
                proof {
                    id.lemma_dependencies();
                    assert(id.spec_dependencies()[i as int].id.rank() < id.rank());
                    if clear_below(*old(self), id) {
                        lemma_clear_down(*old(self), before, id, i as int);
                    }
                }
                let (r, Ghost(more)) = self.construct(dep.id, ServiceConfig::Default);
                proof {
                    assert forall|s: ServiceId| #[trigger] dep.id.depends_on(s) implies id.depends_on(
                        s,
                    ) && s != id by {
                        id.lemma_depends_on_step(i as int, s);
                        dep.id.lemma_depends_on_rank(s);
                    }
                    lemma_run_then(*old(self), steps, before, before, more, *self, r);
                    let all = steps + more;
                    let first = plan(before.registry@.dom(), dep.id);
                    let rest = plan_required(
                        before.registry@.dom().union(first.to_set()),
                        id,
                        i + 1,
                    );
                    assert(plan_required(before.registry@.dom(), id, i as int) == first + rest);
                    lemma_entered_ids_then(steps, more);
                    lemma_on_plan_then(
                        done,
                        entered_ids(more),
                        first,
                        rest,
                        whole,
                        old(self).registry@.dom(),
                        before.registry@.dom(),
                        self.registry@.dom(),
                        r is Ok,
                    );
                    assert forall|k: int| 0 <= k < all.len() implies (#[trigger] all[k]).id != id
                        && built_for(all[k], id, ServiceConfig::Default) by {
                        if k < steps.len() {
                            assert(all[k] == steps[k]);
                        } else {
                            assert(all[k] == more[k - steps.len()]);
                            assert(built_for(
                                more[k - steps.len()],
                                dep.id,
                                ServiceConfig::Default,
                            ));
                        }
                    }
                    steps = all;
                    if r is Err {
                        assert(needs(dep.id).subset_of(needs(id)));
                        lemma_caused_among(*self, r->Err_0, needs(dep.id), needs(id));
                    }
                    assert forall|s: ServiceId| #[trigger]
                        self.registry@.contains_key(s) && !old(self).registry@.contains_key(
                            s,
                        ) implies id.depends_on(s) by {
                        if !before.registry@.contains_key(s) {
                            id.lemma_depends_on_step(i as int, s);
                        }
                    }
                    if self.registry@.contains_key(id) {
                        dep.id.lemma_depends_on_rank(id);
                    }
                    assert(before.registry@.dom().subset_of(self.registry@.dom())) by {
                        assert forall|s: ServiceId|
                            before.registry@.dom().contains(s) implies self.registry@.dom().contains(
                            s,
                        ) by {
                            assert(before.registry@.contains_key(s));
                        }
                    }
                    lemma_hooks_left_twice(
                        old(self).hooks@,
                        before.registry@.dom(),
                        self.registry@.dom(),
                    );
                }
                match r {
                    Ok(()) => {},
                    Err(e) => {
                        return (Err(e), Ghost(steps));
                    },
                }
            } else {
                assert(plan_required(self.registry@.dom(), id, i as int) == plan_required(
                    self.registry@.dom(),
                    id,
                    i + 1,
                ));
            }
            i += 1;
        }
        proof {
            assert(entered_ids(steps) + plan_required(self.registry@.dom(), id, i as int)
                =~= entered_ids(steps));
        }
        (Ok(()), Ghost(steps))
    }

    /// Builds the service `id` from `cfg`: first the services it requires,
    /// by default, then the service itself.
    fn construct(&mut self, id: ServiceId, cfg: ServiceConfig) -> (out: (
        Result<(), EngineError>,
        Ghost<Seq<Step>>,
    ))
        requires
            old(self).wf(),
            cfg.spec_fits(id),
            !old(self).registry@.contains_key(id),
        ensures
            final(self).after(*old(self), id),
            out.0 is Ok ==> final(self).registry@.contains_key(id),
            out.0 matches Err(e) ==> e.from_building() && caused(*final(self), e, needs(id)),
            run(*old(self), out.1@, *final(self), out.0),
            steps_for(out.1@, id, cfg),
            clear(*old(self), id, cfg) ==> out.0 is Ok,
            on_plan(
                entered_ids(out.1@),
                plan(old(self).registry@.dom(), id),
                old(self).registry@.dom(),
                final(self).registry@.dom(),
                out.0 is Ok,
            ),
        decreases id.rank(), 1int,
    {
        let (required, Ghost(below)) = self.ensure_required(id);
        proof {
            assert(id.depends_on(id));
            lemma_on_longer_plan(
                entered_ids(below),
                plan_required(old(self).registry@.dom(), id, 0),
                id,
            );
            assert forall|k: int| 0 <= k < below.len() implies built_for(
                #[trigger] below[k],
                id,
                cfg,
            ) by {
                assert(built_for(below[k], id, ServiceConfig::Default));
            }
        }
        match required {
            Ok(()) => {},
            Err(e) => {
                return (Err(e), Ghost(below));
            },
        }
        let broker = match id.network() {
            Some(network) => match network.broker_id() {
                Some(broker) => broker,
                None => {
                    proof {
                        lemma_run_stopped(
                            *old(self),
                            below,
                            *self,
                            Err(EngineError::BrokerUrl(network)),
                        );
                    }
                    return (Err(EngineError::BrokerUrl(network)), Ghost(below));
                },
            },
            None => String::new(),
        };
        match self.name_clash(id) {
            Some(other) => {
                proof {
                    lemma_run_stopped(
                        *old(self),
                        below,
                        *self,
                        Err(EngineError::NameClash(id, other)),
                    );
                }
                return (Err(EngineError::NameClash(id, other)), Ghost(below));
            },
            None => {},
        }
        let ghost before = *self;
        proof {
            if clear(*old(self), id, cfg) {
                lemma_ready_stays(*old(self), before, id, cfg);
            }
        }
        let r = self.assemble(id, cfg, broker.as_str());
        let ghost step = Step { id, cfg, before, after: *self };
        let ghost steps = below + seq![step];
        proof {
            lemma_entered_ids_then(below, seq![step]);
            assert(entered_ids(seq![step]) =~= seq![id]);
            assert(entered_ids(below) + seq![id] =~= entered_ids(below).push(id));
            assert(entered_ids(steps).subrange(0, entered_ids(steps).len() as int)
                =~= entered_ids(steps));
            if r is Ok {
                lemma_built_then(old(self).registry@.dom(), entered_ids(below), seq![id]);
                assert(self.registry@.dom() =~= before.registry@.dom().union(seq![id].to_set())) by {
                    assert(seq![id][0] == id);
                }
            }
            lemma_run_one(step, r);
            lemma_run_then(*old(self), below, before, before, seq![step], *self, r);
            assert forall|k: int| 0 <= k < steps.len() implies built_for(
                #[trigger] steps[k],
                id,
                cfg,
            ) by {
                if k < below.len() {
                    assert(steps[k] == below[k]);
                } else {
                    assert(steps[k] == step);
                }
            }
            assert forall|s: ServiceId| #[trigger] before.registry@.contains_key(s) implies (
            self.registry@.contains_key(s)) by {
                assert(self.registry@.dom().contains(s));
            }
            assert forall|s: ServiceId| #[trigger]
                self.registry@.contains_key(s) && !old(self).registry@.contains_key(
                    s,
                ) implies id.depends_on(s) by {
                assert(self.registry@.dom().contains(s));
            }
            if r is Ok {
                assert(self.registry@.dom().contains(id));
                lemma_hooks_left_step(old(self).hooks@, before.registry@.dom(), id);
            }
        }
        (r, Ghost(steps))
    }

    /// Builds every installed service, after the services it depends on.
    /// A service that was not installed is built by default where an
    /// installed service requires it, and is left out where it is only
    /// optional. Services that depend on each other in a circle are not
    /// built at all.
    ///
    /// The engine gets from its old state to its new one by a run of steps,
    /// each of which enters one service, and stops at the first service
    /// that cannot be entered: because it would carry the name of a service
    /// that is built, because the broker of its network has no host, or
    /// because its constructor failed. Where none of this can happen, all is
    /// built.
    pub fn materialise(&mut self) -> (r: Result<(), EngineError>)
        requires
            old(self).wf(),
        ensures
            final(self).wf(),
            final(self).config == old(self).config,
            final(self).graph == old(self).graph,
            final(self).local_conf.grown_from(old(self).local_conf),
            forall|s: ServiceId| #[trigger]
                old(self).registry@.contains_key(s) ==> final(self).registry@.contains_key(s),
            forall|s: ServiceId| #[trigger]
                final(self).registry@.contains_key(s) && !old(self).registry@.contains_key(s)
                    ==> exists|root: ServiceId| #[trigger]
                    old(self).constructors@.contains_key(root) && root.depends_on(s),
            r is Ok ==> forall|s: ServiceId| #[trigger]
                old(self).constructors@.contains_key(s) ==> final(self).registry@.contains_key(s),
            final(self).hooks@ == hooks_left(old(self).hooks@, final(self).registry@.dom()),
            match r {
                Ok(()) => acyclic(old(self).graph@),
                Err(EngineError::Cycle(walk)) => is_cycle(old(self).graph@, walk@) && *final(self)
                    == *old(self),
                Err(e) => acyclic(old(self).graph@) && e.from_building() && caused(
                    *final(self),
                    e,
                    wanted(old(self).constructors@),
                ),
            },
            materialised(*old(self), *final(self), r),
            acyclic(old(self).graph@) && all_clear(*old(self)) ==> r is Ok,
            forall|s: ServiceId| #[trigger]
                final(self).constructors@.contains_key(s) ==> held(final(self).constructors@, s)
                    == held(old(self).constructors@, s),
    {
        let ghost mut steps: Seq<Step> = Seq::empty();
        let ghost installed = self.constructors@.dom();
        let ghost start = self.registry@.dom();
        let ghost whole = plan_all(start, installed, build_order(self.graph@), 0);
        proof {
            lemma_hooks_left_all(self.hooks@, self.registry@.dom());
            assert(entered_ids(steps).is_prefix_of(whole));
        }
        let order = match self.graph.topological_order() {
            Ok(order) => order,
            Err(GraphError::Cycle(walk)) => {
                proof {
                    assert(run(*old(self), steps, *self, Err(EngineError::Cycle(walk)))
                        && steps_of(steps, old(self).constructors@) && on_plan(
                        entered_ids(steps),
                        whole,
                        start,
                        self.registry@.dom(),
                        false,
                    ));
                }
                return Err(EngineError::Cycle(walk));
            },
        };
        let mut i: usize = 0;
        proof {
            assert(entered_ids(steps) + whole =~= whole);
            assert(start =~= start.union(entered_ids(steps).to_set()));
        }
        while i < order.len()
            invariant
                i <= order@.len(),
                installed == old(self).constructors@.dom(),
                start == old(self).registry@.dom(),
                order@ == build_order(old(self).graph@),
                whole == plan_all(start, installed, order@, 0),
                entered_ids(steps) + plan_all(self.registry@.dom(), installed, order@, i as int)
                    == whole,
                self.registry@.dom() == start.union(entered_ids(steps).to_set()),
                forall|j: int|
                    i <= j < order@.len() ==> (self.constructors@.contains_key(
                        #[trigger] order@[j],
                    ) <==> old(self).constructors@.contains_key(order@[j])),
                is_topological(old(self).graph@, order@),
                acyclic(old(self).graph@),
                self.wf(),
                self.config == old(self).config,
                self.graph == old(self).graph,
                self.local_conf.grown_from(old(self).local_conf),
                forall|s: ServiceId| #[trigger]
                    old(self).registry@.contains_key(s) ==> self.registry@.contains_key(s),
                forall|s: ServiceId| #[trigger]
                    self.registry@.contains_key(s) && !old(self).registry@.contains_key(s)
                        ==> exists|root: ServiceId| #[trigger]
                        old(self).constructors@.contains_key(root) && root.depends_on(s),
                forall|s: ServiceId| #[trigger]
                    old(self).constructors@.contains_key(s) ==> self.registry@.contains_key(s)
                        || self.constructors@.contains_key(s),
                forall|s: ServiceId| #[trigger]
                    self.constructors@.contains_key(s) ==> old(self).constructors@.contains_key(s),
                forall|j: int|
                    0 <= j < i && old(self).constructors@.contains_key(#[trigger] order@[j])
                        ==> self.registry@.contains_key(order@[j]),
                self.hooks@ == hooks_left(old(self).hooks@, self.registry@.dom()),
                forall|s: ServiceId| #[trigger]
                    self.constructors@.contains_key(s) ==> self.constructors@[s] == old(
                        self,
                    ).constructors@[s],
                run(*old(self), steps, *self, Ok(())),
                steps_of(steps, old(self).constructors@),
            decreases order@.len() - i,
        {
            let id = order[i];
            let ghost done = entered_ids(steps);
            let ghost built = self.registry@.dom();
            proof {
                assert forall|j: int| i < j < order@.len() implies order@[j] != id by {}
            }
            if !self.registry.contains(id) {
                let ghost before_take = *self;
                match self.constructors.take(id) {
                    Some(cfg) => {
                        let ghost before = *self;
                        assert(before.wf());
                        proof {
                            assert(installed.contains(id));
                            assert(old(self).constructors@.contains_key(id));
                            assert(old(self).constructors@[id] == cfg);
                            if all_clear(*old(self)) {
                                assert forall|s: ServiceId| #[trigger]
                                    before.registry@.contains_key(s) && !old(
                                        self,
                                    ).registry@.contains_key(s) implies wanted(
                                    old(self).constructors@,
                                ).contains(s) by {}
                                lemma_all_clear_down(*old(self), before, id, cfg);
                            }
                        }
                        let (r, Ghost(more)) = self.construct(id, cfg);
                        proof {
                            lemma_run_then(*old(self), steps, before_take, before, more, *self, r);
                            let all = steps + more;
                            let first = plan(built, id);
                            let rest = plan_all(
                                built.union(first.to_set()),
                                installed,
                                order@,
                                i + 1,
                            );
                            assert(plan_all(built, installed, order@, i as int) == first + rest);
                            lemma_entered_ids_then(steps, more);
                            lemma_on_plan_then(
                                done,
                                entered_ids(more),
                                first,
                                rest,
                                whole,
                                start,
                                built,
                                self.registry@.dom(),
                                r is Ok,
                            );
                            assert forall|k: int| 0 <= k < all.len() implies exists|
                                root: ServiceId,
                            |
                                old(self).constructors@.contains_key(root) && built_for(
                                    #[trigger] all[k],
                                    root,
                                    old(self).constructors@[root],
                                ) by {
                                if k < steps.len() {
                                    assert(all[k] == steps[k]);
                                } else {
                                    assert(all[k] == more[k - steps.len()]);
                                    assert(built_for(more[k - steps.len()], id, cfg));
                                }
                            }
                            steps = all;
                            if r is Err {
                                assert(needs(id).subset_of(wanted(old(self).constructors@))) by {
                                    assert forall|s: ServiceId| needs(id).contains(
                                        s,
                                    ) implies wanted(old(self).constructors@).contains(s) by {
                                        assert(old(self).constructors@.contains_key(id)
                                            && id.depends_on(s));
                                    }
                                }
                                lemma_caused_among(
                                    *self,
                                    r->Err_0,
                                    needs(id),
                                    wanted(old(self).constructors@),
                                );
                                assert(run(*old(self), steps, *self, r) && steps_of(
                                    steps,
                                    old(self).constructors@,
                                ) && on_plan(
                                    entered_ids(steps),
                                    whole,
                                    start,
                                    self.registry@.dom(),
                                    false,
                                ));
                            }
                            assert forall|s: ServiceId| #[trigger]
                                self.registry@.contains_key(s) && !old(self).registry@.contains_key(s) implies exists|root: ServiceId|
                                #[trigger] old(self).constructors@.contains_key(root)
                                    && root.depends_on(s) by {
                                if !before.registry@.contains_key(s) {
                                    assert(old(self).constructors@.contains_key(id)
                                        && id.depends_on(s));
                                }
                            }
                            assert(before.registry@.dom().subset_of(self.registry@.dom())) by {
                                assert forall|s: ServiceId|
                                    before.registry@.dom().contains(
                                        s,
                                    ) implies self.registry@.dom().contains(s) by {
                                    assert(before.registry@.contains_key(s));
                                }
                            }
                            lemma_hooks_left_twice(
                                old(self).hooks@,
                                before.registry@.dom(),
                                self.registry@.dom(),
                            );
                        }
                        match r {
                            Ok(()) => {},
                            Err(e) => {
                                return Err(e);
                            },
                        }
                    },
                    None => {
                        proof {
                            assert(!installed.contains(id));
                            assert(plan_all(built, installed, order@, i as int) == plan_all(
                                built,
                                installed,
                                order@,
                                i + 1,
                            ));
                        }
                    },
                }
            } else {
                proof {
                    assert(plan_all(built, installed, order@, i as int) == plan_all(
                        built,
                        installed,
                        order@,
                        i + 1,
                    ));
                }
            }
            i += 1;
        }
        proof {
            assert forall|s: ServiceId| #[trigger]
                old(self).constructors@.contains_key(s) implies self.registry@.contains_key(s) by {
                lemma_reachable_root(old(self).graph@, s);
                let j = choose|j: int| 0 <= j < order@.len() && order@[j] == s;
                assert(old(self).constructors@.contains_key(order@[j]));
            }
            assert(entered_ids(steps) + plan_all(self.registry@.dom(), installed, order@, i as int)
                =~= entered_ids(steps));
            assert(whole.subrange(0, whole.len() as int) =~= whole);
            assert(run(*old(self), steps, *self, Ok(())) && steps_of(
                steps,
                old(self).constructors@,
            ) && on_plan(entered_ids(steps), whole, start, self.registry@.dom(), true));
        }
        Ok(())
    }
}

} // verus!
