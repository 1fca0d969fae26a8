//! What follows for the services held from the way the engine builds them.

use vstd::prelude::*;

use crate::config::{lemma_grown_twice, lemma_secret_in_env, spec_env_text, spec_minted};
use crate::graph::build_order;
use crate::identity::{BlazeSite, DepKind, Network, ServiceId};
use crate::modules::ccp::CcpDefault;
use crate::ordered_map::{lemma_put, lookup};
use crate::registry::{held, lemma_restored};
use crate::secret::{spec_canonical_name, spec_mint, spec_placeholder};
use crate::services::{
    all_clear, built_for, entered, entered_ids, entered_with, follows, given_slots,
    lemma_entered_keeps, materialised, on_plan, plan_all, ready, run, spec_broker_id,
    spec_dependency_ids, step_problem, steps_of, sure_to_build, EngineError, ServiceMap, Step,
};
use crate::services::beam::{spec_app_key_name, BeamProxy, SECRET_LEN};
use crate::services::blaze::Blaze;
use crate::services::catalog::{hooks_applied, hooks_for, PostInstall, ServiceConfig, ServiceValue};
use crate::services::construct::{made, same_services, BuildError};
use crate::services::directory_sync::DirectorySync;
use crate::services::obds2fhir::{Obds2FhirError, Obds2FhirProvider};
use crate::services::output::proxy_of;
use crate::services::traefik::AuthError;

verus! {

/// After a service was entered, the registry holds each service that it
/// declares as the constructor left it.
pub proof fn lemma_entered_slot(
    before: ServiceMap,
    after: ServiceMap,
    id: ServiceId,
    cfg: ServiceConfig,
    problem: Option<BuildError>,
    slots: Seq<Option<ServiceValue>>,
    built: Result<ServiceValue, BuildError>,
    value: ServiceValue,
    i: int,
)
    requires
        entered_with(before, after, id, cfg, problem, slots, built, value),
        0 <= i < id.spec_dependencies().len(),
    ensures
        held(after.registry@, id.spec_dependencies()[i].id) == slots[i],
{
    let ids = spec_dependency_ids(id);
    let given = given_slots(before.registry@, id);
    id.lemma_dependencies();
    assert forall|a: int, b: int| 0 <= a < ids.len() && 0 <= b < ids.len() && a != b implies ids[a]
        != ids[b] by {
        if a < b {
            assert(id.spec_dependencies()[a].id != id.spec_dependencies()[b].id);
        } else {
            assert(id.spec_dependencies()[b].id != id.spec_dependencies()[a].id);
        }
    }
    lemma_restored(before.registry@, ids, given, slots, ids[i]);
    assert(given[i] == held(before.registry@, ids[i]));
    assert((slots[i] is Some) == (given[i] is Some));
    assert(ids[i] != id);
}

/// After a service was entered, the registry holds every service but the
/// new one and those it declares as it held them.
pub proof fn lemma_entered_other(
    before: ServiceMap,
    after: ServiceMap,
    id: ServiceId,
    cfg: ServiceConfig,
    problem: Option<BuildError>,
    other: ServiceId,
)
    requires
        entered(before, after, id, cfg, problem),
        other != id,
        forall|i: int|
            0 <= i < id.spec_dependencies().len() ==> (#[trigger] id.spec_dependencies()[i]).id
                != other,
    ensures
        held(after.registry@, other) == held(before.registry@, other),
{
    reveal(entered);
    let (slots, built, value) = choose|
        slots: Seq<Option<ServiceValue>>,
        built: Result<ServiceValue, BuildError>,
        value: ServiceValue,
    | #[trigger] entered_with(before, after, id, cfg, problem, slots, built, value);
    let ids = spec_dependency_ids(id);
    let given = given_slots(before.registry@, id);
    id.lemma_dependencies();
    assert forall|a: int, b: int| 0 <= a < ids.len() && 0 <= b < ids.len() && a != b implies ids[a]
        != ids[b] by {
        if a < b {
            assert(id.spec_dependencies()[a].id != id.spec_dependencies()[b].id);
        } else {
            assert(id.spec_dependencies()[b].id != id.spec_dependencies()[a].id);
        }
    }
    assert forall|j: int| 0 <= j < ids.len() implies ids[j] != other by {
        assert(id.spec_dependencies()[j].id != other);
    }
    lemma_restored(before.registry@, ids, given, slots, other);
}

/// A constructor fails only where it was not sure to succeed: the store
/// of a site for want of the user that guards it, the converter from oBDS
/// for want of a setting, which the error names, or of its user. The local
/// store is then left as it was.
pub proof fn lemma_failure_cause(
    before: ServiceMap,
    after: ServiceMap,
    id: ServiceId,
    cfg: ServiceConfig,
    e: BuildError,
)
    requires
        entered(before, after, id, cfg, Some(e)),
    ensures
        !sure_to_build(before.local_conf, id, cfg),
        !after.registry@.contains_key(id),
        after.local_conf == before.local_conf,
        match id {
            ServiceId::Blaze(site) => {
                &&& e == BuildError::Auth(AuthError::Hash)
                &&& site.spec_treafik_exposure() matches Some((_, user))
                &&& lookup(before.local_conf.users(), user) is None
            },
            ServiceId::Obds2Fhir => {
                &&& cfg matches ServiceConfig::Obds2Fhir(conf)
                &&& match conf.first_missing() {
                    Some(setting) => e == BuildError::Obds2Fhir(Obds2FhirError::Missing(setting)),
                    None => {
                        &&& e == BuildError::Obds2Fhir(Obds2FhirError::Auth(AuthError::Hash))
                        &&& lookup(
                            before.local_conf.users(),
                            CcpDefault::spec_prefix() + "-obds2fhir-auth"@,
                        ) is None
                    },
                }
            },
            _ => false,
        },
{
    reveal(entered);
    lemma_entered_keeps(before, after, id, cfg, Some(e), id);
}

/// What stands under a service that was entered: what its constructor
/// made from `cfg` and from the services the registry held for it, after the
/// hooks that waited for the service ran on it, first come first.
pub proof fn lemma_entered_value(
    before: ServiceMap,
    after: ServiceMap,
    id: ServiceId,
    cfg: ServiceConfig,
)
    requires
        entered(before, after, id, cfg, None),
    ensures
        after.registry@.contains_key(id),
        exists|slots: Seq<Option<ServiceValue>>, raw: ServiceValue|
            #![trigger
                hooks_applied(raw, after.registry@[id], hooks_for(before.hooks@, id)),
                same_services(given_slots(before.registry@, id), slots)]
            {
                &&& made(
                    id,
                    cfg,
                    given_slots(before.registry@, id),
                    slots,
                    before.config,
                    before.local_conf,
                    after.local_conf,
                    before.oidc,
                    after.oidc,
                    spec_broker_id(id),
                    Ok(raw),
                )
                &&& same_services(given_slots(before.registry@, id), slots)
                &&& hooks_applied(raw, after.registry@[id], hooks_for(before.hooks@, id))
            },
{
    reveal(entered);
    let (slots, built, value) = choose|
        slots: Seq<Option<ServiceValue>>,
        built: Result<ServiceValue, BuildError>,
        value: ServiceValue,
    | #[trigger] entered_with(before, after, id, cfg, None, slots, built, value);
    let raw = built->Ok_0;
    assert(after.registry@[id] == value);
    assert(same_services(given_slots(before.registry@, id), slots) && hooks_applied(
        raw,
        after.registry@[id],
        hooks_for(before.hooks@, id),
    ));
}

/// Hooks leave every service but a focus and a connector as it is.
pub proof fn lemma_hooks_idle(before: ServiceValue, after: ServiceValue, hooks: Seq<PostInstall>)
    requires
        hooks_applied(before, after, hooks),
        !(before is Focus),
        !(before is BeamConnect),
    ensures
        after == before,
    decreases hooks.len(),
{
    if hooks.len() > 0 {
        let mid = choose|mid: ServiceValue|
            hooks_applied(before, mid, hooks.drop_last()) && ServiceValue::applied(
                mid,
                after,
                hooks.last(),
            );
        lemma_hooks_idle(before, mid, hooks.drop_last());
    }
}

/// The synchronisation with the directory that was entered is built from
/// its settings and for the store of its site as the registry holds it: it
/// carries the address of that store.
pub proof fn lemma_directory_sync_stored(
    before: ServiceMap,
    after: ServiceMap,
    site: BlazeSite,
    cfg: ServiceConfig,
)
    requires
        entered(before, after, ServiceId::DirectorySync(site), cfg, None),
    ensures
        cfg matches ServiceConfig::DirectorySync(conf) && held(
            before.registry@,
            ServiceId::Blaze(site),
        ) matches Some(ServiceValue::Blaze(blaze)) && held(
            after.registry@,
            ServiceId::DirectorySync(site),
        ) matches Some(ServiceValue::DirectorySync(sync)) && DirectorySync::built(conf, blaze, sync)
            && sync.blaze_url@ == Blaze::spec_url(site),
{
    let id = ServiceId::DirectorySync(site);
    reveal(entered);
    let (slots, built, value) = choose|
        slots: Seq<Option<ServiceValue>>,
        built: Result<ServiceValue, BuildError>,
        value: ServiceValue,
    | #[trigger] entered_with(before, after, id, cfg, None, slots, built, value);
    id.lemma_dependencies();
    let given = given_slots(before.registry@, id);
    assert(given[0] == held(before.registry@, ServiceId::Blaze(site)));
    assert(before.registry@.contains_key(ServiceId::Blaze(site)));
    lemma_hooks_idle(built->Ok_0, value, hooks_for(before.hooks@, id));
}

/// A focus that was entered has registered with the beam proxy of its own
/// network, which the registry holds: the proxy knows the app, the local
/// store holds the key that was minted under the name of that proxy, and the
/// other proxies are as they were.
pub proof fn lemma_focus_registered(
    before: ServiceMap,
    after: ServiceMap,
    network: Network,
    site: BlazeSite,
    cfg: ServiceConfig,
)
    requires
        entered(before, after, ServiceId::Focus(network, site), cfg, None),
    ensures
        held(before.registry@, ServiceId::BeamProxy(network)) matches Some(
            ServiceValue::BeamProxy(proxy_before),
        ) && held(after.registry@, ServiceId::BeamProxy(network)) matches Some(
            ServiceValue::BeamProxy(proxy_after),
        ) && BeamProxy::registered(
            proxy_before,
            proxy_after,
            "focus"@,
            spec_placeholder(
                spec_canonical_name(
                    BeamProxy::spec_service_name(network),
                    spec_app_key_name("focus"@),
                ),
            ),
        ),
        after.local_conf.secrets() == spec_minted(
            before.local_conf.secrets(),
            before.local_conf.seed,
            BeamProxy::spec_service_name(network),
            spec_app_key_name("focus"@),
            SECRET_LEN,
        ),
        forall|other: Network|
            other != network ==> held(after.registry@, #[trigger] proxy_of(other)) == held(
                before.registry@,
                proxy_of(other),
            ),
{
    let id = ServiceId::Focus(network, site);
    reveal(entered);
    let (slots, built, value) = choose|
        slots: Seq<Option<ServiceValue>>,
        built: Result<ServiceValue, BuildError>,
        value: ServiceValue,
    | #[trigger] entered_with(before, after, id, cfg, None, slots, built, value);
    id.lemma_dependencies();
    lemma_entered_slot(before, after, id, cfg, None, slots, built, value, 0);
    let given = given_slots(before.registry@, id);
    assert(given[0] == held(before.registry@, ServiceId::BeamProxy(network)));
    assert(before.registry@.contains_key(ServiceId::BeamProxy(network)));
    assert forall|other: Network| other != network implies held(
        after.registry@,
        #[trigger] proxy_of(other),
    ) == held(before.registry@, proxy_of(other)) by {
        lemma_entered_other(before, after, id, cfg, None, proxy_of(other));
    }
}

/// A service is entered only once every service that it requires is
/// built: the constructor finds each of them in its slot.
pub proof fn lemma_required_first(
    before: ServiceMap,
    after: ServiceMap,
    id: ServiceId,
    cfg: ServiceConfig,
    problem: Option<BuildError>,
    i: int,
)
    requires
        entered(before, after, id, cfg, problem),
        0 <= i < id.spec_dependencies().len(),
        id.spec_dependencies()[i].kind == DepKind::Required,
    ensures
        before.registry@.contains_key(id.spec_dependencies()[i].id),
{
    reveal(entered);
    let (slots, built, value) = choose|
        slots: Seq<Option<ServiceValue>>,
        built: Result<ServiceValue, BuildError>,
        value: ServiceValue,
    | #[trigger] entered_with(before, after, id, cfg, problem, slots, built, value);
}

/// With a service that is built, everything that it cannot be built
/// without is built.
pub proof fn lemma_built_below(state: ServiceMap, top: ServiceId, s: ServiceId)
    requires
        state.wf(),
        state.registry@.contains_key(top),
        top.depends_on(s),
    ensures
        state.registry@.contains_key(s),
    decreases top.rank(),
{
    if top != s {
        let i = choose|i: int|
            0 <= i < top.spec_dependencies().len() && (#[trigger] top.spec_dependencies()[i]).kind
                == DepKind::Required && top.spec_dependencies()[i].id.rank() < top.rank()
                && top.spec_dependencies()[i].id.depends_on(s);
        state.lemma_required_built(top, i);
        lemma_built_below(state, top.spec_dependencies()[i].id, s);
    }
}

/// Where every installed service is built, `materialise` finds nothing
/// to do: a second run leaves the services, the hooks, the local store and
/// the OIDC clients as the first one left them.
pub proof fn lemma_settled(before: ServiceMap, after: ServiceMap, r: Result<(), EngineError>)
    requires
        before.wf(),
        forall|s: ServiceId| #[trigger]
            before.constructors@.contains_key(s) ==> before.registry@.contains_key(s),
        materialised(before, after, r),
    ensures
        follows(before, after),
{
    let steps = choose|steps: Seq<Step>| #[trigger]
        run(before, steps, after, r) && steps_of(steps, before.constructors@);
    if steps.len() > 0 {
        let step = steps[0];
        let root = choose|root: ServiceId|
            before.constructors@.contains_key(root) && built_for(
                step,
                root,
                before.constructors@[root],
            );
        lemma_built_below(before, root, step.id);
        assert(follows(before, step.before));
        assert(entered(step.before, step.after, step.id, step.cfg, step_problem(steps, 0, r)));
        reveal(entered);
    }
}

/// Whatever a step of a run left in the local store is there at the end
/// of the run: the store only grows.
pub proof fn lemma_run_grows(
    start: ServiceMap,
    steps: Seq<Step>,
    end: ServiceMap,
    r: Result<(), EngineError>,
    k: int,
)
    requires
        run(start, steps, end, r),
        0 <= k < steps.len(),
    ensures
        end.local_conf.grown_from(steps[k].after.local_conf),
    decreases steps.len() - k,
{
    reveal(entered);
    assert(entered(
        steps[k].before,
        steps[k].after,
        steps[k].id,
        steps[k].cfg,
        step_problem(steps, k, r),
    ));
    if k + 1 < steps.len() {
        let next = steps[k + 1];
        lemma_run_grows(start, steps, end, r, k + 1);
        assert(entered(next.before, next.after, next.id, next.cfg, step_problem(steps, k + 1, r)));
        assert(follows(steps[k].after, next.before));
        lemma_grown_twice(steps[k].after.local_conf, next.after.local_conf, end.local_conf);
    } else {
        assert(steps.last() == steps[k]);
    }
}

/// The local store that a step of a run finds has grown from the one the
/// run began with.
pub proof fn lemma_run_grown(
    start: ServiceMap,
    steps: Seq<Step>,
    end: ServiceMap,
    r: Result<(), EngineError>,
    k: int,
)
    requires
        run(start, steps, end, r),
        0 <= k < steps.len(),
    ensures
        steps[k].before.local_conf.grown_from(start.local_conf),
    decreases k,
{
    reveal(entered);
    assert(entered(
        steps[k].before,
        steps[k].after,
        steps[k].id,
        steps[k].cfg,
        step_problem(steps, k, r),
    ));
    if k == 0 {
        assert(follows(start, steps[0].before));
    } else {
        let last = steps[k - 1];
        lemma_run_grown(start, steps, end, r, k - 1);
        assert(entered(last.before, last.after, last.id, last.cfg, step_problem(steps, k - 1, r)));
        assert(follows(last.after, steps[k].before));
        lemma_grown_twice(start.local_conf, last.before.local_conf, last.after.local_conf);
    }
}

/// Where `materialise` ends in the failure of a constructor, the service
/// is not built, and the error says why its constructor failed. The store of
/// a site fails for want of the user that guards it, which the local store
/// did not hold. The converter from oBDS fails for want of a setting in what
/// it was installed with, which the error names, or for want of its user,
/// which the local store did not hold. No other constructor fails.
pub proof fn lemma_build_failure(
    before: ServiceMap,
    after: ServiceMap,
    id: ServiceId,
    e: BuildError,
)
    requires
        materialised(before, after, Err(EngineError::Build(id, e))),
    ensures
        match id {
            ServiceId::Blaze(site) => {
                &&& e == BuildError::Auth(AuthError::Hash)
                &&& site.spec_treafik_exposure() matches Some((_, user))
                &&& lookup(before.local_conf.users(), user) is None
            },
            ServiceId::Obds2Fhir => {
                &&& held(before.constructors@, id) matches Some(ServiceConfig::Obds2Fhir(conf))
                &&& match conf.first_missing() {
                    Some(setting) => e == BuildError::Obds2Fhir(Obds2FhirError::Missing(setting)),
                    None => {
                        &&& e == BuildError::Obds2Fhir(Obds2FhirError::Auth(AuthError::Hash))
                        &&& lookup(
                            before.local_conf.users(),
                            CcpDefault::spec_prefix() + "-obds2fhir-auth"@,
                        ) is None
                    },
                }
            },
            _ => false,
        },
{
    let r = Err::<(), EngineError>(EngineError::Build(id, e));
    let steps = choose|steps: Seq<Step>| #[trigger]
        run(before, steps, after, r) && steps_of(steps, before.constructors@);
    let k = steps.len() - 1;
    let step = steps[k];
    assert(step == steps.last());
    assert(entered(step.before, step.after, step.id, step.cfg, step_problem(steps, k, r)));
    lemma_failure_cause(step.before, step.after, id, step.cfg, e);
    lemma_run_grown(before, steps, after, r, k);
    let root = choose|root: ServiceId|
        before.constructors@.contains_key(root) && built_for(
            step,
            root,
            before.constructors@[root],
        );
    assert(before.constructors@.contains_key(root) && built_for(
        step,
        root,
        before.constructors@[root],
    ));
}

/// The key that a focus was given in a run stands in the environment
/// file at the end of the run, under the name of the beam proxy of the
/// network of that focus.
pub proof fn lemma_focus_key_kept(
    start: ServiceMap,
    steps: Seq<Step>,
    end: ServiceMap,
    r: Result<(), EngineError>,
    k: int,
    network: Network,
    site: BlazeSite,
)
    requires
        run(start, steps, end, r),
        0 <= k < steps.len(),
        steps[k].id == ServiceId::Focus(network, site),
    ensures
        exists|i: int|
            0 <= i < end.local_conf.env_entries().len() && (
            #[trigger] end.local_conf.env_entries()[i]).0 == spec_canonical_name(
                BeamProxy::spec_service_name(network),
                spec_app_key_name("focus"@),
            ),
{
    let step = steps[k];
    let name = spec_canonical_name(
        BeamProxy::spec_service_name(network),
        spec_app_key_name("focus"@),
    );
    assert(entered(step.before, step.after, step.id, step.cfg, step_problem(steps, k, r)));
    lemma_focus_never_fails(step.before, step.after, network, site, step.cfg, step_problem(steps, k, r));
    lemma_focus_registered(step.before, step.after, network, site, step.cfg);
    assert(step.before.local_conf.wf()) by {
        reveal(entered);
    }
    lemma_put(
        step.before.local_conf.secrets(),
        name,
        spec_mint(step.before.local_conf.seed, name, SECRET_LEN),
        name,
    );
    lemma_run_grows(start, steps, end, r, k);
    assert(lookup(step.after.local_conf.secrets(), name) is Some);
    lemma_secret_in_env(end.local_conf, name);
}

/// The constructor of a focus does not fail.
pub proof fn lemma_focus_never_fails(
    before: ServiceMap,
    after: ServiceMap,
    network: Network,
    site: BlazeSite,
    cfg: ServiceConfig,
    problem: Option<BuildError>,
)
    requires
        entered(before, after, ServiceId::Focus(network, site), cfg, problem),
    ensures
        problem is None,
{
    if problem is Some {
        lemma_failure_cause(before, after, ServiceId::Focus(network, site), cfg, problem->0);
    }
}

/// After the first steps of a run that ended well, the registry holds
/// its services in the order in which it held them, followed by the services
/// that the steps entered, in the order of the steps.
pub proof fn lemma_run_order(start: ServiceMap, steps: Seq<Step>, end: ServiceMap, k: int)
    requires
        run(start, steps, end, Ok(())),
        0 <= k < steps.len(),
    ensures
        steps[k].after.registry.order() == start.registry.order() + entered_ids(steps).subrange(
            0,
            k + 1,
        ),
    decreases k,
{
    let r = Ok::<(), EngineError>(());
    reveal(entered);
    assert(entered(steps[k].before, steps[k].after, steps[k].id, steps[k].cfg, step_problem(steps, k, r)));
    let ids = entered_ids(steps);
    if k == 0 {
        assert(follows(start, steps[0].before));
        assert(start.registry.order().push(steps[0].id) =~= start.registry.order() + ids.subrange(
            0,
            1,
        ));
    } else {
        lemma_run_order(start, steps, end, k - 1);
        assert(follows(steps[k - 1].after, steps[k].before));
        assert((start.registry.order() + ids.subrange(0, k)).push(steps[k].id)
            =~= start.registry.order() + ids.subrange(0, k + 1));
    }
}

/// Where `materialise` ends well, the registry holds its services in the
/// order in which it held them, followed by the services that were built: the
/// installed services in the order of the graph, each after what it requires
/// in the order of its declaration.
pub proof fn lemma_built_in_order(before: ServiceMap, after: ServiceMap)
    requires
        materialised(before, after, Ok(())),
    ensures
        after.registry.order() == before.registry.order() + plan_all(
            before.registry@.dom(),
            before.constructors@.dom(),
            build_order(before.graph@),
            0,
        ),
{
    let r = Ok::<(), EngineError>(());
    let whole = plan_all(
        before.registry@.dom(),
        before.constructors@.dom(),
        build_order(before.graph@),
        0,
    );
    let steps = choose|steps: Seq<Step>| #[trigger]
        run(before, steps, after, r) && steps_of(steps, before.constructors@) && on_plan(
            entered_ids(steps),
            whole,
            before.registry@.dom(),
            after.registry@.dom(),
            true,
        );
    if steps.len() > 0 {
        lemma_run_order(before, steps, after, steps.len() - 1);
        assert(entered_ids(steps).subrange(0, steps.len() as int) =~= entered_ids(steps));
        assert(follows(steps.last().after, after));
    } else {
        assert(follows(before, after));
        assert(before.registry.order() + whole =~= before.registry.order());
    }
}

/// Two steps that enter the same service into engines that hold the same
/// services and, under the same seed, the same secrets leave the same
/// services and the same secrets.
pub proof fn lemma_step_secrets(
    first: Step,
    second: Step,
)
    requires
        entered(first.before, first.after, first.id, first.cfg, None),
        entered(second.before, second.after, second.id, second.cfg, None),
        first.id == second.id,
        first.before.local_conf.seed == second.before.local_conf.seed,
        first.before.local_conf.secrets() == second.before.local_conf.secrets(),
        first.before.registry@.dom() == second.before.registry@.dom(),
    ensures
        first.after.local_conf.seed == second.after.local_conf.seed,
        first.after.local_conf.secrets() == second.after.local_conf.secrets(),
        first.after.registry@.dom() == second.after.registry@.dom(),
{
    let id = first.id;
    assert(first.after.registry@.dom() =~= second.after.registry@.dom()) by {
        assert forall|s: ServiceId|
            first.after.registry@.dom().contains(s) <==> second.after.registry@.dom().contains(
                s,
            ) by {
            lemma_entered_keeps(first.before, first.after, id, first.cfg, None, s);
            lemma_entered_keeps(second.before, second.after, id, second.cfg, None, s);
            assert(first.before.registry@.dom().contains(s)
                == second.before.registry@.dom().contains(s));
        }
    }
    reveal(entered);
    let (slots1, built1, value1) = choose|
        slots: Seq<Option<ServiceValue>>,
        built: Result<ServiceValue, BuildError>,
        value: ServiceValue,
    | #[trigger]
        entered_with(first.before, first.after, id, first.cfg, None, slots, built, value);
    let (slots2, built2, value2) = choose|
        slots: Seq<Option<ServiceValue>>,
        built: Result<ServiceValue, BuildError>,
        value: ServiceValue,
    | #[trigger]
        entered_with(second.before, second.after, id, second.cfg, None, slots, built, value);
    id.lemma_dependencies();
    let given1 = given_slots(first.before.registry@, id);
    let given2 = given_slots(second.before.registry@, id);
    assert forall|i: int| 0 <= i < id.spec_dependencies().len() implies given1[i] == held(
        first.before.registry@,
        id.spec_dependencies()[i].id,
    ) && given2[i] == held(second.before.registry@, id.spec_dependencies()[i].id) && (given1[i]
        is Some) == (given2[i] is Some) by {
        let d = id.spec_dependencies()[i].id;
        assert(first.before.registry@.dom().contains(d) == second.before.registry@.dom().contains(
            d,
        ));
    }
    match id {
        ServiceId::Traefik => {},
        ServiceId::ForwardProxy => {},
        ServiceId::BeamProxy(_) => {},
        ServiceId::BeamConnect(n) => {
            assert(given1[0] == held(first.before.registry@, ServiceId::BeamProxy(n)));
            assert(given2[0] == held(second.before.registry@, ServiceId::BeamProxy(n)));
        },
        ServiceId::Blaze(_) => {},
        ServiceId::Focus(n, _) => {
            assert(given1[0] == held(first.before.registry@, ServiceId::BeamProxy(n)));
            assert(given2[0] == held(second.before.registry@, ServiceId::BeamProxy(n)));
        },
        ServiceId::Postgres(_) => {},
        ServiceId::DataShield => {
            assert(given1[2] == held(first.before.registry@, ServiceId::BeamProxy(Network::Ccp)));
            assert(given2[2] == held(second.before.registry@, ServiceId::BeamProxy(Network::Ccp)));
        },
        ServiceId::Exporter => {
            assert(given1[2] == held(first.before.registry@, ServiceId::DataShield));
            assert(given2[2] == held(second.before.registry@, ServiceId::DataShield));
        },
        ServiceId::DirectorySync(_) => {},
        ServiceId::DnpmNode => {},
        ServiceId::IdManagement => {},
        ServiceId::Obds2Fhir => {},
        ServiceId::Podest2Fhir => {},
        ServiceId::Teiler => {},
        ServiceId::Transfair(_) => {},
    }
}

/// Two engines agree on what the secrets of a run depend on: they hold
/// the same services and, under the same seed, the same secrets.
pub open spec fn same_ground(first: ServiceMap, second: ServiceMap) -> bool {
    &&& first.local_conf.seed == second.local_conf.seed
    &&& first.local_conf.secrets() == second.local_conf.secrets()
    &&& first.registry@.dom() == second.registry@.dom()
}

/// Two runs that end well and enter the same services, from engines that
/// agree, agree after each step.
pub proof fn lemma_runs_agree(
    start1: ServiceMap,
    steps1: Seq<Step>,
    end1: ServiceMap,
    start2: ServiceMap,
    steps2: Seq<Step>,
    end2: ServiceMap,
    k: int,
)
    requires
        run(start1, steps1, end1, Ok(())),
        run(start2, steps2, end2, Ok(())),
        entered_ids(steps1) == entered_ids(steps2),
        same_ground(start1, start2),
        0 <= k < steps1.len(),
    ensures
        same_ground(steps1[k].after, steps2[k].after),
    decreases k,
{
    let r = Ok::<(), EngineError>(());
    assert(steps1.len() == entered_ids(steps1).len());
    assert(steps2.len() == entered_ids(steps2).len());
    assert(steps1[k].id == entered_ids(steps1)[k]);
    assert(steps2[k].id == entered_ids(steps2)[k]);
    assert(entered(
        steps1[k].before,
        steps1[k].after,
        steps1[k].id,
        steps1[k].cfg,
        step_problem(steps1, k, r),
    ));
    assert(entered(
        steps2[k].before,
        steps2[k].after,
        steps2[k].id,
        steps2[k].cfg,
        step_problem(steps2, k, r),
    ));
    if k == 0 {
        assert(follows(start1, steps1[0].before));
        assert(follows(start2, steps2[0].before));
    } else {
        lemma_runs_agree(start1, steps1, end1, start2, steps2, end2, k - 1);
        assert(follows(steps1[k - 1].after, steps1[k].before));
        assert(follows(steps2[k - 1].after, steps2[k].before));
    }
    lemma_step_secrets(steps1[k], steps2[k]);
}

/// Two runs of `materialise` that end well, from engines that agree on
/// what is built, what is installed, the graph, the seed, the secrets and
/// the OIDC entries, leave the same secrets and the same OIDC entries, and so
/// the same environment file, and they build the same services.
pub proof fn lemma_same_env(
    before1: ServiceMap,
    after1: ServiceMap,
    before2: ServiceMap,
    after2: ServiceMap,
)
    requires
        materialised(before1, after1, Ok(())),
        materialised(before2, after2, Ok(())),
        same_ground(before1, before2),
        before1.constructors@.dom() == before2.constructors@.dom(),
        before1.graph@ == before2.graph@,
        before1.local_conf.oidc_entries() == before2.local_conf.oidc_entries(),
    ensures
        same_ground(after1, after2),
        after1.local_conf.env_entries() == after2.local_conf.env_entries(),
        spec_env_text(after1.local_conf.env_entries()) == spec_env_text(
            after2.local_conf.env_entries(),
        ),
{
    let r = Ok::<(), EngineError>(());
    let whole = plan_all(
        before1.registry@.dom(),
        before1.constructors@.dom(),
        build_order(before1.graph@),
        0,
    );
    let steps1 = choose|steps: Seq<Step>| #[trigger]
        run(before1, steps, after1, r) && steps_of(steps, before1.constructors@) && on_plan(
            entered_ids(steps),
            whole,
            before1.registry@.dom(),
            after1.registry@.dom(),
            true,
        );
    let steps2 = choose|steps: Seq<Step>| #[trigger]
        run(before2, steps, after2, r) && steps_of(steps, before2.constructors@) && on_plan(
            entered_ids(steps),
            whole,
            before2.registry@.dom(),
            after2.registry@.dom(),
            true,
        );
    assert(steps1.len() == entered_ids(steps1).len());
    assert(steps2.len() == entered_ids(steps2).len());
    lemma_oidc_kept(before1, steps1, after1);
    lemma_oidc_kept(before2, steps2, after2);
    if steps1.len() > 0 {
        lemma_runs_agree(before1, steps1, after1, before2, steps2, after2, steps1.len() - 1);
        assert(follows(steps1.last().after, after1));
        assert(follows(steps2.last().after, after2));
    } else {
        assert(follows(before1, after1));
        assert(follows(before2, after2));
    }
}

/// A run that ends well leaves the OIDC entries of the local store as
/// they were.
pub proof fn lemma_oidc_kept(start: ServiceMap, steps: Seq<Step>, end: ServiceMap)
    requires
        run(start, steps, end, Ok(())),
    ensures
        end.local_conf.oidc == start.local_conf.oidc,
{
    let r = Ok::<(), EngineError>(());
    if steps.len() > 0 {
        let k = steps.len() - 1;
        lemma_run_grown(start, steps, end, r, k);
        assert(entered(
            steps[k].before,
            steps[k].after,
            steps[k].id,
            steps[k].cfg,
            step_problem(steps, k, r),
        ));
        reveal(entered);
        assert(follows(steps.last().after, end));
    } else {
        assert(follows(start, end));
    }
}

/// A service whose constructor was sure to succeed was entered without a
/// new user: the users of the reverse proxy are as they were.
pub proof fn lemma_users_kept(
    before: ServiceMap,
    after: ServiceMap,
    id: ServiceId,
    cfg: ServiceConfig,
)
    requires
        entered(before, after, id, cfg, None),
        sure_to_build(before.local_conf, id, cfg),
    ensures
        after.local_conf.basic_auth_users == before.local_conf.basic_auth_users,
{
    reveal(entered);
}

/// What was built when a run began is built before each of its steps.
pub proof fn lemma_run_keeps(
    start: ServiceMap,
    steps: Seq<Step>,
    end: ServiceMap,
    r: Result<(), EngineError>,
    k: int,
    s: ServiceId,
)
    requires
        run(start, steps, end, r),
        0 <= k < steps.len(),
        start.registry@.contains_key(s),
    ensures
        steps[k].before.registry@.contains_key(s),
    decreases k,
{
    if k == 0 {
        assert(follows(start, steps[0].before));
    } else {
        lemma_run_keeps(start, steps, end, r, k - 1, s);
        let last = steps[k - 1];
        assert(entered(last.before, last.after, last.id, last.cfg, step_problem(steps, k - 1, r)));
        lemma_entered_keeps(
            last.before,
            last.after,
            last.id,
            last.cfg,
            step_problem(steps, k - 1, r),
            s,
        );
        assert(follows(last.after, steps[k].before));
    }
}

/// Where nothing stands in the way of building what is installed, the
/// steps of a run that ends well add no user.
pub proof fn lemma_run_users(
    start: ServiceMap,
    steps: Seq<Step>,
    end: ServiceMap,
    k: int,
)
    requires
        run(start, steps, end, Ok(())),
        steps_of(steps, start.constructors@),
        all_clear(start),
        0 <= k < steps.len(),
    ensures
        steps[k].after.local_conf.basic_auth_users == start.local_conf.basic_auth_users,
    decreases k,
{
    let r = Ok::<(), EngineError>(());
    let step = steps[k];
    if k == 0 {
        assert(follows(start, step.before));
    } else {
        lemma_run_users(start, steps, end, k - 1);
        assert(follows(steps[k - 1].after, step.before));
    }
    assert(entered(step.before, step.after, step.id, step.cfg, step_problem(steps, k, r)));
    let root = choose|root: ServiceId|
        start.constructors@.contains_key(root) && built_for(
            step,
            root,
            start.constructors@[root],
        );
    if start.registry@.contains_key(step.id) {
        lemma_run_keeps(start, steps, end, r, k, step.id);
        reveal(entered);
    }
    assert(start.constructors@.contains_key(root) && root.depends_on(step.id));
    assert(ready(start, step.id, step.cfg));
    assert(step.before.local_conf.users() == start.local_conf.users());
    lemma_users_kept(step.before, step.after, step.id, step.cfg);
}

/// Where nothing stands in the way of building what is installed, a run
/// of `materialise` that ends well leaves what the local store keeps from
/// one run to the next as it was: the seed, the OIDC entries and the users
/// of the reverse proxy.
pub proof fn lemma_store_kept(before: ServiceMap, after: ServiceMap)
    requires
        materialised(before, after, Ok(())),
        all_clear(before),
    ensures
        after.local_conf.seed == before.local_conf.seed,
        after.local_conf.oidc == before.local_conf.oidc,
        after.local_conf.basic_auth_users == before.local_conf.basic_auth_users,
{
    let r = Ok::<(), EngineError>(());
    let steps = choose|steps: Seq<Step>| #[trigger]
        run(before, steps, after, r) && steps_of(steps, before.constructors@) && on_plan(
            entered_ids(steps),
            plan_all(
                before.registry@.dom(),
                before.constructors@.dom(),
                build_order(before.graph@),
                0,
            ),
            before.registry@.dom(),
            after.registry@.dom(),
            true,
        );
    lemma_oidc_kept(before, steps, after);
    if steps.len() > 0 {
        let k = steps.len() - 1;
        lemma_run_users(before, steps, after, k);
        lemma_run_grown(before, steps, after, r, k);
        assert(entered(
            steps[k].before,
            steps[k].after,
            steps[k].id,
            steps[k].cfg,
            step_problem(steps, k, r),
        ));
        reveal(entered);
        assert(follows(steps.last().after, after));
    } else {
        assert(follows(before, after));
    }
}

/// In a run that went well so far, what a step built is still built
/// before every later step.
pub proof fn lemma_run_holds(
    start: ServiceMap,
    steps: Seq<Step>,
    end: ServiceMap,
    r: Result<(), EngineError>,
    j: int,
    k: int,
)
    requires
        run(start, steps, end, r),
        0 <= j < k < steps.len(),
    ensures
        steps[k].before.registry@.contains_key(steps[j].id),
    decreases k - j,
{
    if j + 1 == k {
        assert(step_problem(steps, j, r) is None);
        lemma_entered_keeps(
            steps[j].before,
            steps[j].after,
            steps[j].id,
            steps[j].cfg,
            None,
            steps[j].id,
        );
        assert(follows(steps[j].after, steps[k].before));
    } else {
        lemma_run_holds(start, steps, end, r, j, k - 1);
        assert(step_problem(steps, k - 1, r) is None);
        lemma_entered_keeps(
            steps[k - 1].before,
            steps[k - 1].after,
            steps[k - 1].id,
            steps[k - 1].cfg,
            None,
            steps[j].id,
        );
        assert(follows(steps[k - 1].after, steps[k].before));
    }
}

/// A run builds no service twice: a service that several others depend
/// on is built by one step, and the later ones are handed what that step
/// made.
pub proof fn lemma_run_once(
    start: ServiceMap,
    steps: Seq<Step>,
    end: ServiceMap,
    r: Result<(), EngineError>,
    j: int,
    k: int,
)
    requires
        run(start, steps, end, r),
        0 <= j < k < steps.len(),
    ensures
        steps[j].id != steps[k].id,
{
    lemma_run_holds(start, steps, end, r, j, k);
    reveal(entered);
}

} // verus!
