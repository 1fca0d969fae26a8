//! The services as the engine holds them: one value type for all families,
//! the configuration a service is installed with, and the hooks that run on a
//! service once it is built.

use vstd::prelude::*;
use vstd::string::*;

use crate::identity::{DepKind, Dependency, ServiceId};
use crate::services::beam::BeamProxy;
use crate::services::beam_connect::{BeamConnect, CentralTarget, LocalTarget};
use crate::services::blaze::Blaze;
use crate::services::datashield::DataShield;
use crate::services::directory_sync::{DirectorySync, DirectorySyncConfig};
use crate::services::dnpm_node::{DnpmNode, DnpmNodeConf};
use crate::services::exporter::Exporter;
use crate::services::focus::Focus;
use crate::services::forward_proxy::ForwardProxy;
use crate::services::id_management::{IdManagement, IdManagementConfig};
use crate::services::obds2fhir::{Obds2Fhir, Obds2FhirConfig};
use crate::services::podest2fhir::{Podest2Fhir, Podest2FhirConfig};
use crate::services::postgres::Postgres;
use crate::services::teiler::{Teiler, TeilerConfig};
use crate::services::traefik::Traefik;
use crate::services::transfair::{Transfair, TransfairConfig};

verus! {

/// What can be written out as a manifest.
pub trait ToCompose {
    spec fn spec_service_name(&self) -> Seq<char>;

    /// The name of the service, after which its manifest is named.
    fn service_name(&self) -> (name: String)
        ensures
            name@ == self.spec_service_name(),
    ;
}

/// A service of any family.
#[derive(Debug)]
pub enum ServiceValue {
    Traefik(Traefik),
    ForwardProxy(ForwardProxy),
    BeamProxy(BeamProxy),
    BeamConnect(BeamConnect),
    Blaze(Blaze),
    Focus(Focus),
    Postgres(Postgres),
    DataShield(DataShield),
    Exporter(Exporter),
    DirectorySync(DirectorySync),
    DnpmNode(DnpmNode),
    IdManagement(IdManagement),
    Obds2Fhir(Obds2Fhir),
    Podest2Fhir(Podest2Fhir),
    Teiler(Teiler),
    Transfair(Transfair),
}

impl ServiceValue {
    /// The identity of the service, as its own fields show it.
    pub open spec fn id(&self) -> ServiceId {
        match self {
            ServiceValue::Traefik(_) => ServiceId::Traefik,
            ServiceValue::ForwardProxy(_) => ServiceId::ForwardProxy,
            ServiceValue::BeamProxy(s) => ServiceId::BeamProxy(s.network),
            ServiceValue::BeamConnect(s) => ServiceId::BeamConnect(s.network),
            ServiceValue::Blaze(s) => ServiceId::Blaze(s.site),
            ServiceValue::Focus(s) => ServiceId::Focus(s.network, s.site),
            ServiceValue::Postgres(s) => ServiceId::Postgres(s.owner),
            ServiceValue::DataShield(_) => ServiceId::DataShield,
            ServiceValue::Exporter(_) => ServiceId::Exporter,
            ServiceValue::DirectorySync(s) => ServiceId::DirectorySync(s.site),
            ServiceValue::DnpmNode(_) => ServiceId::DnpmNode,
            ServiceValue::IdManagement(_) => ServiceId::IdManagement,
            ServiceValue::Obds2Fhir(_) => ServiceId::Obds2Fhir,
            ServiceValue::Podest2Fhir(_) => ServiceId::Podest2Fhir,
            ServiceValue::Teiler(_) => ServiceId::Teiler,
            ServiceValue::Transfair(s) => ServiceId::Transfair(s.site),
        }
    }

    pub fn service_id(&self) -> (id: ServiceId)
        ensures
            id == self.id(),
    {
        match self {
            ServiceValue::Traefik(_) => ServiceId::Traefik,
            ServiceValue::ForwardProxy(_) => ServiceId::ForwardProxy,
            ServiceValue::BeamProxy(s) => ServiceId::BeamProxy(s.network),
            ServiceValue::BeamConnect(s) => ServiceId::BeamConnect(s.network),
            ServiceValue::Blaze(s) => ServiceId::Blaze(s.site),
            ServiceValue::Focus(s) => ServiceId::Focus(s.network, s.site),
            ServiceValue::Postgres(s) => ServiceId::Postgres(s.owner),
            ServiceValue::DataShield(_) => ServiceId::DataShield,
            ServiceValue::Exporter(_) => ServiceId::Exporter,
            ServiceValue::DirectorySync(s) => ServiceId::DirectorySync(s.site),
            ServiceValue::DnpmNode(_) => ServiceId::DnpmNode,
            ServiceValue::IdManagement(_) => ServiceId::IdManagement,
            ServiceValue::Obds2Fhir(_) => ServiceId::Obds2Fhir,
            ServiceValue::Podest2Fhir(_) => ServiceId::Podest2Fhir,
            ServiceValue::Teiler(_) => ServiceId::Teiler,
            ServiceValue::Transfair(s) => ServiceId::Transfair(s.site),
        }
    }

    /// How a service stands after `hook` ran on it.
    pub open spec fn applied(before: ServiceValue, after: ServiceValue, hook: PostInstall) -> bool {
        match (before, hook) {
            (ServiceValue::Focus(f), PostInstall::FocusTag(tag)) => after == ServiceValue::Focus(
                Focus { tag, ..f },
            ),
            (ServiceValue::BeamConnect(c), PostInstall::CentralTarget(t)) => {
                &&& after matches ServiceValue::BeamConnect(d)
                &&& d == (BeamConnect { central_targets: d.central_targets, ..c })
                &&& d.central_targets@ == c.central_targets@.push(t)
            },
            (ServiceValue::BeamConnect(c), PostInstall::LocalTarget(t)) => {
                &&& after matches ServiceValue::BeamConnect(d)
                &&& d == (BeamConnect { local_targets: d.local_targets, ..c })
                &&& d.local_targets@ == c.local_targets@.push(t)
            },
            (ServiceValue::BeamConnect(c), PostInstall::NoProxy(host)) => {
                &&& after matches ServiceValue::BeamConnect(d)
                &&& d == (BeamConnect { no_proxy: d.no_proxy, ..c })
                &&& d.no_proxy@ == c.no_proxy@.push(host)
            },
            _ => after == before,
        }
    }

    /// Runs `hook` on the service. A hook that is not made for the family of
    /// the service does nothing.
    pub fn apply(&mut self, hook: PostInstall)
        ensures
            Self::applied(*old(self), *final(self), hook),
            final(self).id() == old(self).id(),
    {
        match self {
            ServiceValue::Focus(f) => {
                match hook {
                    PostInstall::FocusTag(tag) => {
                        f.set_tag(tag);
                    },
                    _ => {},
                }
            },
            ServiceValue::BeamConnect(c) => {
                match hook {
                    PostInstall::CentralTarget(t) => {
                        c.add_central_target(t);
                    },
                    PostInstall::LocalTarget(t) => {
                        c.add_local_target(t);
                    },
                    PostInstall::NoProxy(host) => {
                        c.add_no_proxy(host);
                    },
                    _ => {},
                }
            },
            _ => {},
        }
    }
}

impl ToCompose for ServiceValue {
    open spec fn spec_service_name(&self) -> Seq<char> {
        self.id().spec_service_name()
    }

    fn service_name(&self) -> (name: String) {
        self.service_id().service_name()
    }
}

/// What a service is installed with.
#[derive(Debug)]
pub enum ServiceConfig {
    /// Nothing but the configuration of the site.
    Default,
    DirectorySync(DirectorySyncConfig),
    DnpmNode(DnpmNodeConf),
    IdManagement(IdManagementConfig),
    Obds2Fhir(Obds2FhirConfig),
    Podest2Fhir(Podest2FhirConfig, String),
    Teiler(TeilerConfig),
    Transfair(TransfairConfig),
}

impl ServiceConfig {
    /// The configuration is of the kind that the family of `id` is built
    /// from.
    pub open spec fn spec_fits(&self, id: ServiceId) -> bool {
        match self {
            ServiceConfig::Default => id.spec_default_creatable(),
            ServiceConfig::DirectorySync(_) => id is DirectorySync,
            ServiceConfig::DnpmNode(_) => id is DnpmNode,
            ServiceConfig::IdManagement(_) => id is IdManagement,
            ServiceConfig::Obds2Fhir(_) => id is Obds2Fhir,
            ServiceConfig::Podest2Fhir(_, _) => id is Podest2Fhir,
            ServiceConfig::Teiler(_) => id is Teiler,
            ServiceConfig::Transfair(_) => id is Transfair,
        }
    }

    pub fn fits(&self, id: ServiceId) -> (b: bool)
        ensures
            b == self.spec_fits(id),
    {
        match self {
            ServiceConfig::Default => id.default_creatable(),
            ServiceConfig::DirectorySync(_) => matches!(id, ServiceId::DirectorySync(_)),
            ServiceConfig::DnpmNode(_) => matches!(id, ServiceId::DnpmNode),
            ServiceConfig::IdManagement(_) => matches!(id, ServiceId::IdManagement),
            ServiceConfig::Obds2Fhir(_) => matches!(id, ServiceId::Obds2Fhir),
            ServiceConfig::Podest2Fhir(_, _) => matches!(id, ServiceId::Podest2Fhir),
            ServiceConfig::Teiler(_) => matches!(id, ServiceId::Teiler),
            ServiceConfig::Transfair(_) => matches!(id, ServiceId::Transfair(_)),
        }
    }
}

/// What is to be done to a service once it is built.
#[derive(Debug)]
pub enum PostInstall {
    /// Sets the tag of the image of a focus.
    FocusTag(String),
    /// Adds a service of another site to a connector.
    CentralTarget(CentralTarget),
    /// Adds a service of this site to a connector.
    LocalTarget(LocalTarget),
    /// Adds a host that a connector reaches without the proxy.
    NoProxy(String),
}

impl PostInstall {
    /// The hook is made for the family of `id`.
    pub open spec fn spec_fits(&self, id: ServiceId) -> bool {
        match self {
            PostInstall::FocusTag(_) => id is Focus,
            _ => id is BeamConnect,
        }
    }

    pub fn fits(&self, id: ServiceId) -> (b: bool)
        ensures
            b == self.spec_fits(id),
    {
        match self {
            PostInstall::FocusTag(_) => matches!(id, ServiceId::Focus(_, _)),
            _ => matches!(id, ServiceId::BeamConnect(_)),
        }
    }
}

/// The hooks of `hooks` that are registered for `id`, in their order.
pub open spec fn hooks_for(hooks: Seq<(ServiceId, PostInstall)>, id: ServiceId) -> Seq<PostInstall>
    decreases hooks.len(),
{
    if hooks.len() == 0 {
        Seq::empty()
    } else if hooks.last().0 == id {
        hooks_for(hooks.drop_last(), id).push(hooks.last().1)
    } else {
        hooks_for(hooks.drop_last(), id)
    }
}

/// The entries of `hooks` that are registered for another service than `id`,
/// in their order.
pub open spec fn hooks_beside(hooks: Seq<(ServiceId, PostInstall)>, id: ServiceId) -> Seq<
    (ServiceId, PostInstall),
>
    decreases hooks.len(),
{
    if hooks.len() == 0 {
        Seq::empty()
    } else if hooks.last().0 == id {
        hooks_beside(hooks.drop_last(), id)
    } else {
        hooks_beside(hooks.drop_last(), id).push(hooks.last())
    }
}

/// The entries of `hooks` whose service is not among `built`, in their
/// order: the hooks that still wait for their service.
pub open spec fn hooks_left(hooks: Seq<(ServiceId, PostInstall)>, built: Set<ServiceId>) -> Seq<
    (ServiceId, PostInstall),
>
    decreases hooks.len(),
{
    if hooks.len() == 0 {
        Seq::empty()
    } else if built.contains(hooks.last().0) {
        hooks_left(hooks.drop_last(), built)
    } else {
        hooks_left(hooks.drop_last(), built).push(hooks.last())
    }
}

/// Where no hook waits for a service that is built, all hooks are left.
pub proof fn lemma_hooks_left_all(hooks: Seq<(ServiceId, PostInstall)>, built: Set<ServiceId>)
    requires
        forall|i: int| 0 <= i < hooks.len() ==> !built.contains((#[trigger] hooks[i]).0),
    ensures
        hooks_left(hooks, built) == hooks,
    decreases hooks.len(),
{
    if hooks.len() > 0 {
        let front = hooks.drop_last();
        assert forall|i: int| 0 <= i < front.len() implies !built.contains(
            (#[trigger] front[i]).0,
        ) by {
            assert(front[i] == hooks[i]);
        }
        lemma_hooks_left_all(front, built);
        assert(!built.contains(hooks[hooks.len() - 1].0));
        assert(front.push(hooks.last()) == hooks);
    }
}

/// Taking the hooks of one more service off the list leaves the hooks of
/// the services that are not built once that service is.
pub proof fn lemma_hooks_left_step(
    hooks: Seq<(ServiceId, PostInstall)>,
    built: Set<ServiceId>,
    id: ServiceId,
)
    ensures
        hooks_beside(hooks_left(hooks, built), id) == hooks_left(hooks, built.insert(id)),
    decreases hooks.len(),
{
    if hooks.len() > 0 {
        lemma_hooks_left_step(hooks.drop_last(), built, id);
        let front = hooks_left(hooks.drop_last(), built);
        if !built.contains(hooks.last().0) {
            assert(front.push(hooks.last()).drop_last() == front);
        }
    }
}

/// What is left after some services were built, and then more, is what is
/// left after all of them were built.
pub proof fn lemma_hooks_left_twice(
    hooks: Seq<(ServiceId, PostInstall)>,
    first: Set<ServiceId>,
    then: Set<ServiceId>,
)
    requires
        first.subset_of(then),
    ensures
        hooks_left(hooks_left(hooks, first), then) == hooks_left(hooks, then),
    decreases hooks.len(),
{
    if hooks.len() > 0 {
        lemma_hooks_left_twice(hooks.drop_last(), first, then);
        let front = hooks_left(hooks.drop_last(), first);
        if !first.contains(hooks.last().0) {
            assert(front.push(hooks.last()).drop_last() == front);
        }
    }
}

/// `after` is `before` with the hooks run on it one after the other.
pub open spec fn hooks_applied(before: ServiceValue, after: ServiceValue, hooks: Seq<PostInstall>) -> bool
    decreases hooks.len(),
{
    if hooks.len() == 0 {
        after == before
    } else {
        exists|mid: ServiceValue|
            hooks_applied(before, mid, hooks.drop_last()) && ServiceValue::applied(
                mid,
                after,
                hooks.last(),
            )
    }
}

/// One more hook run after others is the longer list of hooks run.
pub proof fn lemma_hooks_applied_more(
    before: ServiceValue,
    mid: ServiceValue,
    after: ServiceValue,
    hooks: Seq<PostInstall>,
    hook: PostInstall,
)
    requires
        hooks_applied(before, mid, hooks),
        ServiceValue::applied(mid, after, hook),
    ensures
        hooks_applied(before, after, hooks.push(hook)),
{
    let longer = hooks.push(hook);
    assert(longer.drop_last() == hooks);
    assert(longer.last() == hook);
    assert(hooks_applied(before, mid, longer.drop_last()) && ServiceValue::applied(
        mid,
        after,
        longer.last(),
    ));
}

/// Runs on `value` the hooks that are registered for its identity, first
/// come first served, and takes them off the list.
pub fn run_hooks(value: ServiceValue, hooks: Vec<(ServiceId, PostInstall)>) -> (r: (
    ServiceValue,
    Vec<(ServiceId, PostInstall)>,
))
    ensures
        hooks_applied(value, r.0, hooks_for(hooks@, value.id())),
        r.0.id() == value.id(),
        r.1@ == hooks_beside(hooks@, value.id()),
        forall|i: int|
            0 <= i < r.1@.len() ==> (#[trigger] r.1@[i]).0 != value.id() && hooks@.contains(
                r.1@[i],
            ),
{
    let ghost id = value.id();
    let mut current = value;
    let mut rest = hooks;
    let mut kept: Vec<(ServiceId, PostInstall)> = Vec::new();
    let mut i: usize = 0;
    let n = rest.len();
    while i < n
        invariant
            n == hooks@.len(),
            i <= n,
            id == value.id(),
            current.id() == id,
            rest@ == hooks@.subrange(i as int, n as int),
            hooks_applied(value, current, hooks_for(hooks@.subrange(0, i as int), id)),
            kept@ == hooks_beside(hooks@.subrange(0, i as int), id),
            forall|j: int|
                0 <= j < kept@.len() ==> (#[trigger] kept@[j]).0 != id && hooks@.contains(kept@[j]),
        decreases n - i,
    {
        let entry = rest.remove(0);
        proof {
            let next = hooks@.subrange(0, i + 1);
            assert(next.drop_last() == hooks@.subrange(0, i as int));
            assert(next.last() == hooks@[i as int]);
            assert(entry == hooks@[i as int]);
        }
        if entry.0 == current.service_id() {
            let ghost mid = current;
            current.apply(entry.1);
            proof {
                let done = hooks_for(hooks@.subrange(0, i as int), id);
                let now = hooks_for(hooks@.subrange(0, i + 1), id);
                assert(now == done.push(entry.1));
                assert(now.drop_last() == done);
                assert(now.last() == entry.1);
                assert(hooks_applied(value, mid, now.drop_last()) && ServiceValue::applied(
                    mid,
                    current,
                    now.last(),
                ));
            }
        } else {
            let ghost before = kept@;
            kept.push(entry);
            proof {
                assert forall|j: int| 0 <= j < kept@.len() implies (#[trigger] kept@[j]).0 != id
                    && hooks@.contains(kept@[j]) by {
                    if j < before.len() {
                        assert(kept@[j] == before[j]);
                    } else {
                        assert(kept@[j] == hooks@[i as int]);
                    }
                }
            }
        }
        i += 1;
    }
    proof {
        assert(hooks@.subrange(0, n as int) == hooks@);
    }
    (current, kept)
}

/// Whether the slots are what a constructor may be given for the
/// declaration `deps`: one slot for each entry, a service of the right
/// identity in every slot that is filled, and every required slot filled.
pub open spec fn slots_match(slots: Seq<Option<ServiceValue>>, deps: Seq<Dependency>) -> bool {
    &&& slots.len() == deps.len()
    &&& forall|i: int|
        0 <= i < deps.len() ==> {
            &&& (#[trigger] deps[i]).kind == DepKind::Required ==> slots[i] is Some
            &&& slots[i] matches Some(v) ==> v.id() == deps[i].id
        }
}

} // verus!
