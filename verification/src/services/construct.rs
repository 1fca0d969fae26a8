//! The constructors of all families behind one function: given the identity
//! of a service, what it is installed with and the services it depends on,
//! build it.

use vstd::pervasive::unreached;
use vstd::prelude::*;
use vstd::string::*;

use crate::config::{Config, LocalConf};
use crate::identity::{BlazeSite, DepKind, Network, ServiceId};
use crate::services::beam::BeamProxy;
use crate::services::beam_connect::BeamConnect;
use crate::services::blaze::Blaze;
use crate::services::catalog::{slots_match, ServiceConfig, ServiceValue};
use crate::services::datashield::DataShield;
use crate::services::directory_sync::DirectorySync;
use crate::services::dnpm_node::DnpmNode;
use crate::services::exporter::Exporter;
use crate::services::focus::Focus;
use crate::services::forward_proxy::ForwardProxy;
use crate::services::id_management::IdManagement;
use crate::services::obds2fhir::{Obds2Fhir, Obds2FhirError};
use crate::services::podest2fhir::Podest2Fhir;
use crate::services::postgres::Postgres;
use crate::services::secret_sync::OidcClients;
use crate::services::teiler::Teiler;
use crate::services::traefik::{AuthError, Traefik};
use crate::services::transfair::Transfair;

verus! {

/// Why a service could not be built.
#[derive(Clone, Copy, Debug, PartialEq, Eq, Structural)]
pub enum BuildError {
    /// A user of the reverse proxy could not be added.
    Auth(AuthError),
    /// The converter from oBDS lacks a setting, or its user.
    Obds2Fhir(Obds2FhirError),
}

/// The slots hold the same services as before, whatever was done to them.
pub open spec fn same_services(
    before: Seq<Option<ServiceValue>>,
    after: Seq<Option<ServiceValue>>,
) -> bool {
    &&& after.len() == before.len()
    &&& forall|i: int|
        0 <= i < before.len() ==> {
            &&& (#[trigger] after[i] is Some) == (before[i] is Some)
            &&& before[i] matches Some(v) ==> after[i]->0.id() == v.id()
        }
}

fn pop_slot(slots: &mut Vec<Option<ServiceValue>>) -> (slot: Option<ServiceValue>)
    requires
        old(slots)@.len() > 0,
    ensures
        slot == old(slots)@.last(),
        final(slots)@ == old(slots)@.drop_last(),
{
    match slots.pop() {
        Some(slot) => slot,
        None => None,
    }
}

/// The DataSHIELD installation in a slot, if the slot holds one.
pub open spec fn datashield_in(slot: Option<ServiceValue>) -> Option<DataShield> {
    match slot {
        Some(ServiceValue::DataShield(ds)) => Some(ds),
        _ => None,
    }
}

/// The beam proxy of `network` was built from the forward proxy in the
/// first slot.
pub open spec fn beam_proxy_made(
    network: Network,
    before: Seq<Option<ServiceValue>>,
    after: Seq<Option<ServiceValue>>,
    conf: Config,
    broker_id: Seq<char>,
    r: Result<ServiceValue, BuildError>,
) -> bool {
    &&& before[0] matches Some(ServiceValue::ForwardProxy(fw))
    &&& after == before
    &&& r matches Ok(ServiceValue::BeamProxy(proxy))
    &&& BeamProxy::built(network, broker_id, conf, fw, proxy)
}

/// The connector was built with the beam proxy in the first slot, which
/// knows it afterwards.
pub open spec fn beam_connect_made(
    before: Seq<Option<ServiceValue>>,
    after: Seq<Option<ServiceValue>>,
    conf: Config,
    local_before: LocalConf,
    local_after: LocalConf,
    r: Result<ServiceValue, BuildError>,
) -> bool {
    &&& before[0] matches Some(ServiceValue::BeamProxy(beam_before))
    &&& after[0] matches Some(ServiceValue::BeamProxy(beam_after))
    &&& r matches Ok(ServiceValue::BeamConnect(connect))
    &&& BeamConnect::built(conf, beam_before, beam_after, local_before, local_after, connect)
}

/// The store of `site` was built with the reverse proxy in the first slot,
/// or could not be built because its user could not be added.
pub open spec fn blaze_made(
    site: BlazeSite,
    before: Seq<Option<ServiceValue>>,
    after: Seq<Option<ServiceValue>>,
    local_before: LocalConf,
    local_after: LocalConf,
    r: Result<ServiceValue, BuildError>,
) -> bool {
    &&& before[0] matches Some(ServiceValue::Traefik(traefik_before))
    &&& after[0] matches Some(ServiceValue::Traefik(traefik_after))
    &&& match r {
        Ok(ServiceValue::Blaze(blaze)) => Blaze::built(
            site,
            traefik_before,
            traefik_after,
            local_before,
            local_after,
            Ok(blaze),
        ),
        Err(BuildError::Auth(e)) => Blaze::built(
            site,
            traefik_before,
            traefik_after,
            local_before,
            local_after,
            Err(e),
        ),
        _ => false,
    }
}

/// The focus was built with the beam proxy in the first slot, which knows
/// it afterwards, for the store in the second.
pub open spec fn focus_made(
    before: Seq<Option<ServiceValue>>,
    after: Seq<Option<ServiceValue>>,
    local_before: LocalConf,
    local_after: LocalConf,
    r: Result<ServiceValue, BuildError>,
) -> bool {
    &&& before[0] matches Some(ServiceValue::BeamProxy(beam_before))
    &&& after[0] matches Some(ServiceValue::BeamProxy(beam_after))
    &&& before[1] matches Some(ServiceValue::Blaze(blaze))
    &&& after[1] == before[1]
    &&& r matches Ok(ServiceValue::Focus(focus))
    &&& Focus::built(beam_before, beam_after, blaze, local_before, local_after, focus)
}

/// The DataSHIELD installation was built from the forward proxy and the
/// database in the first two slots, with the beam proxy and the connector in
/// the last two, which know it afterwards.
pub open spec fn datashield_made(
    before: Seq<Option<ServiceValue>>,
    after: Seq<Option<ServiceValue>>,
    conf: Config,
    local_before: LocalConf,
    local_after: LocalConf,
    oidc_before: OidcClients,
    oidc_after: OidcClients,
    broker_id: Seq<char>,
    r: Result<ServiceValue, BuildError>,
) -> bool {
    &&& before[0] matches Some(ServiceValue::ForwardProxy(fw))
    &&& before[1] matches Some(ServiceValue::Postgres(pg))
    &&& before[2] matches Some(ServiceValue::BeamProxy(beam_before))
    &&& before[3] matches Some(ServiceValue::BeamConnect(connect_before))
    &&& after[0] == before[0]
    &&& after[1] == before[1]
    &&& after[2] matches Some(ServiceValue::BeamProxy(beam_after))
    &&& after[3] matches Some(ServiceValue::BeamConnect(connect_after))
    &&& r matches Ok(ServiceValue::DataShield(ds))
    &&& DataShield::built(
        conf,
        broker_id,
        fw,
        pg,
        beam_before,
        beam_after,
        connect_before,
        connect_after,
        local_before,
        local_after,
        oidc_before,
        oidc_after,
        ds,
    )
}

/// The exporter was built with the focus in the first slot, which hands
/// its results over afterwards, from the database in the second, and with
/// the DataSHIELD installation in the third where there is one.
pub open spec fn exporter_made(
    before: Seq<Option<ServiceValue>>,
    after: Seq<Option<ServiceValue>>,
    conf: Config,
    local_before: LocalConf,
    local_after: LocalConf,
    r: Result<ServiceValue, BuildError>,
) -> bool {
    &&& before[0] matches Some(ServiceValue::Focus(focus_before))
    &&& after[0] matches Some(ServiceValue::Focus(focus_after))
    &&& before[1] matches Some(ServiceValue::Postgres(pg))
    &&& after[1] == before[1]
    &&& (after[2] is Some) == (datashield_in(after[2]) is Some)
    &&& r matches Ok(ServiceValue::Exporter(exporter))
    &&& Exporter::built(
        conf,
        focus_before,
        focus_after,
        pg,
        datashield_in(before[2]),
        datashield_in(after[2]),
        local_before,
        local_after,
        exporter,
    )
}

/// The synchronisation was built from its settings for the store in the
/// first slot.
pub open spec fn directory_sync_made(
    cfg: ServiceConfig,
    before: Seq<Option<ServiceValue>>,
    after: Seq<Option<ServiceValue>>,
    r: Result<ServiceValue, BuildError>,
) -> bool {
    &&& cfg matches ServiceConfig::DirectorySync(conf)
    &&& before[0] matches Some(ServiceValue::Blaze(blaze))
    &&& after == before
    &&& r matches Ok(ServiceValue::DirectorySync(sync))
    &&& DirectorySync::built(conf, blaze, sync)
}

/// The id management was built from its settings, the forward proxy in the
/// second slot and the database in the third.
pub open spec fn id_management_made(
    cfg: ServiceConfig,
    before: Seq<Option<ServiceValue>>,
    after: Seq<Option<ServiceValue>>,
    conf: Config,
    local_before: LocalConf,
    local_after: LocalConf,
    oidc_before: OidcClients,
    oidc_after: OidcClients,
    r: Result<ServiceValue, BuildError>,
) -> bool {
    &&& cfg matches ServiceConfig::IdManagement(idm_conf)
    &&& before[1] matches Some(ServiceValue::ForwardProxy(fw))
    &&& before[2] matches Some(ServiceValue::Postgres(pg))
    &&& after == before
    &&& r matches Ok(ServiceValue::IdManagement(idm))
    &&& IdManagement::built(
        idm_conf,
        conf,
        fw,
        pg,
        local_before,
        local_after,
        oidc_before,
        oidc_after,
        idm,
    )
}

/// The converter from oBDS was built from its settings with the reverse
/// proxy in the first slot, or could not be built for want of a setting or of
/// its user.
pub open spec fn obds2fhir_made(
    cfg: ServiceConfig,
    before: Seq<Option<ServiceValue>>,
    after: Seq<Option<ServiceValue>>,
    conf: Config,
    local_before: LocalConf,
    local_after: LocalConf,
    r: Result<ServiceValue, BuildError>,
) -> bool {
    &&& cfg matches ServiceConfig::Obds2Fhir(obds_conf)
    &&& before[0] matches Some(ServiceValue::Traefik(traefik_before))
    &&& after[0] matches Some(ServiceValue::Traefik(traefik_after))
    &&& match r {
        Ok(ServiceValue::Obds2Fhir(service)) => Obds2Fhir::built(
            obds_conf,
            conf,
            traefik_before,
            traefik_after,
            local_before,
            local_after,
            Ok(service),
        ),
        Err(BuildError::Obds2Fhir(e)) => Obds2Fhir::built(
            obds_conf,
            conf,
            traefik_before,
            traefik_after,
            local_before,
            local_after,
            Err(e),
        ),
        _ => false,
    }
}

/// The converter from Podest was built from its settings for the store in
/// the first slot.
pub open spec fn podest2fhir_made(
    cfg: ServiceConfig,
    before: Seq<Option<ServiceValue>>,
    after: Seq<Option<ServiceValue>>,
    r: Result<ServiceValue, BuildError>,
) -> bool {
    &&& cfg matches ServiceConfig::Podest2Fhir(conf, profile)
    &&& before[0] matches Some(ServiceValue::Blaze(blaze))
    &&& after == before
    &&& r matches Ok(ServiceValue::Podest2Fhir(service))
    &&& Podest2Fhir::built(conf, profile, blaze, service)
}

/// The teiler was built from its settings and the forward proxy in the
/// first slot.
pub open spec fn teiler_made(
    cfg: ServiceConfig,
    before: Seq<Option<ServiceValue>>,
    after: Seq<Option<ServiceValue>>,
    conf: Config,
    local_before: LocalConf,
    local_after: LocalConf,
    oidc_before: OidcClients,
    oidc_after: OidcClients,
    r: Result<ServiceValue, BuildError>,
) -> bool {
    &&& cfg matches ServiceConfig::Teiler(teiler_conf)
    &&& before[0] matches Some(ServiceValue::ForwardProxy(fw))
    &&& after == before
    &&& r matches Ok(ServiceValue::Teiler(teiler))
    &&& Teiler::built(
        teiler_conf,
        conf,
        fw,
        local_before,
        local_after,
        oidc_before,
        oidc_after,
        teiler,
    )
}

/// The exchange was built from its settings for the store in the first
/// slot.
pub open spec fn transfair_made(
    cfg: ServiceConfig,
    before: Seq<Option<ServiceValue>>,
    after: Seq<Option<ServiceValue>>,
    conf: Config,
    r: Result<ServiceValue, BuildError>,
) -> bool {
    &&& cfg matches ServiceConfig::Transfair(transfair_conf)
    &&& before[0] matches Some(ServiceValue::Blaze(blaze))
    &&& after == before
    &&& r matches Ok(ServiceValue::Transfair(service))
    &&& Transfair::built(transfair_conf, conf, blaze, service)
}

/// What `build` makes of a request: the service `id`, built by the
/// constructor of its family from `cfg` and from the services in the slots.
/// What a constructor is not given stays as it is.
pub open spec fn made(
    id: ServiceId,
    cfg: ServiceConfig,
    before: Seq<Option<ServiceValue>>,
    after: Seq<Option<ServiceValue>>,
    conf: Config,
    local_before: LocalConf,
    local_after: LocalConf,
    oidc_before: OidcClients,
    oidc_after: OidcClients,
    broker_id: Seq<char>,
    r: Result<ServiceValue, BuildError>,
) -> bool {
    let same_local = local_after == local_before;
    let same_oidc = oidc_after == oidc_before;
    match id {
        ServiceId::Traefik => {
            &&& after == before
            &&& same_local
            &&& same_oidc
            &&& r matches Ok(ServiceValue::Traefik(traefik))
            &&& Traefik::built(conf, traefik)
        },
        ServiceId::ForwardProxy => {
            &&& after == before
            &&& same_local
            &&& same_oidc
            &&& r matches Ok(ServiceValue::ForwardProxy(proxy))
            &&& ForwardProxy::built(conf, proxy)
        },
        ServiceId::Postgres(owner) => {
            &&& after == before
            &&& same_oidc
            &&& r matches Ok(ServiceValue::Postgres(pg))
            &&& Postgres::built(owner, local_before, local_after, pg)
        },
        ServiceId::DnpmNode => {
            &&& after == before
            &&& same_oidc
            &&& cfg matches ServiceConfig::DnpmNode(node_conf)
            &&& r matches Ok(ServiceValue::DnpmNode(node))
            &&& DnpmNode::built(node_conf, conf, local_before, local_after, node)
        },
        ServiceId::BeamProxy(network) => same_local && same_oidc && beam_proxy_made(
            network,
            before,
            after,
            conf,
            broker_id,
            r,
        ),
        ServiceId::BeamConnect(_) => same_oidc && beam_connect_made(
            before,
            after,
            conf,
            local_before,
            local_after,
            r,
        ),
        ServiceId::Blaze(site) => same_oidc && blaze_made(
            site,
            before,
            after,
            local_before,
            local_after,
            r,
        ),
        ServiceId::Focus(_, _) => same_oidc && focus_made(
            before,
            after,
            local_before,
            local_after,
            r,
        ),
        ServiceId::DataShield => datashield_made(
            before,
            after,
            conf,
            local_before,
            local_after,
            oidc_before,
            oidc_after,
            broker_id,
            r,
        ),
        ServiceId::Exporter => same_oidc && exporter_made(
            before,
            after,
            conf,
            local_before,
            local_after,
            r,
        ),
        ServiceId::DirectorySync(_) => same_local && same_oidc && directory_sync_made(
            cfg,
            before,
            after,
            r,
        ),
        ServiceId::IdManagement => id_management_made(
            cfg,
            before,
            after,
            conf,
            local_before,
            local_after,
            oidc_before,
            oidc_after,
            r,
        ),
        ServiceId::Obds2Fhir => same_oidc && obds2fhir_made(
            cfg,
            before,
            after,
            conf,
            local_before,
            local_after,
            r,
        ),
        ServiceId::Podest2Fhir => same_local && same_oidc && podest2fhir_made(
            cfg,
            before,
            after,
            r,
        ),
        ServiceId::Teiler => teiler_made(
            cfg,
            before,
            after,
            conf,
            local_before,
            local_after,
            oidc_before,
            oidc_after,
            r,
        ),
        ServiceId::Transfair(_) => same_local && same_oidc && transfair_made(
            cfg,
            before,
            after,
            conf,
            r,
        ),
    }
}

fn build_beam_proxy(
    id: ServiceId,
    network: Network,
    slots: &mut Vec<Option<ServiceValue>>,
    conf: &Config,
    broker_id: &str,
) -> (r: Result<ServiceValue, BuildError>)
    requires
        id == ServiceId::BeamProxy(network),
        slots_match(old(slots)@, id.spec_dependencies()),
    ensures
        beam_proxy_made(network, old(slots)@, final(slots)@, *conf, broker_id@, r),
        same_services(old(slots)@, final(slots)@),
        r matches Ok(v) ==> v.id() == id,
{
    proof {
        id.lemma_dependencies();
    }
    let ghost deps = id.spec_dependencies();
    assert(deps[0].kind == DepKind::Required);
    let s0 = pop_slot(slots);
    match s0 {
        Some(ServiceValue::ForwardProxy(fw)) => {
            let proxy = BeamProxy::from_config(network, broker_id, conf, &fw);
            slots.push(Some(ServiceValue::ForwardProxy(fw)));
            assert(slots@ == old(slots)@);
            Ok(ServiceValue::BeamProxy(proxy))
        },
        _ => unreached(),
    }
}

fn build_beam_connect(
    id: ServiceId,
    slots: &mut Vec<Option<ServiceValue>>,
    conf: &Config,
    local: &mut LocalConf,
) -> (r: Result<ServiceValue, BuildError>)
    requires
        id is BeamConnect,
        old(local).wf(),
        slots_match(old(slots)@, id.spec_dependencies()),
    ensures
        beam_connect_made(old(slots)@, final(slots)@, *conf, *old(local), *final(local), r),
        final(local).grown_from(*old(local)),
        same_services(old(slots)@, final(slots)@),
        r matches Ok(v) ==> v.id() == id,
{
    proof {
        id.lemma_dependencies();
    }
    let ghost deps = id.spec_dependencies();
    assert(deps[0].kind == DepKind::Required);
    let s0 = pop_slot(slots);
    match s0 {
        Some(ServiceValue::BeamProxy(beam)) => {
            let mut beam = beam;
            let connect = BeamConnect::from_config(conf, &mut beam, local);
            slots.push(Some(ServiceValue::BeamProxy(beam)));
            Ok(ServiceValue::BeamConnect(connect))
        },
        _ => unreached(),
    }
}

fn build_blaze(
    id: ServiceId,
    site: BlazeSite,
    slots: &mut Vec<Option<ServiceValue>>,
    local: &mut LocalConf,
) -> (r: Result<ServiceValue, BuildError>)
    requires
        id == ServiceId::Blaze(site),
        old(local).wf(),
        slots_match(old(slots)@, id.spec_dependencies()),
    ensures
        blaze_made(site, old(slots)@, final(slots)@, *old(local), *final(local), r),
        final(local).grown_from(*old(local)),
        same_services(old(slots)@, final(slots)@),
        r matches Ok(v) ==> v.id() == id,
{
    proof {
        id.lemma_dependencies();
    }
    let ghost deps = id.spec_dependencies();
    assert(deps[0].kind == DepKind::Required);
    let s0 = pop_slot(slots);
    match s0 {
        Some(ServiceValue::Traefik(traefik)) => {
            let mut traefik = traefik;
            let r = Blaze::from_config(site, &mut traefik, local);
            slots.push(Some(ServiceValue::Traefik(traefik)));
            match r {
                Ok(blaze) => Ok(ServiceValue::Blaze(blaze)),
                Err(e) => Err(BuildError::Auth(e)),
            }
        },
        _ => unreached(),
    }
}

fn build_focus(
    id: ServiceId,
    slots: &mut Vec<Option<ServiceValue>>,
    local: &mut LocalConf,
) -> (r: Result<ServiceValue, BuildError>)
    requires
        id is Focus,
        old(local).wf(),
        slots_match(old(slots)@, id.spec_dependencies()),
    ensures
        focus_made(old(slots)@, final(slots)@, *old(local), *final(local), r),
        final(local).grown_from(*old(local)),
        same_services(old(slots)@, final(slots)@),
        r matches Ok(v) ==> v.id() == id,
{
    proof {
        id.lemma_dependencies();
    }
    let ghost deps = id.spec_dependencies();
    assert(deps[0].kind == DepKind::Required);
    assert(deps[1].kind == DepKind::Required);
    let s1 = pop_slot(slots);
    let s0 = pop_slot(slots);
    match (s0, s1) {
        (Some(ServiceValue::BeamProxy(beam)), Some(ServiceValue::Blaze(blaze))) => {
            let mut beam = beam;
            let focus = Focus::from_config(&mut beam, &blaze, local);
            slots.push(Some(ServiceValue::BeamProxy(beam)));
            slots.push(Some(ServiceValue::Blaze(blaze)));
            Ok(ServiceValue::Focus(focus))
        },
        _ => unreached(),
    }
}

fn build_datashield(
    id: ServiceId,
    slots: &mut Vec<Option<ServiceValue>>,
    conf: &Config,
    local: &mut LocalConf,
    oidc: &mut OidcClients,
    broker_id: &str,
) -> (r: Result<ServiceValue, BuildError>)
    requires
        id is DataShield,
        old(local).wf(),
        slots_match(old(slots)@, id.spec_dependencies()),
    ensures
        datashield_made(
            old(slots)@,
            final(slots)@,
            *conf,
            *old(local),
            *final(local),
            *old(oidc),
            *final(oidc),
            broker_id@,
            r,
        ),
        final(local).grown_from(*old(local)),
        same_services(old(slots)@, final(slots)@),
        r matches Ok(v) ==> v.id() == id,
{
    proof {
        id.lemma_dependencies();
    }
    let ghost deps = id.spec_dependencies();
    assert(deps[0].kind == DepKind::Required);
    assert(deps[1].kind == DepKind::Required);
    assert(deps[2].kind == DepKind::Required);
    assert(deps[3].kind == DepKind::Required);
    let s3 = pop_slot(slots);
    let s2 = pop_slot(slots);
    let s1 = pop_slot(slots);
    let s0 = pop_slot(slots);
    match (s0, s1, s2, s3) {
        (
            Some(ServiceValue::ForwardProxy(fw)),
            Some(ServiceValue::Postgres(pg)),
            Some(ServiceValue::BeamProxy(beam)),
            Some(ServiceValue::BeamConnect(connect)),
        ) => {
            let mut beam = beam;
            let mut connect = connect;
            let ds = DataShield::from_config(
                conf,
                broker_id,
                &fw,
                &pg,
                &mut beam,
                &mut connect,
                local,
                oidc,
            );
            slots.push(Some(ServiceValue::ForwardProxy(fw)));
            slots.push(Some(ServiceValue::Postgres(pg)));
            slots.push(Some(ServiceValue::BeamProxy(beam)));
            slots.push(Some(ServiceValue::BeamConnect(connect)));
            Ok(ServiceValue::DataShield(ds))
        },
        _ => unreached(),
    }
}

fn build_exporter(
    id: ServiceId,
    slots: &mut Vec<Option<ServiceValue>>,
    conf: &Config,
    local: &mut LocalConf,
) -> (r: Result<ServiceValue, BuildError>)
    requires
        id is Exporter,
        old(local).wf(),
        slots_match(old(slots)@, id.spec_dependencies()),
    ensures
        exporter_made(old(slots)@, final(slots)@, *conf, *old(local), *final(local), r),
        final(local).grown_from(*old(local)),
        same_services(old(slots)@, final(slots)@),
        r matches Ok(v) ==> v.id() == id,
{
    proof {
        id.lemma_dependencies();
    }
    let ghost deps = id.spec_dependencies();
    assert(deps[0].kind == DepKind::Required);
    assert(deps[1].kind == DepKind::Required);
    assert(deps[2].kind == DepKind::Optional);
    let s2 = pop_slot(slots);
    let s1 = pop_slot(slots);
    let s0 = pop_slot(slots);
    match (s0, s1) {
        (Some(ServiceValue::Focus(focus)), Some(ServiceValue::Postgres(pg))) => {
            let mut focus = focus;
            let mut ds = match s2 {
                Some(ServiceValue::DataShield(ds)) => Some(ds),
                Some(_) => unreached(),
                None => None,
            };
            let exporter = Exporter::from_config(conf, &mut focus, &pg, &mut ds, local);
            slots.push(Some(ServiceValue::Focus(focus)));
            slots.push(Some(ServiceValue::Postgres(pg)));
            slots.push(
                match ds {
                    Some(ds) => Some(ServiceValue::DataShield(ds)),
                    None => None,
                },
            );
            Ok(ServiceValue::Exporter(exporter))
        },
        _ => unreached(),
    }
}

fn build_directory_sync(
    id: ServiceId,
    cfg: ServiceConfig,
    slots: &mut Vec<Option<ServiceValue>>,
) -> (r: Result<ServiceValue, BuildError>)
    requires
        id is DirectorySync,
        cfg.spec_fits(id),
        slots_match(old(slots)@, id.spec_dependencies()),
    ensures
        directory_sync_made(cfg, old(slots)@, final(slots)@, r),
        same_services(old(slots)@, final(slots)@),
        r matches Ok(v) ==> v.id() == id,
{
    proof {
        id.lemma_dependencies();
    }
    let ghost deps = id.spec_dependencies();
    assert(deps[0].kind == DepKind::Required);
    let s0 = pop_slot(slots);
    match (s0, cfg) {
        (Some(ServiceValue::Blaze(blaze)), ServiceConfig::DirectorySync(c)) => {
            let sync = DirectorySync::from_config(c, &blaze);
            slots.push(Some(ServiceValue::Blaze(blaze)));
            assert(slots@ == old(slots)@);
            Ok(ServiceValue::DirectorySync(sync))
        },
        _ => unreached(),
    }
}

fn build_id_management(
    id: ServiceId,
    cfg: ServiceConfig,
    slots: &mut Vec<Option<ServiceValue>>,
    conf: &Config,
    local: &mut LocalConf,
    oidc: &mut OidcClients,
) -> (r: Result<ServiceValue, BuildError>)
    requires
        id is IdManagement,
        old(local).wf(),
        cfg.spec_fits(id),
        slots_match(old(slots)@, id.spec_dependencies()),
    ensures
        id_management_made(
            cfg,
            old(slots)@,
            final(slots)@,
            *conf,
            *old(local),
            *final(local),
            *old(oidc),
            *final(oidc),
            r,
        ),
        final(local).grown_from(*old(local)),
        same_services(old(slots)@, final(slots)@),
        r matches Ok(v) ==> v.id() == id,
{
    proof {
        id.lemma_dependencies();
    }
    let ghost deps = id.spec_dependencies();
    assert(deps[0].kind == DepKind::Required);
    assert(deps[1].kind == DepKind::Required);
    assert(deps[2].kind == DepKind::Required);
    let s2 = pop_slot(slots);
    let s1 = pop_slot(slots);
    let s0 = pop_slot(slots);
    match (s0, s1, s2, cfg) {
        (
            Some(ServiceValue::Traefik(traefik)),
            Some(ServiceValue::ForwardProxy(fw)),
            Some(ServiceValue::Postgres(pg)),
            ServiceConfig::IdManagement(c),
        ) => {
            let idm = IdManagement::from_config(c, conf, &fw, &pg, local, oidc);
            slots.push(Some(ServiceValue::Traefik(traefik)));
            slots.push(Some(ServiceValue::ForwardProxy(fw)));
            slots.push(Some(ServiceValue::Postgres(pg)));
            assert(slots@ == old(slots)@);
            Ok(ServiceValue::IdManagement(idm))
        },
        _ => unreached(),
    }
}

fn build_obds2fhir(
    id: ServiceId,
    cfg: ServiceConfig,
    slots: &mut Vec<Option<ServiceValue>>,
    conf: &Config,
    local: &mut LocalConf,
) -> (r: Result<ServiceValue, BuildError>)
    requires
        id is Obds2Fhir,
        old(local).wf(),
        cfg.spec_fits(id),
        slots_match(old(slots)@, id.spec_dependencies()),
    ensures
        obds2fhir_made(cfg, old(slots)@, final(slots)@, *conf, *old(local), *final(local), r),
        final(local).grown_from(*old(local)),
        same_services(old(slots)@, final(slots)@),
        r matches Ok(v) ==> v.id() == id,
{
    proof {
        id.lemma_dependencies();
    }
    let ghost deps = id.spec_dependencies();
    assert(deps[0].kind == DepKind::Required);
    let s0 = pop_slot(slots);
    match (s0, cfg) {
        (Some(ServiceValue::Traefik(traefik)), ServiceConfig::Obds2Fhir(c)) => {
            let mut traefik = traefik;
            let r = Obds2Fhir::from_config(c, conf, &mut traefik, local);
            slots.push(Some(ServiceValue::Traefik(traefik)));
            match r {
                Ok(service) => Ok(ServiceValue::Obds2Fhir(service)),
                Err(e) => Err(BuildError::Obds2Fhir(e)),
            }
        },
        _ => unreached(),
    }
}

fn build_podest2fhir(
    id: ServiceId,
    cfg: ServiceConfig,
    slots: &mut Vec<Option<ServiceValue>>,
) -> (r: Result<ServiceValue, BuildError>)
    requires
        id is Podest2Fhir,
        cfg.spec_fits(id),
        slots_match(old(slots)@, id.spec_dependencies()),
    ensures
        podest2fhir_made(cfg, old(slots)@, final(slots)@, r),
        same_services(old(slots)@, final(slots)@),
        r matches Ok(v) ==> v.id() == id,
{
    proof {
        id.lemma_dependencies();
    }
    let ghost deps = id.spec_dependencies();
    assert(deps[0].kind == DepKind::Required);
    let s0 = pop_slot(slots);
    match (s0, cfg) {
        (Some(ServiceValue::Blaze(blaze)), ServiceConfig::Podest2Fhir(c, profile)) => {
            let service = Podest2Fhir::from_config(c, profile, &blaze);
            slots.push(Some(ServiceValue::Blaze(blaze)));
            assert(slots@ == old(slots)@);
            Ok(ServiceValue::Podest2Fhir(service))
        },
        _ => unreached(),
    }
}

fn build_teiler(
    id: ServiceId,
    cfg: ServiceConfig,
    slots: &mut Vec<Option<ServiceValue>>,
    conf: &Config,
    local: &mut LocalConf,
    oidc: &mut OidcClients,
) -> (r: Result<ServiceValue, BuildError>)
    requires
        id is Teiler,
        old(local).wf(),
        cfg.spec_fits(id),
        slots_match(old(slots)@, id.spec_dependencies()),
    ensures
        teiler_made(
            cfg,
            old(slots)@,
            final(slots)@,
            *conf,
            *old(local),
            *final(local),
            *old(oidc),
            *final(oidc),
            r,
        ),
        final(local).grown_from(*old(local)),
        same_services(old(slots)@, final(slots)@),
        r matches Ok(v) ==> v.id() == id,
{
    proof {
        id.lemma_dependencies();
    }
    let ghost deps = id.spec_dependencies();
    assert(deps[0].kind == DepKind::Required);
    let s0 = pop_slot(slots);
    match (s0, cfg) {
        (Some(ServiceValue::ForwardProxy(fw)), ServiceConfig::Teiler(c)) => {
            let teiler = Teiler::from_config(c, conf, &fw, local, oidc);
            slots.push(Some(ServiceValue::ForwardProxy(fw)));
            assert(slots@ == old(slots)@);
            Ok(ServiceValue::Teiler(teiler))
        },
        _ => unreached(),
    }
}

fn build_transfair(
    id: ServiceId,
    cfg: ServiceConfig,
    slots: &mut Vec<Option<ServiceValue>>,
    conf: &Config,
) -> (r: Result<ServiceValue, BuildError>)
    requires
        id is Transfair,
        cfg.spec_fits(id),
        slots_match(old(slots)@, id.spec_dependencies()),
    ensures
        transfair_made(cfg, old(slots)@, final(slots)@, *conf, r),
        same_services(old(slots)@, final(slots)@),
        r matches Ok(v) ==> v.id() == id,
{
    proof {
        id.lemma_dependencies();
    }
    let ghost deps = id.spec_dependencies();
    assert(deps[0].kind == DepKind::Required);
    let s0 = pop_slot(slots);
    match (s0, cfg) {
        (Some(ServiceValue::Blaze(blaze)), ServiceConfig::Transfair(c)) => {
            let service = Transfair::from_config(c, conf, &blaze);
            slots.push(Some(ServiceValue::Blaze(blaze)));
            assert(slots@ == old(slots)@);
            Ok(ServiceValue::Transfair(service))
        },
        _ => unreached(),
    }
}

/// Builds the service `id` from what it was installed with and from the
/// services it depends on, which stand in `slots` in the order of its
/// declaration. Every required service is there; the constructor may change
/// the services it is given, and they stay in their slots. `broker_id` is
/// the id of the broker of the service's network, for the services that talk
/// through one.
pub(crate) fn build(
    id: ServiceId,
    cfg: ServiceConfig,
    slots: &mut Vec<Option<ServiceValue>>,
    conf: &Config,
    local: &mut LocalConf,
    oidc: &mut OidcClients,
    broker_id: &str,
) -> (r: Result<ServiceValue, BuildError>)
    requires
        old(local).wf(),
        cfg.spec_fits(id),
        slots_match(old(slots)@, id.spec_dependencies()),
    ensures
        made(
            id,
            cfg,
            old(slots)@,
            final(slots)@,
            *conf,
            *old(local),
            *final(local),
            *old(oidc),
            *final(oidc),
            broker_id@,
            r,
        ),
        final(local).grown_from(*old(local)),
        same_services(old(slots)@, final(slots)@),
        r matches Ok(v) ==> v.id() == id,
{
    match id {
        ServiceId::Traefik => Ok(ServiceValue::Traefik(Traefik::from_config(conf))),
        ServiceId::ForwardProxy => Ok(ServiceValue::ForwardProxy(ForwardProxy::from_config(conf))),
        ServiceId::Postgres(owner) => Ok(
            ServiceValue::Postgres(Postgres::from_config(owner, local)),
        ),
        ServiceId::DnpmNode => match cfg {
            ServiceConfig::DnpmNode(c) => Ok(
                ServiceValue::DnpmNode(DnpmNode::from_config(c, conf, local)),
            ),
            _ => unreached(),
        },
        ServiceId::BeamProxy(network) => build_beam_proxy(id, network, slots, conf, broker_id),
        ServiceId::BeamConnect(_) => build_beam_connect(id, slots, conf, local),
        ServiceId::Blaze(site) => build_blaze(id, site, slots, local),
        ServiceId::Focus(_, _) => build_focus(id, slots, local),
        ServiceId::DataShield => build_datashield(id, slots, conf, local, oidc, broker_id),
        ServiceId::Exporter => build_exporter(id, slots, conf, local),
        ServiceId::DirectorySync(_) => build_directory_sync(id, cfg, slots),
        ServiceId::IdManagement => build_id_management(id, cfg, slots, conf, local, oidc),
        ServiceId::Obds2Fhir => build_obds2fhir(id, cfg, slots, conf, local),
        ServiceId::Podest2Fhir => build_podest2fhir(id, cfg, slots),
        ServiceId::Teiler => build_teiler(id, cfg, slots, conf, local, oidc),
        ServiceId::Transfair(_) => build_transfair(id, cfg, slots, conf),
    }
}

} // verus!
