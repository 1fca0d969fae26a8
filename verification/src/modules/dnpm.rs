//! The DNPM network.

use vstd::prelude::*;
use vstd::string::*;

use crate::identity::{Network, ServiceId};
use crate::modules::Module;
use crate::registry::held;
use crate::services::beam_connect::{CentralTarget, LocalTarget};
use crate::services::catalog::{
    hooks_applied, lemma_hooks_applied_more, PostInstall, ServiceConfig, ServiceValue,
};
use crate::services::dnpm_node::DnpmNodeConf;
use crate::services::{install_edges, only_touched, EngineError, ServiceMap};
use crate::utils::{concat2, lowercase, spec_lowercase, texts_of};

verus! {

/// The DNPM network.
#[derive(Clone, Copy, Debug)]
pub struct Dnpm;

/// How a site takes part in the network: with a node of its own, or with a
/// service that is reached through the connector.
#[derive(Debug)]
pub enum DnpmConfig {
    Node(DnpmNodeConf),
    Local { target: LocalTarget, no_proxy: Option<String> },
}

/// The number of sites of the network.
pub const DNPM_SITE_COUNT: usize = 23;

/// The sites of the network: the host under which a site is known, and the
/// beam id of its connector.
pub open spec fn spec_dnpm_sites() -> Seq<(Seq<char>, Seq<char>)> {
    seq![
        ("ukfr.dnpm.de"@, "dnpm-connect.dnpm-bridge.broker.ccp-it.dktk.dkfz.de"@),
        ("ukhd.dnpm.de"@, "dnpm-connect.dnpm-bridge.broker.ccp-it.dktk.dkfz.de"@),
        ("ukt.dnpm.de"@, "dnpm-connect.dnpm-bridge.broker.ccp-it.dktk.dkfz.de"@),
        ("uku.dnpm.de"@, "dnpm-connect.dnpm-bridge.broker.ccp-it.dktk.dkfz.de"@),
        ("um.dnpm.de"@, "dnpm-connect.dnpm-bridge.broker.ccp-it.dktk.dkfz.de"@),
        ("ukmr.dnpm.de"@, "dnpm-connect.dnpm-bridge.broker.ccp-it.dktk.dkfz.de"@),
        ("uke.dnpm.de"@, "dnpm-connect.dnpm-bridge.broker.ccp-it.dktk.dkfz.de"@),
        ("uka.dnpm.de"@, "dnpm-connect.dnpm-bridge.broker.ccp-it.dktk.dkfz.de"@),
        ("charite.dnpm.de"@, "dnpm-connect.berlin-test.broker.ccp-it.dktk.dkfz.de"@),
        ("mri.dnpm.de"@, "dnpm-connect.muenchen-tum.broker.ccp-it.dktk.dkfz.de"@),
        ("kum.dnpm.de"@, "dnpm-connect.muenchen-lmu.broker.ccp-it.dktk.dkfz.de"@),
        ("mhh.dnpm.de"@, "dnpm-connect.hannover.broker.ccp-it.dktk.dkfz.de"@),
        ("ukdd.dnpm.de"@, "dnpm-connect.dresden-dnpm.broker.ccp-it.dktk.dkfz.de"@),
        ("ukb.dnpm.de"@, "dnpm-connect.bonn-dnpm.broker.ccp-it.dktk.dkfz.de"@),
        ("ukd.dnpm.de"@, "dnpm-connect.duesseldorf-dnpm.broker.ccp-it.dktk.dkfz.de"@),
        ("ukk.dnpm.de"@, "dnpm-connect.dnpm-bridge.broker.ccp-it.dktk.dkfz.de"@),
        ("ume.dnpm.de"@, "dnpm-connect.essen.broker.ccp-it.dktk.dkfz.de"@),
        ("ukm.dnpm.de"@, "dnpm-connect.muenster-dnpm.broker.ccp-it.dktk.dkfz.de"@),
        ("ukf.dnpm.de"@, "dnpm-connect.frankfurt.broker.ccp-it.dktk.dkfz.de"@),
        ("umg.dnpm.de"@, "dnpm-connect.goettingen.broker.ccp-it.dktk.dkfz.de"@),
        ("ukw.dnpm.de"@, "dnpm-connect.wuerzburg-dnpm.broker.ccp-it.dktk.dkfz.de"@),
        ("uksh.dnpm.de"@, "dnpm-connect.uksh-dnpm.broker.ccp-it.dktk.dkfz.de"@),
        ("tkt.dnpm.de"@, "dnpm-connect.tobias-develop.broker.ccp-it.dktk.dkfz.de"@),
    ]
}

/// The hosts and the connectors of a list of sites, as texts.
pub open spec fn site_texts(sites: Seq<(String, String)>) -> Seq<(Seq<char>, Seq<char>)> {
    Seq::new(sites.len(), |i: int| (sites[i].0@, sites[i].1@))
}

fn site(host: &str, connector: &str) -> (s: (String, String))
    ensures
        s.0@ == host@,
        s.1@ == connector@,
{
    (String::from_str(host), String::from_str(connector))
}

pub fn dnpm_sites() -> (sites: Vec<(String, String)>)
    ensures
        site_texts(sites@) == spec_dnpm_sites(),
        sites@.len() == DNPM_SITE_COUNT,
{
    let mut sites: Vec<(String, String)> = Vec::new();
    sites.push(site("ukfr.dnpm.de", "dnpm-connect.dnpm-bridge.broker.ccp-it.dktk.dkfz.de"));
    sites.push(site("ukhd.dnpm.de", "dnpm-connect.dnpm-bridge.broker.ccp-it.dktk.dkfz.de"));
    sites.push(site("ukt.dnpm.de", "dnpm-connect.dnpm-bridge.broker.ccp-it.dktk.dkfz.de"));
    sites.push(site("uku.dnpm.de", "dnpm-connect.dnpm-bridge.broker.ccp-it.dktk.dkfz.de"));
    sites.push(site("um.dnpm.de", "dnpm-connect.dnpm-bridge.broker.ccp-it.dktk.dkfz.de"));
    sites.push(site("ukmr.dnpm.de", "dnpm-connect.dnpm-bridge.broker.ccp-it.dktk.dkfz.de"));
    sites.push(site("uke.dnpm.de", "dnpm-connect.dnpm-bridge.broker.ccp-it.dktk.dkfz.de"));
    sites.push(site("uka.dnpm.de", "dnpm-connect.dnpm-bridge.broker.ccp-it.dktk.dkfz.de"));
    sites.push(site("charite.dnpm.de", "dnpm-connect.berlin-test.broker.ccp-it.dktk.dkfz.de"));
    sites.push(site("mri.dnpm.de", "dnpm-connect.muenchen-tum.broker.ccp-it.dktk.dkfz.de"));
    sites.push(site("kum.dnpm.de", "dnpm-connect.muenchen-lmu.broker.ccp-it.dktk.dkfz.de"));
    sites.push(site("mhh.dnpm.de", "dnpm-connect.hannover.broker.ccp-it.dktk.dkfz.de"));
    sites.push(site("ukdd.dnpm.de", "dnpm-connect.dresden-dnpm.broker.ccp-it.dktk.dkfz.de"));
    sites.push(site("ukb.dnpm.de", "dnpm-connect.bonn-dnpm.broker.ccp-it.dktk.dkfz.de"));
    sites.push(site("ukd.dnpm.de", "dnpm-connect.duesseldorf-dnpm.broker.ccp-it.dktk.dkfz.de"));
    sites.push(site("ukk.dnpm.de", "dnpm-connect.dnpm-bridge.broker.ccp-it.dktk.dkfz.de"));
    sites.push(site("ume.dnpm.de", "dnpm-connect.essen.broker.ccp-it.dktk.dkfz.de"));
    sites.push(site("ukm.dnpm.de", "dnpm-connect.muenster-dnpm.broker.ccp-it.dktk.dkfz.de"));
    sites.push(site("ukf.dnpm.de", "dnpm-connect.frankfurt.broker.ccp-it.dktk.dkfz.de"));
    sites.push(site("umg.dnpm.de", "dnpm-connect.goettingen.broker.ccp-it.dktk.dkfz.de"));
    sites.push(site("ukw.dnpm.de", "dnpm-connect.wuerzburg-dnpm.broker.ccp-it.dktk.dkfz.de"));
    sites.push(site("uksh.dnpm.de", "dnpm-connect.uksh-dnpm.broker.ccp-it.dktk.dkfz.de"));
    sites.push(site("tkt.dnpm.de", "dnpm-connect.tobias-develop.broker.ccp-it.dktk.dkfz.de"));
    assert(site_texts(sites@) =~= spec_dnpm_sites());
    sites
}

/// The connector of the network, through which all its sites are reached.
pub open spec fn connector() -> ServiceId {
    ServiceId::BeamConnect(Network::Ccp)
}

/// The hook adds the site `site` to the connector.
pub open spec fn adds_site(hook: (ServiceId, PostInstall), site: (Seq<char>, Seq<char>)) -> bool {
    &&& hook.0 == connector()
    &&& hook.1 matches PostInstall::CentralTarget(t)
    &&& t.virtualhost@ == site.0
    &&& t.beam_connect@ == site.1
}

/// The connectors of the sites, which may reach a local target unless the
/// target says otherwise.
pub open spec fn spec_default_allowed() -> Seq<Seq<char>> {
    Seq::new(spec_dnpm_sites().len(), |i: int| spec_dnpm_sites()[i].1)
}

/// The hook shows to the sites of the network what the section `conf` asks
/// for: the backend of the site's own node, or the target it names.
pub open spec fn adds_target(hook: (ServiceId, PostInstall), conf: DnpmConfig) -> bool {
    &&& hook.0 == connector()
    &&& hook.1 matches PostInstall::LocalTarget(t)
    &&& match conf {
        DnpmConfig::Node(node) => {
            &&& t.external@ == spec_lowercase(node.zpm_site@) + ".dnpm.de"@
            &&& t.internal@ == "dnpm-backend:9000"@
            &&& texts_of(t.allowed@) == spec_default_allowed()
            &&& !t.force_https
            &&& !t.reset_host
            &&& t.external_path is None
        },
        DnpmConfig::Local { target, no_proxy } => {
            &&& t.external == target.external
            &&& t.internal == target.internal
            &&& texts_of(t.allowed@) == if target.allowed@.len() == 0 {
                spec_default_allowed()
            } else {
                texts_of(target.allowed@)
            }
            &&& t.force_https == target.force_https
            &&& t.reset_host == target.reset_host
            &&& t.external_path == target.external_path
        },
    }
}

/// The hooks add the sites of the network to the connector, one after the
/// other in the order of the list.
pub open spec fn site_hooks(hooks: Seq<PostInstall>) -> bool {
    &&& hooks.len() == DNPM_SITE_COUNT
    &&& forall|i: int|
        0 <= i < DNPM_SITE_COUNT ==> adds_site((connector(), #[trigger] hooks[i]), spec_dnpm_sites()[i])
}

/// The hooks are those that the section `conf` asks for: one for each site
/// of the network, then the one that shows the target, then the one that
/// keeps a host off the proxy where the section names one.
pub open spec fn section_hooks(hooks: Seq<PostInstall>, conf: DnpmConfig) -> bool {
    &&& hooks.len() == DNPM_SITE_COUNT + 1 + if conf matches DnpmConfig::Local {
        no_proxy: Some(_),
        ..
    } {
        1int
    } else {
        0int
    }
    &&& site_hooks(hooks.subrange(0, DNPM_SITE_COUNT as int))
    &&& adds_target((connector(), hooks[DNPM_SITE_COUNT as int]), conf)
    &&& conf matches DnpmConfig::Local { no_proxy: Some(host), .. } ==> hooks[DNPM_SITE_COUNT
        + 1] == PostInstall::NoProxy(host)
}

/// The hooks `hooks` ran on the connector, which is built, one after the
/// other; nothing else has changed in the registry, and no hook waits that
/// did not wait before.
pub open spec fn ran_on_connector(
    before: ServiceMap,
    after: ServiceMap,
    hooks: Seq<PostInstall>,
) -> bool {
    &&& after.hooks == before.hooks
    &&& only_touched(before.registry, after.registry, connector())
    &&& hooks_applied(before.registry@[connector()], after.registry@[connector()], hooks)
}

/// One more hook run on the connector after others is the longer list of
/// hooks run on it.
pub proof fn lemma_ran_more(
    start: ServiceMap,
    mid: ServiceMap,
    end: ServiceMap,
    ran: Seq<PostInstall>,
    hook: PostInstall,
)
    requires
        start.registry@.contains_key(connector()),
        ran_on_connector(start, mid, ran),
        end.hooks == mid.hooks,
        only_touched(mid.registry, end.registry, connector()),
        ServiceValue::applied(
            mid.registry@[connector()],
            end.registry@[connector()],
            hook,
        ),
    ensures
        ran_on_connector(start, end, ran.push(hook)),
{
    let c = connector();
    lemma_hooks_applied_more(
        start.registry@[c],
        mid.registry@[c],
        end.registry@[c],
        ran,
        hook,
    );
    assert forall|s: ServiceId| s != c && start.registry@.contains_key(s) implies #[trigger] end.registry@[s]
        == start.registry@[s] by {
        assert(mid.registry@.dom().contains(s));
        assert(mid.registry@[s] == start.registry@[s]);
    }
}

impl Dnpm {
    /// Installs the connector and registers one hook for each site of the
    /// network. Hands back the connectors of the sites.
    fn install_sites(service_map: &mut ServiceMap) -> (r: Result<Vec<String>, EngineError>)
        requires
            old(service_map).wf(),
        ensures
            final(service_map).wf(),
            r matches Ok(allowed) && texts_of(allowed@) == spec_default_allowed(),
            final(service_map).config == old(service_map).config,
            final(service_map).local_conf == old(service_map).local_conf,
            final(service_map).oidc == old(service_map).oidc,
            final(service_map).registry@.dom() == old(service_map).registry@.dom(),
            final(service_map).constructors@ == old(service_map).constructors@.insert(
                connector(),
                ServiceConfig::Default,
            ),
            final(service_map).graph@ == old(service_map).graph@ + install_edges(connector()),
            !old(service_map).registry@.contains_key(connector()) ==> {
                &&& final(service_map).registry == old(service_map).registry
                &&& final(service_map).hooks@.len() == old(service_map).hooks@.len()
                    + DNPM_SITE_COUNT
                &&& final(service_map).hooks@.subrange(0, old(service_map).hooks@.len() as int)
                    == old(service_map).hooks@
                &&& forall|i: int|
                    0 <= i < DNPM_SITE_COUNT ==> adds_site(
                        #[trigger] final(service_map).hooks@[old(service_map).hooks@.len() + i],
                        spec_dnpm_sites()[i],
                    )
            },
            old(service_map).registry@.contains_key(connector()) ==> exists|ran: Seq<PostInstall>|
                site_hooks(ran) && #[trigger] ran_on_connector(
                    *old(service_map),
                    *final(service_map),
                    ran,
                ),
    {
        match service_map.install_default(ServiceId::BeamConnect(Network::Ccp)) {
            Ok(()) => {},
            Err(e) => {
                return Err(e);
            },
        }
        let sites = dnpm_sites();
        let mut allowed: Vec<String> = Vec::new();
        let mut i: usize = 0;
        let ghost start = old(service_map).hooks@.len() as int;
        let ghost unbuilt = !old(service_map).registry@.contains_key(connector());
        let ghost mut ran: Seq<PostInstall> = Seq::empty();
        while i < sites.len()
            invariant
                i <= sites@.len(),
                !unbuilt ==> {
                    &&& ran_on_connector(*old(service_map), *service_map, ran)
                    &&& ran.len() == i
                    &&& forall|j: int|
                        0 <= j < i ==> adds_site((connector(), #[trigger] ran[j]), spec_dnpm_sites()[j])
                },
                sites@.len() == DNPM_SITE_COUNT,
                site_texts(sites@) == spec_dnpm_sites(),
                start == old(service_map).hooks@.len(),
                unbuilt == !old(service_map).registry@.contains_key(connector()),
                service_map.wf(),
                service_map.config == old(service_map).config,
                service_map.local_conf == old(service_map).local_conf,
                service_map.oidc == old(service_map).oidc,
                service_map.registry@.dom() == old(service_map).registry@.dom(),
                service_map.constructors@ == old(service_map).constructors@.insert(
                    connector(),
                    ServiceConfig::Default,
                ),
                service_map.graph@ == old(service_map).graph@ + install_edges(connector()),
                texts_of(allowed@) == spec_default_allowed().subrange(0, i as int),
                unbuilt ==> {
                    &&& service_map.registry == old(service_map).registry
                    &&& service_map.hooks@.len() == start + i
                    &&& service_map.hooks@.subrange(0, start) == old(service_map).hooks@
                    &&& forall|j: int|
                        0 <= j < i ==> adds_site(
                            #[trigger] service_map.hooks@[start + j],
                            spec_dnpm_sites()[j],
                        )
                },
            decreases sites@.len() - i,
        {
            let ghost hooks_before = service_map.hooks@;
            let ghost allowed_before = texts_of(allowed@);
            let ghost state_before = *service_map;
            proof {
                assert(site_texts(sites@)[i as int] == (sites@[i as int].0@, sites@[i as int].1@));
            }
            let target = CentralTarget {
                virtualhost: sites[i].0.clone(),
                beam_connect: sites[i].1.clone(),
            };
            let hook = PostInstall::CentralTarget(target);
            let ghost added = hook;
            match service_map.post_install(ServiceId::BeamConnect(Network::Ccp), hook) {
                Ok(()) => {},
                Err(e) => {
                    return Err(e);
                },
            }
            allowed.push(sites[i].1.clone());
            proof {
                assert(texts_of(allowed@) =~= allowed_before.push(spec_dnpm_sites()[i as int].1));
                assert(spec_default_allowed().subrange(0, i + 1) =~= spec_default_allowed().subrange(
                    0,
                    i as int,
                ).push(spec_dnpm_sites()[i as int].1));
                if !unbuilt {
                    assert(state_before.registry@.dom().contains(connector()));
                    lemma_ran_more(*old(service_map), state_before, *service_map, ran, added);
                    let longer = ran.push(added);
                    assert forall|j: int| 0 <= j < i + 1 implies adds_site(
                        (connector(), #[trigger] longer[j]),
                        spec_dnpm_sites()[j],
                    ) by {
                        if j < i {
                            assert(longer[j] == ran[j]);
                        }
                    }
                    ran = longer;
                }
                if unbuilt {
                    assert(service_map.hooks@.subrange(0, start) =~= hooks_before.subrange(
                        0,
                        start,
                    ));
                    assert forall|j: int| 0 <= j < i + 1 implies adds_site(
                        #[trigger] service_map.hooks@[start + j],
                        spec_dnpm_sites()[j],
                    ) by {
                        if j < i {
                            assert(service_map.hooks@[start + j] == hooks_before[start + j]);
                        }
                    }
                }
            }
            i += 1;
        }
        proof {
            assert(spec_default_allowed().subrange(0, sites@.len() as int)
                =~= spec_default_allowed());
            if !unbuilt {
                assert(site_hooks(ran) && ran_on_connector(*old(service_map), *service_map, ran));
            }
        }
        Ok(allowed)
    }
}

impl Module for Dnpm {
    open spec fn installs(
        &self,
        before: ServiceMap,
        after: ServiceMap,
        r: Result<(), EngineError>,
    ) -> bool {
        &&& r is Ok
        &&& after.local_conf == before.local_conf
        &&& after.oidc == before.oidc
        &&& match before.config.dnpm {
            None => after == before,
            Some(conf) => {
                let start = before.hooks@.len() as int;
                let hooks = after.hooks@;
                &&& after.graph@ == before.graph@ + install_edges(
                    connector(),
                ) + if conf is Node {
                    install_edges(ServiceId::DnpmNode)
                } else {
                    Seq::empty()
                }
                &&& held(after.constructors@, connector()) == Some(
                    ServiceConfig::Default,
                )
                &&& held(after.constructors@, ServiceId::DnpmNode) == match conf {
                    DnpmConfig::Node(node) => Some(ServiceConfig::DnpmNode(node)),
                    _ => held(before.constructors@, ServiceId::DnpmNode),
                }
                &&& forall|id: ServiceId|
                    id != connector() && id != ServiceId::DnpmNode ==> held(
                        after.constructors@,
                        id,
                    ) == held(before.constructors@, id)
                &&& !before.registry@.contains_key(connector()) ==> {
                    &&& after.registry == before.registry
                    &&& hooks.len() == start + DNPM_SITE_COUNT + 1 + if conf matches DnpmConfig::Local {
                        no_proxy: Some(_),
                        ..
                    } {
                        1int
                    } else {
                        0int
                    }
                    &&& hooks.subrange(0, start) == before.hooks@
                    &&& forall|i: int|
                        0 <= i < DNPM_SITE_COUNT ==> adds_site(
                            #[trigger] hooks[start + i],
                            spec_dnpm_sites()[i],
                        )
                    &&& adds_target(hooks[start + DNPM_SITE_COUNT], conf)
                    &&& conf matches DnpmConfig::Local { no_proxy: Some(host), .. } ==> hooks[start
                        + DNPM_SITE_COUNT + 1] == (connector(), PostInstall::NoProxy(host))
                }
                &&& before.registry@.contains_key(connector()) ==> exists|ran: Seq<PostInstall>|
                    section_hooks(ran, conf) && #[trigger] ran_on_connector(before, after, ran)
            },
        }
    }

    /// Where the document has a section for the network: installs the
    /// connector with all the sites of the network as its central targets,
    /// shows to them what the section asks for, and installs the site's own
    /// node if the section describes one.
    fn install(&self, service_map: &mut ServiceMap) -> (r: Result<(), EngineError>) {
        let (node, local) = match &service_map.config.dnpm {
            None => {
                return Ok(());
            },
            Some(DnpmConfig::Node(conf)) => (Some(conf.duplicate()), None),
            Some(DnpmConfig::Local { target, no_proxy }) => (
                None,
                Some(
                    (
                        target.duplicate(),
                        match no_proxy {
                            Some(host) => Some(host.clone()),
                            None => None,
                        },
                    ),
                ),
            ),
        };
        let default_allowed_remotes = match Self::install_sites(service_map) {
            Ok(allowed) => allowed,
            Err(e) => {
                return Err(e);
            },
        };
        let ghost start = old(service_map).hooks@.len() as int;
        let ghost unbuilt = !old(service_map).registry@.contains_key(connector());
        let ghost after_sites = service_map.hooks@;
        let ghost sited = *service_map;
        let ghost site_ran = choose|ran: Seq<PostInstall>|
            site_hooks(ran) && #[trigger] ran_on_connector(*old(service_map), sited, ran);
        let ghost section = old(service_map).config.dnpm->0;
        let bc = ServiceId::BeamConnect(Network::Ccp);
        match (node, local) {
            (Some(conf), _) => {
                let external = concat2(lowercase(conf.zpm_site.as_str()).as_str(), ".dnpm.de");
                let target = LocalTarget::new(
                    external,
                    String::from_str("dnpm-backend:9000"),
                    default_allowed_remotes,
                );
                let hook = PostInstall::LocalTarget(target);
                let ghost shown = hook;
                match service_map.post_install(bc, hook) {
                    Ok(()) => {},
                    Err(e) => {
                        return Err(e);
                    },
                }
                let ghost after_target = service_map.hooks@;
                let ghost targeted = *service_map;
                match service_map.install_with_config(
                    ServiceId::DnpmNode,
                    ServiceConfig::DnpmNode(conf),
                ) {
                    Ok(()) => {},
                    Err(e) => {
                        return Err(e);
                    },
                }
                proof {
                    if unbuilt {
                        let hooks = service_map.hooks@;
                        assert(hooks.subrange(0, start) =~= after_sites.subrange(0, start));
                        assert forall|i: int| 0 <= i < DNPM_SITE_COUNT implies adds_site(
                            #[trigger] hooks[start + i],
                            spec_dnpm_sites()[i],
                        ) by {
                            assert(hooks[start + i] == after_sites[start + i]);
                        }
                    } else {
                        assert(sited.registry@.dom().contains(connector()));
                        lemma_ran_more(*old(service_map), sited, targeted, site_ran, shown);
                        let ran = site_ran.push(shown);
                        assert(ran.subrange(0, DNPM_SITE_COUNT as int) == site_ran);
                        assert(section_hooks(ran, section) && ran_on_connector(
                            *old(service_map),
                            *service_map,
                            ran,
                        ));
                    }
                }
            },
            (None, Some((target, no_proxy))) => {
                let mut target = target;
                if target.allowed.len() == 0 {
                    target.allowed = default_allowed_remotes;
                }
                let hook = PostInstall::LocalTarget(target);
                let ghost shown = hook;
                match service_map.post_install(bc, hook) {
                    Ok(()) => {},
                    Err(e) => {
                        return Err(e);
                    },
                }
                let ghost after_target = service_map.hooks@;
                let ghost targeted = *service_map;
                proof {
                    if !unbuilt {
                        assert(sited.registry@.dom().contains(connector()));
                        lemma_ran_more(*old(service_map), sited, targeted, site_ran, shown);
                        assert(site_ran.push(shown).subrange(0, DNPM_SITE_COUNT as int)
                            == site_ran);
                    }
                }
                match no_proxy {
                    Some(host) => {
                        let hook = PostInstall::NoProxy(host);
                        let ghost kept = hook;
                        match service_map.post_install(bc, hook) {
                            Ok(()) => {},
                            Err(e) => {
                                return Err(e);
                            },
                        }
                        proof {
                            if !unbuilt {
                                assert(targeted.registry@.dom().contains(connector()));
                                lemma_ran_more(
                                    *old(service_map),
                                    targeted,
                                    *service_map,
                                    site_ran.push(shown),
                                    kept,
                                );
                                let ran = site_ran.push(shown).push(kept);
                                assert(ran.subrange(0, DNPM_SITE_COUNT as int) == site_ran);
                                assert(section_hooks(ran, section) && ran_on_connector(
                                    *old(service_map),
                                    *service_map,
                                    ran,
                                ));
                            }
                        }
                    },
                    None => {
                        proof {
                            if !unbuilt {
                                let ran = site_ran.push(shown);
                                assert(section_hooks(ran, section) && ran_on_connector(
                                    *old(service_map),
                                    *service_map,
                                    ran,
                                ));
                            }
                        }
                    },
                }
                proof {
                    if unbuilt {
                        let hooks = service_map.hooks@;
                        assert(hooks.subrange(0, start) =~= after_sites.subrange(0, start));
                        assert(hooks[start + DNPM_SITE_COUNT] == after_target[start
                            + DNPM_SITE_COUNT]);
                        assert forall|i: int| 0 <= i < DNPM_SITE_COUNT implies adds_site(
                            #[trigger] hooks[start + i],
                            spec_dnpm_sites()[i],
                        ) by {
                            assert(hooks[start + i] == after_sites[start + i]);
                        }
                    }
                }
            },
            (None, None) => {},
        }
        Ok(())
    }
}

} // verus!
