//! The BBMRI networks.

use vstd::prelude::*;
use vstd::string::*;

use crate::services::beam::BrokerProvider;
use crate::services::blaze::{BlazeProvider, BlazeTraefikConfig};
use crate::identity::{BlazeSite, Network, ServiceId};
use crate::modules::Module;
use crate::registry::held;
use crate::services::catalog::{PostInstall, ServiceConfig, ServiceValue};
use crate::services::directory_sync::DirectorySyncConfig;
use crate::services::{install_edges, only_touched, EngineError, ServiceMap};

verus! {

#[derive(Debug)]
pub struct BbmriConfig {
    pub eric: bool,
    pub gbn: bool,
    pub directory_sync: Option<DirectorySyncConfig>,
}

/// The BBMRI project.
#[derive(Clone, Copy, Debug)]
pub struct Bbmri;

/// The hook sets the image of the focus `focus` to `main-bbmri`.
pub open spec fn tags_focus(hook: (ServiceId, PostInstall), focus: ServiceId) -> bool {
    &&& hook.0 == focus
    &&& hook.1 matches PostInstall::FocusTag(tag)
    &&& tag@ == "main-bbmri"@
}

/// The hook that sets the image to `main-bbmri` ran on the focus `focus`,
/// which is built.
pub open spec fn tagged(
    before: Map<ServiceId, ServiceValue>,
    after: Map<ServiceId, ServiceValue>,
    focus: ServiceId,
) -> bool {
    exists|hook: PostInstall|
        tags_focus((focus, hook), focus) && #[trigger] ServiceValue::applied(
            before[focus],
            after[focus],
            hook,
        )
}

impl Bbmri {
    /// Installs the focus of `network` on the store of the project, with the
    /// image `main-bbmri`.
    fn install_focus(service_map: &mut ServiceMap, network: Network) -> (r: Result<
        (),
        EngineError,
    >)
        requires
            old(service_map).wf(),
        ensures
            final(service_map).wf(),
            r is Ok,
            final(service_map).config == old(service_map).config,
            final(service_map).local_conf == old(service_map).local_conf,
            final(service_map).oidc == old(service_map).oidc,
            final(service_map).registry@.dom() == old(service_map).registry@.dom(),
            final(service_map).constructors@ == old(service_map).constructors@.insert(
                ServiceId::Focus(network, BlazeSite::Bbmri),
                ServiceConfig::Default,
            ),
            final(service_map).graph@ == old(service_map).graph@ + install_edges(
                ServiceId::Focus(network, BlazeSite::Bbmri),
            ),
            !old(service_map).registry@.contains_key(ServiceId::Focus(network, BlazeSite::Bbmri))
                ==> {
                &&& final(service_map).registry == old(service_map).registry
                &&& final(service_map).hooks@.len() == old(service_map).hooks@.len() + 1
                &&& final(service_map).hooks@.drop_last() == old(service_map).hooks@
                &&& final(service_map).hooks@.last().0 == ServiceId::Focus(
                    network,
                    BlazeSite::Bbmri,
                )
                &&& final(service_map).hooks@.last().1 matches PostInstall::FocusTag(tag)
                &&& tag@ == "main-bbmri"@
            },
            old(service_map).registry@.contains_key(ServiceId::Focus(network, BlazeSite::Bbmri))
                ==> {
                &&& final(service_map).hooks == old(service_map).hooks
                &&& only_touched(
                    old(service_map).registry,
                    final(service_map).registry,
                    ServiceId::Focus(network, BlazeSite::Bbmri),
                )
                &&& tagged(
                    old(service_map).registry@,
                    final(service_map).registry@,
                    ServiceId::Focus(network, BlazeSite::Bbmri),
                )
            },
    {
        let focus = ServiceId::Focus(network, BlazeSite::Bbmri);
        match service_map.install_default(focus) {
            Ok(()) => {},
            Err(e) => {
                return Err(e);
            },
        }
        let hook = PostInstall::FocusTag(String::from_str("main-bbmri"));
        let ghost ran = hook;
        let r = service_map.post_install(focus, hook);
        proof {
            if old(service_map).registry@.contains_key(focus) {
                assert(tags_focus((focus, ran), focus) && ServiceValue::applied(
                    old(service_map).registry@[focus],
                    service_map.registry@[focus],
                    ran,
                ));
            }
        }
        r
    }
}

impl Module for Bbmri {
    open spec fn installs(
        &self,
        before: ServiceMap,
        after: ServiceMap,
        r: Result<(), EngineError>,
    ) -> bool {
        &&& r is Ok
        &&& after.local_conf == before.local_conf
        &&& after.oidc == before.oidc
        &&& match before.config.bbmri {
            None => after == before,
            Some(bbmri) => {
                let blaze = ServiceId::Blaze(BlazeSite::Bbmri);
                let eric = ServiceId::Focus(Network::Eric, BlazeSite::Bbmri);
                let gbn = ServiceId::Focus(Network::Gbn, BlazeSite::Bbmri);
                let sync = ServiceId::DirectorySync(BlazeSite::Bbmri);
                &&& after.graph@ == before.graph@ + install_edges(blaze)
                    + if bbmri.eric {
                    install_edges(eric)
                } else {
                    Seq::empty()
                } + if bbmri.gbn {
                    install_edges(gbn)
                } else {
                    Seq::empty()
                } + if bbmri.directory_sync is Some {
                    install_edges(sync)
                } else {
                    Seq::empty()
                }
                &&& held(after.constructors@, blaze) == Some(
                    ServiceConfig::Default,
                )
                &&& held(after.constructors@, eric) == if bbmri.eric {
                    Some(ServiceConfig::Default)
                } else {
                    held(before.constructors@, eric)
                }
                &&& held(after.constructors@, gbn) == if bbmri.gbn {
                    Some(ServiceConfig::Default)
                } else {
                    held(before.constructors@, gbn)
                }
                &&& held(after.constructors@, sync) == match bbmri.directory_sync {
                    Some(conf) => Some(ServiceConfig::DirectorySync(conf)),
                    None => held(before.constructors@, sync),
                }
                &&& forall|id: ServiceId|
                    id != blaze && id != eric && id != gbn && id != sync ==> held(
                        after.constructors@,
                        id,
                    ) == held(before.constructors@, id)
                &&& {
                    let n = before.hooks@.len() as int;
                    let first = if bbmri.eric && !before.registry@.contains_key(eric) {
                        1int
                    } else {
                        0int
                    };
                    let second = if bbmri.gbn && !before.registry@.contains_key(gbn) {
                        1int
                    } else {
                        0int
                    };
                    &&& after.hooks@.len() == n + first + second
                    &&& after.hooks@.subrange(0, n) == before.hooks@
                    &&& first == 1 ==> tags_focus(after.hooks@[n], eric)
                    &&& second == 1 ==> tags_focus(after.hooks@[n + first], gbn)
                }
                &&& after.registry.order() == before.registry.order()
                &&& forall|s: ServiceId|
                    s != eric && s != gbn && before.registry@.contains_key(s)
                        ==> #[trigger] after.registry@[s] == before.registry@[s]
                &&& before.registry@.contains_key(eric) ==> if bbmri.eric {
                    tagged(before.registry@, after.registry@, eric)
                } else {
                    after.registry@[eric] == before.registry@[eric]
                }
                &&& before.registry@.contains_key(gbn) ==> if bbmri.gbn {
                    tagged(before.registry@, after.registry@, gbn)
                } else {
                    after.registry@[gbn] == before.registry@[gbn]
                }
                &&& !(bbmri.eric && before.registry@.contains_key(eric)) && !(bbmri.gbn
                    && before.registry@.contains_key(gbn)) ==> after.registry == before.registry
            },
        }
    }

    /// Where the document has a section for the project: installs the store
    /// of the project, a focus for each network that is switched on, and the
    /// synchronisation with the directory if the section asks for it.
    fn install(&self, service_map: &mut ServiceMap) -> (r: Result<(), EngineError>) {
        let (eric, gbn, sync) = match &service_map.config.bbmri {
            None => {
                return Ok(());
            },
            Some(bbmri) => (
                bbmri.eric,
                bbmri.gbn,
                match &bbmri.directory_sync {
                    Some(conf) => Some(conf.duplicate()),
                    None => None,
                },
            ),
        };
        match service_map.install_default(ServiceId::Blaze(BlazeSite::Bbmri)) {
            Ok(()) => {},
            Err(e) => {
                return Err(e);
            },
        }
        let ghost start = old(service_map).hooks@;
        let ghost eric_id = ServiceId::Focus(Network::Eric, BlazeSite::Bbmri);
        let ghost gbn_id = ServiceId::Focus(Network::Gbn, BlazeSite::Bbmri);
        let ghost first = *service_map;
        if eric {
            match Self::install_focus(service_map, Network::Eric) {
                Ok(()) => {},
                Err(e) => {
                    return Err(e);
                },
            }
        }
        let ghost mid = service_map.hooks@;
        let ghost second = *service_map;
        proof {
            assert(mid.subrange(0, start.len() as int) == start);
        }
        if gbn {
            match Self::install_focus(service_map, Network::Gbn) {
                Ok(()) => {},
                Err(e) => {
                    return Err(e);
                },
            }
        }
        proof {
            let end = service_map.hooks@;
            assert(end.subrange(0, mid.len() as int) == mid);
            assert(end.subrange(0, start.len() as int) == start);
            if eric && !first.registry@.contains_key(eric_id) {
                assert(end[start.len() as int] == mid[start.len() as int]);
            }
            assert(second.registry@.dom().contains(gbn_id) == first.registry@.dom().contains(gbn_id));
            assert(second.registry@.dom().contains(eric_id) == first.registry@.dom().contains(
                eric_id,
            ));
            if first.registry@.contains_key(eric_id) && eric {
                let hook = choose|hook: PostInstall|
                    tags_focus((eric_id, hook), eric_id) && #[trigger] ServiceValue::applied(
                        first.registry@[eric_id],
                        second.registry@[eric_id],
                        hook,
                    );
                assert(service_map.registry@[eric_id] == second.registry@[eric_id]);
                assert(ServiceValue::applied(
                    first.registry@[eric_id],
                    service_map.registry@[eric_id],
                    hook,
                ));
            }
            if first.registry@.contains_key(gbn_id) && gbn {
                let hook = choose|hook: PostInstall|
                    tags_focus((gbn_id, hook), gbn_id) && #[trigger] ServiceValue::applied(
                        second.registry@[gbn_id],
                        service_map.registry@[gbn_id],
                        hook,
                    );
                assert(second.registry@[gbn_id] == first.registry@[gbn_id]);
                assert(ServiceValue::applied(
                    first.registry@[gbn_id],
                    service_map.registry@[gbn_id],
                    hook,
                ));
            }
            assert forall|s: ServiceId|
                s != eric_id && s != gbn_id && first.registry@.contains_key(
                    s,
                ) implies #[trigger] service_map.registry@[s] == first.registry@[s] by {
                assert(second.registry@.dom().contains(s));
                assert(second.registry@[s] == first.registry@[s]);
            }
        }
        match sync {
            Some(conf) => {
                match service_map.install_with_config(
                    ServiceId::DirectorySync(BlazeSite::Bbmri),
                    ServiceConfig::DirectorySync(conf),
                ) {
                    Ok(()) => {},
                    Err(e) => {
                        return Err(e);
                    },
                }
            },
            None => {},
        }
        Ok(())
    }
}

impl BlazeProvider for Bbmri {
    open spec fn spec_balze_service_name() -> Seq<char> {
        "bbmri-blaze"@
    }

    open spec fn spec_treafik_exposure() -> Option<(Seq<char>, Seq<char>)> {
        Some(("/bbmri-localdatamanagement"@, "bbmri-blaze"@))
    }

    fn balze_service_name() -> (name: String) {
        String::from_str("bbmri-blaze")
    }

    fn treafik_exposure() -> (exposure: Option<BlazeTraefikConfig>) {
        Some(
            BlazeTraefikConfig {
                middleware_and_user_name: String::from_str("bbmri-blaze"),
                path: String::from_str("/bbmri-localdatamanagement"),
            },
        )
    }
}

/// The European network of BBMRI.
#[derive(Clone, Copy, Debug)]
pub struct Eric;

impl BrokerProvider for Eric {
    open spec fn spec_network_name() -> Seq<char> {
        "eric"@
    }

    open spec fn spec_broker_url() -> Seq<char> {
        "https://broker.bbmri.samply.de"@
    }

    fn network_name() -> (name: String) {
        String::from_str("eric")
    }

    fn broker_url() -> (url: String) {
        String::from_str("https://broker.bbmri.samply.de")
    }
}

/// The German network of BBMRI.
#[derive(Clone, Copy, Debug)]
pub struct Gbn;

impl BrokerProvider for Gbn {
    open spec fn spec_network_name() -> Seq<char> {
        "gbn"@
    }

    open spec fn spec_broker_url() -> Seq<char> {
        "https://broker.bbmri.de"@
    }

    fn network_name() -> (name: String) {
        String::from_str("gbn")
    }

    fn broker_url() -> (url: String) {
        String::from_str("https://broker.bbmri.de")
    }
}

} // verus!
