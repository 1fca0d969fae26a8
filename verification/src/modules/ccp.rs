//! The CCP network.

use vstd::prelude::*;
use vstd::string::*;

use crate::services::beam::BrokerProvider;
use crate::services::blaze::{BlazeProvider, BlazeTraefikConfig};
use crate::services::id_management::IdManagementConfig;
use crate::services::secret_sync::OidcProvider;
use crate::config::Config;
use crate::identity::{BlazeSite, Network, ServiceId};
use crate::modules::Module;
use crate::services::catalog::{PostInstall, ServiceConfig, ServiceValue};
use crate::registry::held;
use crate::services::{install_edges, only_touched, EngineError, ServiceMap};
use crate::utils::{capitalize_first_letter, concat2, concat3, spec_capitalize};

verus! {

#[derive(Debug)]
pub struct CcpConfig {
    pub id_manager: Option<IdManagementConfig>,
    /// Whether the site takes part in DataSHIELD.
    pub datashield: bool,
}

/// The CCP network with the services it runs by default.
#[derive(Clone, Copy, Debug)]
pub struct CcpDefault;

impl CcpDefault {
    /// The group of the users of a site.
    pub open spec fn spec_user_group(site_id: Seq<char>) -> Seq<char> {
        "DKTK_CCP_"@ + spec_capitalize(site_id)
    }

    /// The group of the administrators of a site.
    pub open spec fn spec_admin_group(site_id: Seq<char>) -> Seq<char> {
        "DKTK_CCP_"@ + spec_capitalize(site_id) + "_Verwalter"@
    }

    pub fn user_group(conf: &Config) -> (group: String)
        ensures
            group@ == Self::spec_user_group(conf.site_id@),
    {
        concat2("DKTK_CCP_", capitalize_first_letter(conf.site_id.as_str()).as_str())
    }

    pub fn admin_group(conf: &Config) -> (group: String)
        ensures
            group@ == Self::spec_admin_group(conf.site_id@),
    {
        concat3(
            "DKTK_CCP_",
            capitalize_first_letter(conf.site_id.as_str()).as_str(),
            "_Verwalter",
        )
    }
}

impl Module for CcpDefault {
    open spec fn installs(
        &self,
        before: ServiceMap,
        after: ServiceMap,
        r: Result<(), EngineError>,
    ) -> bool {
        &&& r is Ok
        &&& after.local_conf == before.local_conf
        &&& after.oidc == before.oidc
        &&& match before.config.ccp {
            None => after == before,
            Some(ccp) => {
                let focus = ServiceId::Focus(Network::Ccp, BlazeSite::Ccp);
                let idm_id = ServiceId::IdManagement;
                &&& after.graph@ == before.graph@ + install_edges(focus) + if ccp.id_manager
                    is Some {
                    install_edges(idm_id)
                } else {
                    Seq::empty()
                }
                &&& held(after.constructors@, focus) == Some(ServiceConfig::Default)
                &&& match ccp.id_manager {
                    Some(idm) => {
                        &&& after.constructors@.contains_key(idm_id)
                        &&& after.constructors@[idm_id] matches ServiceConfig::IdManagement(copy)
                        &&& copy.upload_apikey == idm.upload_apikey
                        &&& copy.read_apikey == idm.read_apikey
                        &&& copy.central_patientlist_apikey == idm.central_patientlist_apikey
                        &&& copy.controlnumbergenerator_apikey
                            == idm.controlnumbergenerator_apikey
                        &&& copy.auth_cookie_secret == idm.auth_cookie_secret
                        &&& copy.seeds@ == idm.seeds@
                    },
                    None => held(after.constructors@, idm_id) == held(
                        before.constructors@,
                        idm_id,
                    ),
                }
                &&& forall|id: ServiceId|
                    id != focus && id != idm_id ==> held(after.constructors@, id) == held(
                        before.constructors@,
                        id,
                    )
                &&& !before.registry@.contains_key(focus) ==> {
                    &&& after.registry == before.registry
                    &&& after.hooks@.len() == before.hooks@.len() + 1
                    &&& after.hooks@.subrange(0, before.hooks@.len() as int) == before.hooks@
                    &&& after.hooks@.last().0 == focus
                    &&& after.hooks@.last().1 matches PostInstall::FocusTag(tag)
                    &&& tag@ == "main-dktk"@
                }
                &&& before.registry@.contains_key(focus) ==> {
                    &&& after.hooks == before.hooks
                    &&& only_touched(before.registry, after.registry, focus)
                    &&& exists|hook: PostInstall|
                        (hook matches PostInstall::FocusTag(tag) && tag@ == "main-dktk"@)
                            && #[trigger] ServiceValue::applied(
                            before.registry@[focus],
                            after.registry@[focus],
                            hook,
                        )
                }
            },
        }
    }

    /// Where the document has a section for the network: installs the focus
    /// of the network on the network's own store, with the image `main-dktk`,
    /// and the id management if the section asks for it.
    fn install(&self, service_map: &mut ServiceMap) -> (r: Result<(), EngineError>) {
        let idm = match &service_map.config.ccp {
            None => {
                return Ok(());
            },
            Some(ccp) => match &ccp.id_manager {
                Some(idm) => Some(idm.duplicate()),
                None => None,
            },
        };
        let focus = ServiceId::Focus(Network::Ccp, BlazeSite::Ccp);
        match service_map.install_default(focus) {
            Ok(()) => {},
            Err(e) => {
                return Err(e);
            },
        }
        let hook = PostInstall::FocusTag(String::from_str("main-dktk"));
        let ghost ran = hook;
        match service_map.post_install(focus, hook) {
            Ok(()) => {},
            Err(e) => {
                return Err(e);
            },
        }
        let ghost hooked = service_map.hooks@;
        let ghost once = service_map.graph@;
        match idm {
            Some(idm) => {
                match service_map.install_with_config(
                    ServiceId::IdManagement,
                    ServiceConfig::IdManagement(idm),
                ) {
                    Ok(()) => {},
                    Err(e) => {
                        return Err(e);
                    },
                }
            },
            None => {
                assert(once == once + Seq::empty());
            },
        }
        proof {
            if !old(service_map).registry@.contains_key(focus) {
                assert(hooked.subrange(0, old(service_map).hooks@.len() as int) == old(service_map).hooks@);
            } else {
                assert(ServiceValue::applied(
                    old(service_map).registry@[focus],
                    service_map.registry@[focus],
                    ran,
                ));
            }
        }
        Ok(())
    }
}

impl BlazeProvider for CcpDefault {
    open spec fn spec_balze_service_name() -> Seq<char> {
        "ccp-blaze"@
    }

    open spec fn spec_treafik_exposure() -> Option<(Seq<char>, Seq<char>)> {
        Some(("/ccp-localdatamanagement"@, "ccp-blaze"@))
    }

    fn balze_service_name() -> (name: String) {
        String::from_str("ccp-blaze")
    }

    fn treafik_exposure() -> (exposure: Option<BlazeTraefikConfig>) {
        Some(
            BlazeTraefikConfig {
                middleware_and_user_name: String::from_str("ccp-blaze"),
                path: String::from_str("/ccp-localdatamanagement"),
            },
        )
    }
}

impl BrokerProvider for CcpDefault {
    open spec fn spec_network_name() -> Seq<char> {
        "ccp"@
    }

    open spec fn spec_broker_url() -> Seq<char> {
        "https://broker.ccp-it.dktk.dkfz.de"@
    }

    fn network_name() -> (name: String) {
        String::from_str("ccp")
    }

    fn broker_url() -> (url: String) {
        String::from_str("https://broker.ccp-it.dktk.dkfz.de")
    }
}

impl OidcProvider for CcpDefault {
    type BeamProvider = CcpDefault;

    open spec fn spec_issuer_url() -> Seq<char> {
        "https://login.verbis.dkfz.de/realms/test-realm-01"@
    }

    fn oidc_provider_id() -> (id: Option<String>) {
        match CcpDefault::broker_id() {
            Some(broker) => Some(
                concat2("secret-sync-central.central-secret-sync.", broker.as_str()),
            ),
            None => None,
        }
    }

    fn issuer_url() -> (url: String) {
        String::from_str("https://login.verbis.dkfz.de/realms/test-realm-01")
    }
}

} // verus!
