//! The teiler, the entry page of the CCP network.

use vstd::prelude::*;
use vstd::string::*;

use crate::config::{spec_minted, Config, LocalConf};
use crate::identity::{Network, ServiceId};
use crate::modules::ccp::CcpDefault;
use crate::services::beam::SECRET_LEN;
use crate::services::exporter::Exporter;
use crate::services::forward_proxy::ForwardProxy;
use crate::services::secret_sync::{spec_redirect_urls, OidcClients, PublicOidcClient};

verus! {

#[derive(Debug)]
pub struct TeilerConfig {
    pub language: String,
}

pub fn default_language() -> (language: String)
    ensures
        language@ == "DE"@,
{
    String::from_str("DE")
}

#[derive(Debug)]
pub struct Teiler {
    pub oidc_client: PublicOidcClient,
    pub conf: TeilerConfig,
    pub exporter_api_key: String,
    pub project: String,
    pub mtba_enabled: bool,
    pub datashield_enabled: bool,
    pub idm_upload_apikey: Option<String>,
    pub forward_proxy_url: String,
    pub oidc_user_group: String,
    pub oidc_admin_group: String,
}

impl Teiler {
    pub open spec fn spec_service_name() -> Seq<char> {
        "ccp-teiler"@
    }

    pub fn service_name() -> (name: String)
        ensures
            name@ == Self::spec_service_name(),
    {
        String::from_str("ccp-teiler")
    }

    /// The teiler that `from_config` makes, and how it leaves what it was made
    /// from.
    pub open spec fn built(
        conf: TeilerConfig,
        global_conf: Config,
        fw_proxy: ForwardProxy,
        local_before: LocalConf,
        local_after: LocalConf,
        oidc_before: OidcClients,
        oidc_after: OidcClients,
        teiler: Self,
    ) -> bool {
        &&& local_after.grown_from(local_before)
        &&& local_after.basic_auth_users == local_before.basic_auth_users
        &&& local_after.secrets() == spec_minted(
            local_before.secrets(),
            local_before.seed,
            Exporter::spec_service_name(),
            "api-key"@,
            SECRET_LEN,
        )
        &&& OidcClients::added(
            oidc_before.clients@,
            oidc_after.clients@,
            Network::Ccp,
            spec_redirect_urls("/ccp-teiler"@, global_conf.hostname),
            false,
        )
        &&& teiler.conf == conf
        &&& teiler.oidc_client.client_id@ == global_conf.site_id@ + "-public"@
        &&& teiler.project@ == "ccp"@
        &&& teiler.forward_proxy_url@ == ForwardProxy::spec_url()
        &&& teiler.exporter_api_key@ == Exporter::spec_api_key()
        &&& !teiler.mtba_enabled
        &&& teiler.datashield_enabled == (global_conf.ccp matches Some(c) && c.datashield)
        &&& teiler.idm_upload_apikey == match global_conf.ccp {
            Some(c) => match c.id_manager {
                Some(idm) => Some(idm.upload_apikey),
                None => None,
            },
            None => None,
        }
        &&& teiler.oidc_user_group@ == CcpDefault::spec_user_group(global_conf.site_id@)
        &&& teiler.oidc_admin_group@ == CcpDefault::spec_admin_group(global_conf.site_id@)
    }

    /// The teiler of the site: it asks the provider for a public client that
    /// may redirect to its own path, and holds the key of the exporter.
    pub fn from_config(
        conf: TeilerConfig,
        global_conf: &Config,
        fw_proxy: &ForwardProxy,
        local: &mut LocalConf,
        oidc: &mut OidcClients,
    ) -> (teiler: Self)
        requires
            old(local).wf(),
        ensures
            Self::built(
                conf,
                *global_conf,
                *fw_proxy,
                *old(local),
                *final(local),
                *old(oidc),
                *final(oidc),
                teiler,
            ),
    {
        proof {
            reveal_strlit("api-key");
            ServiceId::Exporter.lemma_service_name_plain();
        }
        let client = oidc.add_public_redirect_path(global_conf, Network::Ccp, "/ccp-teiler");
        let exporter_api_key = local.generate_secret(SECRET_LEN, "ccp-exporter", "api-key");
        let datashield_enabled = match &global_conf.ccp {
            Some(c) => c.datashield,
            None => false,
        };
        let idm_upload_apikey = match &global_conf.ccp {
            Some(c) => match &c.id_manager {
                Some(idm) => Some(idm.upload_apikey.clone()),
                None => None,
            },
            None => None,
        };
        Teiler {
            oidc_client: client,
            project: String::from_str("ccp"),
            conf,
            forward_proxy_url: fw_proxy.get_url(),
            exporter_api_key,
            mtba_enabled: false,
            datashield_enabled,
            idm_upload_apikey,
            oidc_user_group: CcpDefault::user_group(global_conf),
            oidc_admin_group: CcpDefault::admin_group(global_conf),
        }
    }
}

} // verus!
