//! The DataSHIELD installation of the CCP network.

use vstd::prelude::*;
use vstd::string::*;

use crate::config::{join_path, spec_join_path, spec_minted, Config, LocalConf};
use crate::identity::{Network, ServiceId};
use crate::modules::ccp::CcpDefault;
use crate::secret::{spec_canonical_name, spec_placeholder};
use crate::services::beam::{spec_app_key_name, BeamAppInfos, BeamProxy, SECRET_LEN};
use crate::services::beam_connect::{BeamConnect, LocalTarget};
use crate::services::forward_proxy::ForwardProxy;
use crate::services::postgres::{PgConnectInfo, Postgres};
use crate::services::secret_sync::{
    spec_private_client_name, spec_redirect_urls, OidcClients, PrivateOidcClient,
};
use crate::utils::concat2;

verus! {

#[derive(Debug)]
pub struct DataShield {
    pub tm_beam: BeamAppInfos,
    pub tm_pw: String,
    pub host: String,
    pub opal_pw: String,
    pub opal_key_path: String,
    pub opal_cert_path: String,
    pub exporter_password: Option<String>,
    pub fw_proxy_url: String,
    pub db: PgConnectInfo,
    pub oidc: PrivateOidcClient,
    pub oidc_admin_group: String,
}

impl DataShield {
    pub open spec fn spec_service_name() -> Seq<char> {
        "ccp-datashield"@
    }

    pub fn service_name() -> (name: String)
        ensures
            name@ == Self::spec_service_name(),
    {
        String::from_str("ccp-datashield")
    }

    pub fn opal_host(&self) -> (host: String)
        ensures
            host@ == "ccp-opal"@,
    {
        String::from_str("ccp-opal")
    }

    /// Whether the certificate of Opal has to be made: it has unless both
    /// its key and its certificate exist.
    pub fn needs_certificate(key_exists: bool, cert_exists: bool) -> (b: bool)
        ensures
            b == !(key_exists && cert_exists),
    {
        !(key_exists && cert_exists)
    }

    /// The installation that `from_config` makes, and how it leaves what it was made
    /// from.
    pub open spec fn built(
        conf: Config,
        broker_id: Seq<char>,
        fw_proxy: ForwardProxy,
        pg: Postgres,
        beam_proxy_before: BeamProxy,
        beam_proxy_after: BeamProxy,
        beam_connect_before: BeamConnect,
        beam_connect_after: BeamConnect,
        local_before: LocalConf,
        local_after: LocalConf,
        oidc_before: OidcClients,
        oidc_after: OidcClients,
        ds: Self,
    ) -> bool {
        &&& local_after.grown_from(local_before)
        &&& local_after.basic_auth_users == local_before.basic_auth_users
        &&& local_after.secrets() == spec_minted(
            spec_minted(
                spec_minted(
                    local_before.secrets(),
                    local_before.seed,
                    BeamProxy::spec_service_name(beam_proxy_before.network),
                    spec_app_key_name("token-manager"@),
                    SECRET_LEN,
                ),
                local_before.seed,
                Self::spec_service_name(),
                "token-manager"@,
                SECRET_LEN,
            ),
            local_before.seed,
            Self::spec_service_name(),
            "opal-admin"@,
            SECRET_LEN,
        )
        &&& BeamProxy::registered(
            beam_proxy_before,
            beam_proxy_after,
            "token-manager"@,
            ds.tm_beam.secret@,
        )
        &&& ds.tm_beam.secret@ == spec_placeholder(
            spec_canonical_name(
                BeamProxy::spec_service_name(beam_proxy_before.network),
                spec_app_key_name("token-manager"@),
            ),
        )
        &&& beam_connect_after == (BeamConnect {
            local_targets: beam_connect_after.local_targets,
            ..beam_connect_before
        })
        &&& beam_connect_after.local_targets@.len() == beam_connect_before.local_targets@.len() + 1
        &&& beam_connect_after.local_targets@.drop_last() == beam_connect_before.local_targets@
        &&& ({
            let target = beam_connect_after.local_targets@.last();
            &&& target.external@ == conf.site_id@ + ":443"@
            &&& target.internal@ == "ccp-opal:8443"@
            &&& target.allowed@.len() == 1
            &&& target.allowed@[0]@ == "central-ds-orchestrator."@ + broker_id
            &&& !target.force_https
            &&& !target.reset_host
            &&& target.external_path is None
        })
        &&& OidcClients::added(
            oidc_before.clients@,
            oidc_after.clients@,
            Network::Ccp,
            spec_redirect_urls("/opal/*"@, conf.hostname),
            true,
        )
        &&& ds.tm_beam.id@ == "token-manager"@ + "."@ + beam_proxy_before.proxy_id@
        &&& ds.tm_pw@ == spec_placeholder(
            spec_canonical_name(Self::spec_service_name(), "token-manager"@),
        )
        &&& ds.opal_pw@ == spec_placeholder(
            spec_canonical_name(Self::spec_service_name(), "opal-admin"@),
        )
        &&& ds.host@ == conf.hostname.spec_text()
        &&& ds.opal_key_path@ == spec_join_path(conf.path@, "pki/ccp-opal.priv.pem"@)
        &&& ds.opal_cert_path@ == spec_join_path(
            spec_join_path(conf.path@, "trusted-ca-certs"@),
            "opal-cert.pem"@,
        )
        &&& ds.exporter_password is None
        &&& ds.fw_proxy_url@ == ForwardProxy::spec_url()
        &&& ds.db.host@ == Postgres::spec_service_name(pg.owner)
        &&& ds.db.user == pg.user
        &&& ds.db.db == pg.db
        &&& ds.db.password == pg.password
        &&& ds.oidc.client_id@ == conf.site_id@ + "-private"@
        &&& ds.oidc.private_client_name@ == spec_private_client_name(Network::Ccp)
        &&& ds.oidc_admin_group@ == CcpDefault::spec_admin_group(conf.site_id@)
    }

    /// The DataSHIELD installation of the site: it shows Opal to the central
    /// orchestrator through the connector, registers the token manager with
    /// the beam proxy, asks the provider for a private client and mints the
    /// passwords of the token manager and of Opal. `broker_id` is the id of
    /// the network's broker.
    pub fn from_config(
        conf: &Config,
        broker_id: &str,
        fw_proxy: &ForwardProxy,
        pg: &Postgres,
        beam_proxy: &mut BeamProxy,
        beam_connect: &mut BeamConnect,
        local: &mut LocalConf,
        oidc: &mut OidcClients,
    ) -> (ds: Self)
        requires
            old(local).wf(),
        ensures
            Self::built(
                *conf,
                broker_id@,
                *fw_proxy,
                *pg,
                *old(beam_proxy),
                *final(beam_proxy),
                *old(beam_connect),
                *final(beam_connect),
                *old(local),
                *final(local),
                *old(oidc),
                *final(oidc),
                ds,
            ),
    {
        let mut allowed: Vec<String> = Vec::new();
        allowed.push(concat2("central-ds-orchestrator.", broker_id));
        beam_connect.add_local_target(
            LocalTarget::new(
                concat2(conf.site_id.as_str(), ":443"),
                String::from_str("ccp-opal:8443"),
                allowed,
            ),
        );
        assert(beam_connect.local_targets@.drop_last() == old(beam_connect).local_targets@);
        let key_path = join_path(conf.path.as_str(), "pki/ccp-opal.priv.pem");
        let cert_path = join_path(conf.trusted_ca_certs().as_str(), "opal-cert.pem");
        proof {
            reveal_strlit("token-manager");
            reveal_strlit("opal-admin");
            ServiceId::DataShield.lemma_service_name_plain();
        }
        let tm_beam = beam_proxy.add_service(local, "token-manager");
        let client = oidc.add_private_redirect_path(conf, Network::Ccp, "/opal/*");
        let tm_pw = local.generate_secret(SECRET_LEN, "ccp-datashield", "token-manager");
        let opal_pw = local.generate_secret(SECRET_LEN, "ccp-datashield", "opal-admin");
        DataShield {
            fw_proxy_url: fw_proxy.get_url(),
            tm_beam,
            oidc: client,
            db: pg.connect_info(),
            exporter_password: None,
            tm_pw,
            opal_pw,
            oidc_admin_group: CcpDefault::admin_group(conf),
            host: conf.hostname.text(),
            opal_key_path: key_path,
            opal_cert_path: cert_path,
        }
    }
}

} // verus!
