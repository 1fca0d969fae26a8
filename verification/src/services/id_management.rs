//! Pseudonymisation of patients.

use vstd::prelude::*;
use vstd::string::*;

use crate::config::{spec_minted, Config, LocalConf};
use crate::identity::{Network, PgOwner, ServiceId};
use crate::modules::ccp::CcpDefault;
use crate::ordered_map::OrderedMap;
use crate::secret::{spec_canonical_name, spec_placeholder};
use crate::services::beam::SECRET_LEN;
use crate::services::forward_proxy::ForwardProxy;
use crate::services::postgres::{PgConnectInfo, Postgres};
use crate::services::secret_sync::{
    spec_private_client_name, spec_redirect_urls, OidcClients, PrivateOidcClient,
};
use crate::utils::{
    capitalize_first_letter, join_texts, replace_text, spec_capitalize, spec_join, spec_replace,
    spec_split, split_text, texts_of,
};

verus! {

#[derive(Debug)]
pub struct IdManagementConfig {
    /// Used by the teiler for health checks.
    pub upload_apikey: String,
    pub read_apikey: String,
    pub central_patientlist_apikey: String,
    pub controlnumbergenerator_apikey: String,
    pub auth_cookie_secret: String,
    pub seeds: OrderedMap<(u32, u32, u32)>,
}

impl IdManagementConfig {
    /// A copy of the settings.
    pub fn duplicate(&self) -> (copy: Self)
        requires
            self.seeds.wf(),
        ensures
            copy.seeds.wf(),
            copy.seeds@ == self.seeds@,
            copy.upload_apikey == self.upload_apikey,
            copy.read_apikey == self.read_apikey,
            copy.central_patientlist_apikey == self.central_patientlist_apikey,
            copy.controlnumbergenerator_apikey == self.controlnumbergenerator_apikey,
            copy.auth_cookie_secret == self.auth_cookie_secret,
    {
        IdManagementConfig {
            upload_apikey: self.upload_apikey.clone(),
            read_apikey: self.read_apikey.clone(),
            central_patientlist_apikey: self.central_patientlist_apikey.clone(),
            controlnumbergenerator_apikey: self.controlnumbergenerator_apikey.clone(),
            auth_cookie_secret: self.auth_cookie_secret.clone(),
            seeds: self.seeds.duplicate(),
        }
    }
}

#[derive(Debug)]
pub struct IdManagement {
    pub id: String,
    pub hostname: String,
    pub oidc: PrivateOidcClient,
    pub oidc_group: String,
    pub conf: IdManagementConfig,
    pub local_apikey: String,
    pub db: PgConnectInfo,
    pub fw_proxy_url: String,
    pub fw_proxy_name: String,
}

/// The words of a site id, each with its first letter in upper case.
pub open spec fn spec_capitalized_words(site_id: Seq<char>) -> Seq<Seq<char>> {
    Seq::new(
        spec_split(site_id, '-').len(),
        |i: int| spec_capitalize(spec_split(site_id, '-')[i]),
    )
}

/// The name under which the central services know a site: the words of its
/// id with their first letters in upper case, a few of them spelled the old
/// way, written in one.
pub open spec fn spec_legacy_id_mapping(site_id: Seq<char>) -> Seq<char> {
    spec_replace(
        spec_replace(
            spec_replace(
                spec_replace(spec_join(spec_capitalized_words(site_id), " "@), "Tum"@, "TUM"@),
                "Lmu"@,
                "LMU"@,
            ),
            "Dktk Test"@,
            "Teststandort"@,
        ),
        " "@,
        ""@,
    )
}

pub fn legacy_id_mapping(site_id: &str) -> (id: String)
    ensures
        id@ == spec_legacy_id_mapping(site_id@),
{
    let parts = split_text(site_id, '-');
    let mut words: Vec<String> = Vec::new();
    let mut i: usize = 0;
    let ghost want = spec_capitalized_words(site_id@);
    while i < parts.len()
        invariant
            i <= parts@.len(),
            texts_of(parts@) == spec_split(site_id@, '-'),
            want == spec_capitalized_words(site_id@),
            texts_of(words@) == want.subrange(0, i as int),
        decreases parts@.len() - i,
    {
        let word = capitalize_first_letter(parts[i].as_str());
        let ghost before = texts_of(words@);
        proof {
            assert(texts_of(parts@)[i as int] == parts@[i as int]@);
        }
        words.push(word);
        proof {
            assert(texts_of(words@) == before.push(want[i as int]));
            assert(want.subrange(0, i + 1) == want.subrange(0, i as int).push(want[i as int]));
        }
        i += 1;
    }
    proof {
        assert(want.subrange(0, want.len() as int) == want);
    }
    let joined = join_texts(&words, " ");
    proof {
        reveal_strlit("Tum");
        reveal_strlit("Lmu");
        reveal_strlit("Dktk Test");
        reveal_strlit(" ");
    }
    let a = replace_text(joined.as_str(), "Tum", "TUM");
    let b = replace_text(a.as_str(), "Lmu", "LMU");
    let c = replace_text(b.as_str(), "Dktk Test", "Teststandort");
    replace_text(c.as_str(), " ", "")
}

impl IdManagement {
    pub open spec fn spec_service_name() -> Seq<char> {
        "ccp-id-management"@
    }

    pub fn service_name() -> (name: String)
        ensures
            name@ == Self::spec_service_name(),
    {
        String::from_str("ccp-id-management")
    }

    /// The name of the database of the service.
    pub fn pg_name() -> (name: String)
        ensures
            name@ == Postgres::spec_service_name(PgOwner::IdManagement),
    {
        Postgres::service_name(PgOwner::IdManagement)
    }

    /// The id management that `from_config` makes, and how it leaves what it was made
    /// from.
    pub open spec fn built(
        idm_conf: IdManagementConfig,
        conf: Config,
        fw_proxy: ForwardProxy,
        pg: Postgres,
        local_before: LocalConf,
        local_after: LocalConf,
        oidc_before: OidcClients,
        oidc_after: OidcClients,
        idm: Self,
    ) -> bool {
        &&& local_after.grown_from(local_before)
        &&& local_after.basic_auth_users == local_before.basic_auth_users
        &&& local_after.secrets() == spec_minted(
            local_before.secrets(),
            local_before.seed,
            Self::spec_service_name(),
            "apikey"@,
            SECRET_LEN,
        )
        &&& OidcClients::added(
            oidc_before.clients@,
            oidc_after.clients@,
            Network::Ccp,
            spec_redirect_urls("/oauth2-idm/callback"@, conf.hostname),
            true,
        )
        &&& idm.id@ == spec_legacy_id_mapping(conf.site_id@)
        &&& idm.hostname@ == conf.hostname.spec_text()
        &&& idm.conf == idm_conf
        &&& idm.fw_proxy_url@ == ForwardProxy::spec_url()
        &&& idm.fw_proxy_name@ == ForwardProxy::spec_service_name()
        &&& idm.oidc.client_id@ == conf.site_id@ + "-private"@
        &&& idm.oidc.private_client_name@ == spec_private_client_name(Network::Ccp)
        &&& idm.oidc_group@ == CcpDefault::spec_admin_group(conf.site_id@)
        &&& idm.db.host@ == Postgres::spec_service_name(pg.owner)
        &&& idm.db.user == pg.user
        &&& idm.db.db == pg.db
        &&& idm.db.password == pg.password
        &&& idm.local_apikey@ == spec_placeholder(
            spec_canonical_name(Self::spec_service_name(), "apikey"@),
        )
    }

    /// The id management of the site: it asks the provider for a private
    /// client and mints the key of its own interface.
    pub fn from_config(
        idm_conf: IdManagementConfig,
        conf: &Config,
        fw_proxy: &ForwardProxy,
        pg: &Postgres,
        local: &mut LocalConf,
        oidc: &mut OidcClients,
    ) -> (idm: Self)
        requires
            old(local).wf(),
        ensures
            Self::built(
                idm_conf,
                *conf,
                *fw_proxy,
                *pg,
                *old(local),
                *final(local),
                *old(oidc),
                *final(oidc),
                idm,
            ),
    {
        proof {
            reveal_strlit("apikey");
            ServiceId::IdManagement.lemma_service_name_plain();
        }
        let client = oidc.add_private_redirect_path(conf, Network::Ccp, "/oauth2-idm/callback");
        let local_apikey = local.generate_secret(SECRET_LEN, "ccp-id-management", "apikey");
        IdManagement {
            id: legacy_id_mapping(conf.site_id.as_str()),
            hostname: conf.hostname.text(),
            conf: idm_conf,
            fw_proxy_url: fw_proxy.get_url(),
            fw_proxy_name: ForwardProxy::service_name(),
            oidc: client,
            oidc_group: CcpDefault::admin_group(conf),
            db: pg.connect_info(),
            local_apikey,
        }
    }
}

} // verus!
