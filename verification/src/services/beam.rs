//! The proxy through which the services of a site talk to a broker network.

use vstd::prelude::*;
use vstd::string::*;

use crate::address::{address, spec_address};
use crate::config::{spec_join_path, spec_minted, Config, LocalConf};
use crate::identity::Network;
use crate::secret::{is_secret, spec_canonical_name, spec_mint, spec_placeholder};
use crate::services::forward_proxy::ForwardProxy;
use crate::utils::{concat2, concat3, is_plain};

verus! {

/// The host of a URL as `url::Url::parse` and `Url::host` give it, printed;
/// nothing where the text is no URL or the URL has no host.
pub uninterp spec fn url_host_text(url: Seq<char>) -> Option<Seq<char>>;

/// Parses `url` with `url::Url::parse`, takes `Url::host` and prints it. The
/// result depends on the text alone. A text that is no absolute URL, or a URL
/// without a host, gives nothing.
#[verifier::external_body]
pub(crate) fn url_host(url: &str) -> (host: Option<String>)
    ensures
        match host {
            Some(h) => url_host_text(url@) == Some(h@),
            None => url_host_text(url@) is None,
        },
{
    url::Url::parse(url).ok()?.host().map(|h| h.to_string())
}

/// What is known of a broker network.
pub trait BrokerProvider {
    spec fn spec_network_name() -> Seq<char>;

    spec fn spec_broker_url() -> Seq<char>;

    /// The short name of the network, a plain name.
    fn network_name() -> (name: String)
        ensures
            name@ == Self::spec_network_name(),
    ;

    /// The URL of the network's broker.
    fn broker_url() -> (url: String)
        ensures
            url@ == Self::spec_broker_url(),
    ;

    /// The id of the broker: the host of its URL.
    fn broker_id() -> (id: Option<String>)
        ensures
            match id {
                Some(h) => url_host_text(Self::spec_broker_url()) == Some(h@),
                None => url_host_text(Self::spec_broker_url()) is None,
            },
    {
        let url = Self::broker_url();
        url_host(url.as_str())
    }
}

/// The id and the secret under which an app is known to the beam proxy.
#[derive(Debug)]
pub struct BeamAppInfos {
    pub id: String,
    pub secret: String,
}

/// The beam proxy of one network.
#[derive(Debug)]
pub struct BeamProxy {
    pub network: Network,
    pub proxy_id: String,
    pub priv_key: String,
    pub trusted_ca_certs: String,
    /// The apps that talk through this proxy, each with the placeholder of
    /// its key, in the order in which they registered.
    pub app_keys: Vec<(String, String)>,
    pub fw_proxy_url: String,
}

/// The name under which the key of the app `app` is minted.
pub open spec fn spec_app_key_name(app: Seq<char>) -> Seq<char> {
    app + "_key"@
}

/// The length of the secrets minted for apps and services.
pub const SECRET_LEN: usize = 10;

impl BeamProxy {
    pub open spec fn spec_service_name(network: Network) -> Seq<char> {
        network.spec_name() + "-beam-proxy"@
    }

    pub fn service_name(network: Network) -> (name: String)
        ensures
            name@ == Self::spec_service_name(network),
    {
        let n = network.name();
        concat2(n.as_str(), "-beam-proxy")
    }

    pub open spec fn spec_url(network: Network) -> Seq<char> {
        spec_address("http://"@ + Self::spec_service_name(network) + ":8081"@)
    }

    pub fn get_url(&self) -> (url: String)
        ensures
            url@ == Self::spec_url(self.network),
    {
        let name = Self::service_name(self.network);
        address(concat3("http://", name.as_str(), ":8081").as_str())
    }

    /// The proxy that `from_config` makes, and how it leaves what it was made
    /// from.
    pub open spec fn built(
        network: Network,
        broker_id: Seq<char>,
        conf: Config,
        fw_proxy: ForwardProxy,
        proxy: Self,
    ) -> bool {
        &&& proxy.network == network
        &&& proxy.proxy_id@ == conf.site_id@ + "."@ + broker_id
        &&& proxy.priv_key@ == spec_join_path(
            conf.path@,
            "pki/"@ + conf.site_id@ + ".priv.pem"@,
        )
        &&& proxy.trusted_ca_certs@ == spec_join_path(conf.path@, "trusted-ca-certs"@)
        &&& proxy.app_keys@.len() == 0
        &&& proxy.fw_proxy_url@ == ForwardProxy::spec_url()
    }

    /// The proxy of `network` at the site `conf`, where `broker_id` is the id
    /// of the network's broker.
    pub fn from_config(
        network: Network,
        broker_id: &str,
        conf: &Config,
        fw_proxy: &ForwardProxy,
    ) -> (proxy: Self)
        ensures
            Self::built(network, broker_id@, *conf, *fw_proxy, proxy),
    {
        let key_file = concat3("pki/", conf.site_id.as_str(), ".priv.pem");
        BeamProxy {
            network,
            priv_key: crate::config::join_path(conf.path.as_str(), key_file.as_str()),
            proxy_id: concat3(conf.site_id.as_str(), ".", broker_id),
            app_keys: Vec::new(),
            fw_proxy_url: fw_proxy.get_url(),
            trusted_ca_certs: conf.trusted_ca_certs(),
        }
    }

    /// Whether the app `app` has registered with this proxy.
    pub open spec fn knows(apps: Seq<(String, String)>, app: Seq<char>) -> bool {
        exists|i: int| 0 <= i < apps.len() && (#[trigger] apps[i]).0@ == app
    }

    /// How the proxy stands after the app `app` registered with it and got
    /// the placeholder `secret` for its key: an app that was known is left as
    /// it was, a new one comes last.
    pub open spec fn registered(
        before: BeamProxy,
        after: BeamProxy,
        app: Seq<char>,
        secret: Seq<char>,
    ) -> bool {
        &&& after.network == before.network
        &&& after.proxy_id == before.proxy_id
        &&& after.priv_key == before.priv_key
        &&& after.trusted_ca_certs == before.trusted_ca_certs
        &&& after.fw_proxy_url == before.fw_proxy_url
        &&& if Self::knows(before.app_keys@, app) {
            after.app_keys@ == before.app_keys@
        } else {
            &&& after.app_keys@.len() == before.app_keys@.len() + 1
            &&& after.app_keys@.drop_last() == before.app_keys@
            &&& after.app_keys@.last().0@ == app
            &&& after.app_keys@.last().1@ == secret
        }
    }

    fn has_app(&self, app: &str) -> (b: bool)
        ensures
            b == Self::knows(self.app_keys@, app@),
    {
        let mut i: usize = 0;
        while i < self.app_keys.len()
            invariant
                i <= self.app_keys@.len(),
                forall|j: int| 0 <= j < i ==> (#[trigger] self.app_keys@[j]).0@ != app@,
            decreases self.app_keys@.len() - i,
        {
            if crate::utils::same_text(self.app_keys[i].0.as_str(), app) {
                return true;
            }
            i += 1;
        }
        false
    }

    /// Registers the app `app` with this proxy: mints its key and hands back
    /// its beam id together with the placeholder of the key. An app that
    /// registers again gets the same answer.
    pub fn add_service(&mut self, local: &mut LocalConf, app: &str) -> (infos: BeamAppInfos)
        requires
            old(local).wf(),
        ensures
            final(local).wf(),
            infos.id@ == app@ + "."@ + old(self).proxy_id@,
            infos.secret@ == spec_placeholder(
                spec_canonical_name(
                    Self::spec_service_name(old(self).network),
                    spec_app_key_name(app@),
                ),
            ),
            final(local).secrets() == spec_minted(
                old(local).secrets(),
                old(local).seed,
                Self::spec_service_name(old(self).network),
                spec_app_key_name(app@),
                SECRET_LEN,
            ),
            is_secret(
                spec_mint(
                    old(local).seed,
                    spec_canonical_name(
                        Self::spec_service_name(old(self).network),
                        spec_app_key_name(app@),
                    ),
                    SECRET_LEN,
                ),
                SECRET_LEN,
            ),
            final(local).seed == old(local).seed,
            final(local).oidc == old(local).oidc,
            final(local).basic_auth_users == old(local).basic_auth_users,
            old(local).env_ready() && is_plain(app@) ==> final(local).env_ready(),
            is_plain(app@) ==> final(local).grown_from(*old(local)),
            Self::registered(*old(self), *final(self), app@, infos.secret@),
    {
        let name = Self::service_name(self.network);
        let key_name = concat2(app, "_key");
        proof {
            self.network.lemma_name_plain();
            lemma_plain_parts(self.network.spec_name(), app@);
        }
        let secret = local.generate_secret(SECRET_LEN, name.as_str(), key_name.as_str());
        if !self.has_app(app) {
            self.app_keys.push((String::from_str(app), secret.clone()));
            assert(self.app_keys@.drop_last() == old(self).app_keys@);
        }
        BeamAppInfos { id: concat3(app, ".", self.proxy_id.as_str()), secret }
    }
}

proof fn lemma_plain_parts(network: Seq<char>, app: Seq<char>)
    requires
        is_plain(network),
    ensures
        is_plain(network + "-beam-proxy"@),
        is_plain(app) ==> is_plain(spec_app_key_name(app)),
{
    reveal_strlit("-beam-proxy");
    reveal_strlit("_key");
    let a = network + "-beam-proxy"@;
    assert forall|i: int| 0 <= i < a.len() implies crate::utils::is_plain_char(#[trigger] a[i]) by {
        if i < network.len() {
            assert(a[i] == network[i]);
        }
    }
    if is_plain(app) {
        let b = spec_app_key_name(app);
        assert forall|i: int| 0 <= i < b.len() implies crate::utils::is_plain_char(
            #[trigger] b[i],
        ) by {
            if i < app.len() {
                assert(b[i] == app[i]);
            }
        }
    }
}

} // verus!
