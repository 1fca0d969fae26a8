//! The connector that tunnels HTTP through the broker.

use vstd::prelude::*;
use vstd::string::*;

use crate::config::{spec_join_path, spec_minted, Config, LocalConf};
use crate::identity::Network;
use crate::secret::{spec_canonical_name, spec_placeholder};
use crate::services::beam::{spec_app_key_name, BeamAppInfos, BeamProxy, SECRET_LEN};
use crate::utils::concat2;

verus! {

/// A service of this site that may be reached through the connector.
#[derive(Debug)]
pub struct LocalTarget {
    /// The hostname used by the service talking to this one.
    pub external: String,
    /// The hostname used internally to connect.
    pub internal: String,
    /// The app or proxy ids that are allowed to connect to this target.
    pub allowed: Vec<String>,
    /// Forces the local connection to use HTTPS.
    pub force_https: bool,
    /// Drops the host header of the incoming request.
    pub reset_host: bool,
    /// A pattern that the path of the incoming request must match.
    pub external_path: Option<String>,
}

/// A service of another site that is reached through the connector.
#[derive(Debug)]
pub struct CentralTarget {
    /// The hostname that is mapped to the connector.
    pub virtualhost: String,
    /// The beam app id of the destination.
    pub beam_connect: String,
}

/// The rows of a document as texts: each row a list of keys and values.
pub open spec fn rows_text(rows: Seq<Vec<(String, String)>>) -> Seq<Seq<(Seq<char>, Seq<char>)>> {
    Seq::new(
        rows.len(),
        |i: int| Seq::new(rows[i]@.len(), |j: int| (rows[i]@[j].0@, rows[i]@[j].1@)),
    )
}

/// The JSON text of the object that binds `key` to the list of the objects
/// `rows`, each of which binds its keys to its texts, as
/// `serde_json::to_string_pretty` writes it; nothing where it fails.
pub uninterp spec fn json_pretty(key: Seq<char>, rows: Seq<Seq<(Seq<char>, Seq<char>)>>) -> Option<
    Seq<char>,
>;

/// Puts the rows into values of `serde_json` (each row a `Map` of
/// `Value::String`s, the rows a `Value::Array` under `key` in a `Map`) and
/// writes the document with `serde_json::to_string_pretty`. The contract
/// claims only that the outcome is a function of the key and the rows.
#[verifier::external_body]
pub(crate) fn json_pretty_text(key: &str, rows: &Vec<Vec<(String, String)>>) -> (text: Option<String>)
    ensures
        match text {
            Some(t) => json_pretty(key@, rows_text(rows@)) == Some(t@),
            None => json_pretty(key@, rows_text(rows@)) is None,
        },
{
    let objects: Vec<serde_json::Value> = rows
        .iter()
        .map(|row| row.iter().map(|(k, v)| (k.clone(), serde_json::Value::String(v.clone()))).collect())
        .map(serde_json::Value::Object)
        .collect();
    let mut doc = serde_json::Map::new();
    doc.insert(key.to_string(), serde_json::Value::Array(objects));
    serde_json::to_string_pretty(&serde_json::Value::Object(doc)).ok()
}

/// What the connector is told of a central target: its virtual host,
/// under three keys, and the connector that leads to it.
pub open spec fn spec_site_row(target: CentralTarget) -> Seq<(Seq<char>, Seq<char>)> {
    seq![
        ("id"@, target.virtualhost@),
        ("name"@, target.virtualhost@),
        ("virtualhost"@, target.virtualhost@),
        ("beamconnect"@, target.beam_connect@),
    ]
}

/// What the connector is told of the central targets, one row for each.
pub open spec fn spec_site_rows(targets: Seq<CentralTarget>) -> Seq<Seq<(Seq<char>, Seq<char>)>> {
    Seq::new(targets.len(), |i: int| spec_site_row(targets[i]))
}

/// The rows that tell the connector of the central targets.
pub fn site_rows(targets: &Vec<CentralTarget>) -> (rows: Vec<Vec<(String, String)>>)
    ensures
        rows_text(rows@) == spec_site_rows(targets@),
{
    let mut rows: Vec<Vec<(String, String)>> = Vec::new();
    let mut i: usize = 0;
    while i < targets.len()
        invariant
            i <= targets@.len(),
            rows@.len() == i,
            forall|k: int| 0 <= k < i ==> rows_text(rows@)[k] == spec_site_row(targets@[k]),
        decreases targets@.len() - i,
    {
        let target = &targets[i];
        let mut row: Vec<(String, String)> = Vec::new();
        row.push((String::from_str("id"), target.virtualhost.clone()));
        row.push((String::from_str("name"), target.virtualhost.clone()));
        row.push((String::from_str("virtualhost"), target.virtualhost.clone()));
        row.push((String::from_str("beamconnect"), target.beam_connect.clone()));
        let ghost before = rows@;
        rows.push(row);
        proof {
            assert(rows_text(rows@)[i as int] =~= spec_site_row(targets@[i as int]));
            assert forall|k: int| 0 <= k < i implies rows_text(rows@)[k] == spec_site_row(
                targets@[k],
            ) by {
                assert(rows@[k] == before[k]);
                assert(rows_text(rows@)[k] =~= rows_text(before)[k]);
            }
        }
        i += 1;
    }
    proof {
        assert(rows_text(rows@) =~= spec_site_rows(targets@));
    }
    rows
}

/// The central targets as the connector reads them: a JSON document that
/// lists them as its `sites`.
pub fn format_central_targets(targets: &Vec<CentralTarget>) -> (text: Option<String>)
    ensures
        match text {
            Some(t) => json_pretty("sites"@, spec_site_rows(targets@)) == Some(t@),
            None => json_pretty("sites"@, spec_site_rows(targets@)) is None,
        },
{
    let rows = site_rows(targets);
    json_pretty_text("sites", &rows)
}

impl LocalTarget {
    /// A copy of the target.
    pub fn duplicate(&self) -> (copy: Self)
        ensures
            copy.external == self.external,
            copy.internal == self.internal,
            copy.allowed@ == self.allowed@,
            copy.force_https == self.force_https,
            copy.reset_host == self.reset_host,
            copy.external_path == self.external_path,
    {
        LocalTarget {
            external: self.external.clone(),
            internal: self.internal.clone(),
            allowed: crate::utils::copy_texts(&self.allowed),
            force_https: self.force_https,
            reset_host: self.reset_host,
            external_path: match &self.external_path {
                Some(p) => Some(p.clone()),
                None => None,
            },
        }
    }

    pub fn new(external: String, internal: String, allowed: Vec<String>) -> (t: Self)
        ensures
            t == (LocalTarget {
                external,
                internal,
                allowed,
                force_https: false,
                reset_host: false,
                external_path: None,
            }),
    {
        LocalTarget {
            external,
            internal,
            allowed,
            force_https: false,
            reset_host: false,
            external_path: None,
        }
    }
}

/// The connector of one network.
#[derive(Debug)]
pub struct BeamConnect {
    pub network: Network,
    pub beam: BeamAppInfos,
    pub trusted_ca_certs: String,
    pub local_targets: Vec<LocalTarget>,
    pub central_targets: Vec<CentralTarget>,
    pub no_proxy: Vec<String>,
}

impl BeamConnect {
    pub open spec fn spec_service_name(network: Network) -> Seq<char> {
        network.spec_name() + "-beam-connect"@
    }

    pub fn service_name(network: Network) -> (name: String)
        ensures
            name@ == Self::spec_service_name(network),
    {
        concat2(network.name().as_str(), "-beam-connect")
    }

    /// The connector that `from_config` makes, and how it leaves what it was made
    /// from.
    pub open spec fn built(
        conf: Config,
        beam_before: BeamProxy,
        beam_after: BeamProxy,
        local_before: LocalConf,
        local_after: LocalConf,
        connect: Self,
    ) -> bool {
        &&& local_after.grown_from(local_before)
        &&& local_after.basic_auth_users == local_before.basic_auth_users
        &&& local_after.secrets() == spec_minted(
            local_before.secrets(),
            local_before.seed,
            BeamProxy::spec_service_name(beam_before.network),
            spec_app_key_name("beam-connect"@),
            SECRET_LEN,
        )
        &&& BeamProxy::registered(beam_before, beam_after, "beam-connect"@, connect.beam.secret@)
        &&& connect.network == beam_before.network
        &&& connect.beam.secret@ == spec_placeholder(
            spec_canonical_name(
                BeamProxy::spec_service_name(beam_before.network),
                spec_app_key_name("beam-connect"@),
            ),
        )
        &&& connect.beam.id@ == "beam-connect"@ + "."@ + beam_before.proxy_id@
        &&& connect.trusted_ca_certs@ == spec_join_path(conf.path@, "trusted-ca-certs"@)
        &&& connect.local_targets@.len() == 0
        &&& connect.central_targets@.len() == 0
        &&& connect.no_proxy@.len() == 0
    }

    /// The connector of the network of `beam`, registered with `beam` as the
    /// app `beam-connect`, with no targets yet.
    pub fn from_config(conf: &Config, beam: &mut BeamProxy, local: &mut LocalConf) -> (connect: Self)
        requires
            old(local).wf(),
        ensures
            Self::built(*conf, *old(beam), *final(beam), *old(local), *final(local), connect),
    {
        proof {
            reveal_strlit("beam-connect");
        }
        let infos = beam.add_service(local, "beam-connect");
        BeamConnect {
            network: beam.network,
            beam: infos,
            trusted_ca_certs: conf.trusted_ca_certs(),
            local_targets: Vec::new(),
            central_targets: Vec::new(),
            no_proxy: Vec::new(),
        }
    }

    pub fn add_local_target(&mut self, target: LocalTarget)
        ensures
            *final(self) == (BeamConnect {
                local_targets: final(self).local_targets,
                ..*old(self)
            }),
            final(self).local_targets@ == old(self).local_targets@.push(target),
    {
        self.local_targets.push(target);
    }

    pub fn add_central_target(&mut self, target: CentralTarget)
        ensures
            *final(self) == (BeamConnect {
                central_targets: final(self).central_targets,
                ..*old(self)
            }),
            final(self).central_targets@ == old(self).central_targets@.push(target),
    {
        self.central_targets.push(target);
    }

    pub fn add_no_proxy(&mut self, host: String)
        ensures
            *final(self) == (BeamConnect { no_proxy: final(self).no_proxy, ..*old(self) }),
            final(self).no_proxy@ == old(self).no_proxy@.push(host),
    {
        self.no_proxy.push(host);
    }
}

} // verus!
