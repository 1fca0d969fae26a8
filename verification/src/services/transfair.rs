//! The exchange of data with a trusted third party.

use vstd::prelude::*;
use vstd::string::*;

use crate::config::{spec_join_path, Config};
use crate::identity::BlazeSite;
use crate::services::blaze::Blaze;

verus! {

#[derive(Debug)]
pub struct FhirServerConfig {
    pub url: String,
    pub auth: String,
}

impl FhirServerConfig {
    pub fn duplicate(&self) -> (copy: Self)
        ensures
            copy == *self,
    {
        FhirServerConfig { url: self.url.clone(), auth: self.auth.clone() }
    }
}

pub fn default_exchange_id_system() -> (system: String)
    ensures
        system@ == "SESSION_ID"@,
{
    String::from_str("SESSION_ID")
}

/// The kind of a trusted third party, with what it needs.
#[derive(Debug)]
pub enum TtpType {
    Greifswald { source: String, epix_domain: String, gpas_domain: String },
    Mainzelliste { apikey: String },
}

#[derive(Debug)]
pub struct TransfairTtpConfig {
    pub url: String,
    pub auth: String,
    pub project_id_system: String,
    pub ttp_type: TtpType,
}

#[derive(Debug)]
pub struct TransfairConfig {
    pub ttp: Option<TransfairTtpConfig>,
    pub fhir_requests: Option<FhirServerConfig>,
    pub fhir_output: Option<FhirServerConfig>,
    pub fhir_input: Option<FhirServerConfig>,
    pub exchange_id_system: String,
    pub tls_disable: bool,
}

#[derive(Debug)]
pub struct Transfair {
    pub site: BlazeSite,
    pub conf: TransfairConfig,
    pub fhir_out_server: FhirServerConfig,
    pub trusted_ca_certs: String,
}

impl Transfair {
    pub open spec fn spec_service_name() -> Seq<char> {
        "transfair"@
    }

    pub fn service_name() -> (name: String)
        ensures
            name@ == Self::spec_service_name(),
    {
        String::from_str("transfair")
    }

    /// The exchange that `from_config` makes, and how it leaves what it was made
    /// from.
    pub open spec fn built(
        conf: TransfairConfig,
        global_conf: Config,
        blaze: Blaze,
        service: Self,
    ) -> bool {
        &&& service.site == blaze.site
        &&& service.conf == conf
        &&& match conf.fhir_output {
            Some(out) => service.fhir_out_server == out,
            None => service.fhir_out_server.url@ == Blaze::spec_url(blaze.site)
                && service.fhir_out_server.auth@ == ""@,
        }
        &&& service.trusted_ca_certs@ == spec_join_path(global_conf.path@, "trusted-ca-certs"@)
    }

    /// The exchange for the project of `blaze`. What it brings goes to the
    /// server named in the settings, or to the project's store.
    pub fn from_config(conf: TransfairConfig, global_conf: &Config, blaze: &Blaze) -> (service: Self)
        ensures
            Self::built(conf, *global_conf, *blaze, service),
    {
        let fhir_out_server = match &conf.fhir_output {
            Some(out) => out.duplicate(),
            None => FhirServerConfig { url: blaze.get_url(), auth: String::from_str("") },
        };
        Transfair {
            site: blaze.site,
            conf,
            fhir_out_server,
            trusted_ca_certs: global_conf.trusted_ca_certs(),
        }
    }
}

} // verus!
