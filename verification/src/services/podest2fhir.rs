//! The converter from Podest to FHIR.

use vstd::prelude::*;
use vstd::string::*;

use crate::address::{address_under, spec_address_under};
use crate::services::blaze::Blaze;

verus! {

#[derive(Debug)]
pub struct Podest2FhirConfig {
    /// Overrides the FHIR base URL, which is that of the project's store
    /// otherwise.
    pub fhir_base_url: Option<String>,
    pub db_host: String,
    pub db_port: u16,
    pub db_name: String,
    pub db_user: String,
    pub db_password: String,
}

#[derive(Debug)]
pub struct Podest2Fhir {
    pub fhir_base_url: String,
    pub db_host: String,
    pub db_port: u16,
    pub db_name: String,
    pub db_user: String,
    pub db_password: String,
    pub profile: String,
}

impl Podest2Fhir {
    pub open spec fn spec_service_name() -> Seq<char> {
        "ccp-podest2fhir"@
    }

    pub fn service_name() -> (name: String)
        ensures
            name@ == Self::spec_service_name(),
    {
        String::from_str("ccp-podest2fhir")
    }

    /// The converter that `from_config` makes, and how it leaves what it was made
    /// from.
    pub open spec fn built(
        conf: Podest2FhirConfig,
        profile: String,
        blaze: Blaze,
        service: Self,
    ) -> bool {
        &&& service.fhir_base_url@ == match conf.fhir_base_url {
            Some(url) => url@,
            None => spec_address_under(Blaze::spec_url(blaze.site), "/fhir"@),
        }
        &&& service.db_host == conf.db_host
        &&& service.db_port == conf.db_port
        &&& service.db_name == conf.db_name
        &&& service.db_user == conf.db_user
        &&& service.db_password == conf.db_password
        &&& service.profile == profile
    }

    pub fn from_config(conf: Podest2FhirConfig, profile: String, blaze: &Blaze) -> (service: Self)
        ensures
            Self::built(conf, profile, *blaze, service),
    {
        let fhir_base_url = match conf.fhir_base_url {
            Some(url) => url,
            None => address_under(blaze.get_url().as_str(), "/fhir"),
        };
        Podest2Fhir {
            fhir_base_url,
            db_host: conf.db_host,
            db_port: conf.db_port,
            db_name: conf.db_name,
            db_user: conf.db_user,
            db_password: conf.db_password,
            profile,
        }
    }
}

} // verus!
