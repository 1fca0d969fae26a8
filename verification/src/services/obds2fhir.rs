//! The converter from oBDS to FHIR.

use vstd::prelude::*;
use vstd::string::*;

use crate::address::{address, address_under, spec_address, spec_address_under};
use crate::config::{spec_minted, Config, LocalConf};
use crate::identity::ServiceId;
use crate::modules::ccp::CcpDefault;
use crate::ordered_map::lookup;
use crate::secret::{spec_canonical_name, spec_placeholder};
use crate::services::id_management::IdManagement;
use crate::services::traefik::{AuthError, Traefik};
use crate::utils::{concat2, concat3};

verus! {

#[derive(Debug)]
pub struct Obds2FhirConfig {
    /// This should include `/fhir`.
    pub fhir_server_url: Option<String>,
    /// This should include `/patientlist`.
    pub mainzelliste_url: Option<String>,
    pub mainzelliste_apikey: Option<String>,
    pub id_type: Option<String>,
    pub keep_internal_id: bool,
}

/// What is known of a project that converts oBDS.
pub trait Obds2FhirProvider {
    spec fn spec_prefix() -> Seq<char>;

    /// The short name of the project.
    fn prefix() -> (p: String)
        ensures
            p@ == Self::spec_prefix(),
    ;
}

impl Obds2FhirProvider for CcpDefault {
    open spec fn spec_prefix() -> Seq<char> {
        "ccp"@
    }

    fn prefix() -> (p: String) {
        String::from_str("ccp")
    }
}

/// A setting of the converter.
#[derive(Clone, Copy, Debug, PartialEq, Eq, Structural)]
pub enum Obds2FhirSetting {
    FhirServerUrl,
    MainzellisteUrl,
    MainzellisteApikey,
    IdType,
}

/// Why the converter could not be built.
#[derive(Clone, Copy, Debug, PartialEq, Eq, Structural)]
pub enum Obds2FhirError {
    /// The setting has no value.
    Missing(Obds2FhirSetting),
    /// The user that guards the converter could not be added.
    Auth(AuthError),
}

/// The text of an optional setting, if it has a value.
pub open spec fn setting_text(s: Option<String>) -> Option<Seq<char>> {
    match s {
        Some(s) => Some(s@),
        None => None,
    }
}

/// `s` where it has a value, else `default`.
pub open spec fn setting_or(s: Option<String>, default: Seq<char>) -> Option<Seq<char>> {
    match s {
        Some(s) => Some(s@),
        None => Some(default),
    }
}

/// Where the list of patients of the id management is reached, unless the
/// settings say otherwise.
pub open spec fn spec_patientlist_url() -> Seq<char> {
    spec_address_under(spec_address("http://ccp-id-management:8080"@), "/patientlist"@)
}

impl Obds2FhirConfig {
    /// The first setting without a value, in the order in which the
    /// converter asks for them.
    pub open spec fn first_missing(&self) -> Option<Obds2FhirSetting> {
        if self.fhir_server_url is None {
            Some(Obds2FhirSetting::FhirServerUrl)
        } else if self.mainzelliste_url is None {
            Some(Obds2FhirSetting::MainzellisteUrl)
        } else if self.mainzelliste_apikey is None {
            Some(Obds2FhirSetting::MainzellisteApikey)
        } else if self.id_type is None {
            Some(Obds2FhirSetting::IdType)
        } else {
            None
        }
    }

    /// The settings with every gap filled from the id management `ml` and the
    /// store at `blaze_url`.
    pub fn defaulted_with(self, ml: &IdManagement, blaze_url: String) -> (filled: Self)
        ensures
            filled.first_missing() is None,
            setting_text(filled.id_type) == setting_or(
                self.id_type,
                "BK_"@ + ml.id@ + "_L-ID"@,
            ),
            setting_text(filled.mainzelliste_apikey) == setting_or(
                self.mainzelliste_apikey,
                ml.local_apikey@,
            ),
            setting_text(filled.mainzelliste_url) == setting_or(
                self.mainzelliste_url,
                spec_patientlist_url(),
            ),
            setting_text(filled.fhir_server_url) == setting_or(self.fhir_server_url, blaze_url@),
            filled.keep_internal_id == self.keep_internal_id,
    {
        let id_type = match self.id_type {
            Some(t) => t,
            None => concat3("BK_", ml.id.as_str(), "_L-ID"),
        };
        let mainzelliste_apikey = match self.mainzelliste_apikey {
            Some(k) => k,
            None => ml.local_apikey.clone(),
        };
        let mainzelliste_url = match self.mainzelliste_url {
            Some(u) => u,
            None => address_under(
                address("http://ccp-id-management:8080").as_str(),
                "/patientlist",
            ),
        };
        let fhir_server_url = match self.fhir_server_url {
            Some(u) => u,
            None => blaze_url,
        };
        Obds2FhirConfig {
            fhir_server_url: Some(fhir_server_url),
            mainzelliste_url: Some(mainzelliste_url),
            mainzelliste_apikey: Some(mainzelliste_apikey),
            id_type: Some(id_type),
            keep_internal_id: self.keep_internal_id,
        }
    }
}

/// The length of the salt of the converter.
pub const SALT_LEN: usize = 30;

#[derive(Debug)]
pub struct Obds2Fhir {
    pub fhir_server_url: String,
    pub mainzelliste_url: String,
    pub mainzelliste_apikey: String,
    pub id_type: String,
    pub keep_internal_id: bool,
    pub salt: String,
    pub middleware_name: String,
}

impl Obds2Fhir {
    pub open spec fn spec_service_name() -> Seq<char> {
        CcpDefault::spec_prefix() + "-obds2fhir-rest"@
    }

    pub fn service_name() -> (name: String)
        ensures
            name@ == Self::spec_service_name(),
    {
        concat2(CcpDefault::prefix().as_str(), "-obds2fhir-rest")
    }

    /// The converter that `from_config` makes, and how it leaves what it was made
    /// from.
    pub open spec fn built(
        obds_conf: Obds2FhirConfig,
        conf: Config,
        traefik_before: Traefik,
        traefik_after: Traefik,
        local_before: LocalConf,
        local_after: LocalConf,
        r: Result<Self, Obds2FhirError>,
    ) -> bool {
        &&& local_after.grown_from(local_before)
        &&& traefik_after == traefik_before
        &&& match obds_conf.first_missing() {
            Some(setting) => r == Err::<Self, Obds2FhirError>(
                Obds2FhirError::Missing(setting),
            ) && local_after == local_before,
            None => match r {
                Ok(service) => {
                    &&& Some(service.fhir_server_url) == obds_conf.fhir_server_url
                    &&& Some(service.mainzelliste_url) == obds_conf.mainzelliste_url
                    &&& Some(service.mainzelliste_apikey) == obds_conf.mainzelliste_apikey
                    &&& Some(service.id_type) == obds_conf.id_type
                    &&& service.keep_internal_id == obds_conf.keep_internal_id
                    &&& service.middleware_name@ == CcpDefault::spec_prefix()
                        + "-obds2fhir-auth"@
                    &&& service.salt@ == spec_placeholder(
                        spec_canonical_name(Self::spec_service_name(), "salt"@),
                    )
                    &&& local_after.secrets() == spec_minted(
                        local_before.secrets(),
                        local_before.seed,
                        Self::spec_service_name(),
                        "salt"@,
                        SALT_LEN,
                    )
                    &&& Traefik::user_added(
                        local_before,
                        local_after,
                        service.middleware_name@,
                        true,
                    )
                },
                Err(e) => {
                    &&& e == Obds2FhirError::Auth(AuthError::Hash)
                    &&& local_after == local_before
                    &&& lookup(
                        local_before.users(),
                        CcpDefault::spec_prefix() + "-obds2fhir-auth"@,
                    ) is None
                },
            },
        }
    }

    /// The converter of the site. Every setting must have a value; then the
    /// user that guards the converter is added to the reverse proxy and the
    /// salt is minted.
    pub fn from_config(
        obds_conf: Obds2FhirConfig,
        conf: &Config,
        traefik: &mut Traefik,
        local: &mut LocalConf,
    ) -> (r: Result<Self, Obds2FhirError>)
        requires
            old(local).wf(),
        ensures
            Self::built(
                obds_conf,
                *conf,
                *old(traefik),
                *final(traefik),
                *old(local),
                *final(local),
                r,
            ),
    {
        let fhir_server_url = match obds_conf.fhir_server_url {
            Some(u) => u,
            None => {
                return Err(Obds2FhirError::Missing(Obds2FhirSetting::FhirServerUrl));
            },
        };
        let mainzelliste_url = match obds_conf.mainzelliste_url {
            Some(u) => u,
            None => {
                return Err(Obds2FhirError::Missing(Obds2FhirSetting::MainzellisteUrl));
            },
        };
        let mainzelliste_apikey = match obds_conf.mainzelliste_apikey {
            Some(k) => k,
            None => {
                return Err(Obds2FhirError::Missing(Obds2FhirSetting::MainzellisteApikey));
            },
        };
        let id_type = match obds_conf.id_type {
            Some(t) => t,
            None => {
                return Err(Obds2FhirError::Missing(Obds2FhirSetting::IdType));
            },
        };
        let middleware_name = concat2(CcpDefault::prefix().as_str(), "-obds2fhir-auth");
        match traefik.add_basic_auth_user(local, middleware_name.clone()) {
            Ok(()) => {},
            Err(e) => {
                return Err(Obds2FhirError::Auth(e));
            },
        }
        proof {
            reveal_strlit("salt");
            ServiceId::Obds2Fhir.lemma_service_name_plain();
        }
        let name = Self::service_name();
        let salt = local.generate_secret(SALT_LEN, name.as_str(), "salt");
        Ok(
            Obds2Fhir {
                salt,
                middleware_name,
                fhir_server_url,
                mainzelliste_url,
                mainzelliste_apikey,
                id_type,
                keep_internal_id: obds_conf.keep_internal_id,
            },
        )
    }
}

} // verus!
