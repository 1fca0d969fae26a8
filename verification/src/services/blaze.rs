//! The FHIR store of a project.

use vstd::prelude::*;
use vstd::string::*;

use crate::address::{address, spec_address};
use crate::config::LocalConf;
use crate::identity::BlazeSite;
use crate::services::traefik::{AuthError, Traefik};
use crate::utils::concat3;

verus! {

/// Where the reverse proxy shows a store, and the user that guards it.
#[derive(Debug)]
pub struct BlazeTraefikConfig {
    pub path: String,
    pub middleware_and_user_name: String,
}

/// The path and the user of an exposure, as texts.
pub open spec fn exposure_view(e: Option<BlazeTraefikConfig>) -> Option<(Seq<char>, Seq<char>)> {
    match e {
        Some(c) => Some((c.path@, c.middleware_and_user_name@)),
        None => None,
    }
}

/// What is known of a project that runs a store.
pub trait BlazeProvider {
    spec fn spec_balze_service_name() -> Seq<char>;

    spec fn spec_treafik_exposure() -> Option<(Seq<char>, Seq<char>)>;

    /// The name of the project's store.
    fn balze_service_name() -> (name: String)
        ensures
            name@ == Self::spec_balze_service_name(),
    ;

    /// The path under which the reverse proxy shows the store, and the user
    /// that guards it; nothing where the store is not shown.
    fn treafik_exposure() -> (exposure: Option<BlazeTraefikConfig>)
        ensures
            exposure_view(exposure) == Self::spec_treafik_exposure(),
    ;
}

/// The store of one project.
#[derive(Debug)]
pub struct Blaze {
    pub site: BlazeSite,
    pub traefik_conf: Option<BlazeTraefikConfig>,
}

impl Blaze {
    pub open spec fn spec_url(site: BlazeSite) -> Seq<char> {
        spec_address("http://"@ + site.spec_blaze_service_name() + ":8080"@)
    }

    pub fn get_url(&self) -> (url: String)
        ensures
            url@ == Self::spec_url(self.site),
    {
        let name = self.site.blaze_service_name();
        address(concat3("http://", name.as_str(), ":8080").as_str())
    }

    pub fn service_name(site: BlazeSite) -> (name: String)
        ensures
            name@ == site.spec_blaze_service_name(),
    {
        site.blaze_service_name()
    }

    /// The store that `from_config` makes, and how it leaves what it was made
    /// from.
    pub open spec fn built(
        site: BlazeSite,
        traefik_before: Traefik,
        traefik_after: Traefik,
        local_before: LocalConf,
        local_after: LocalConf,
        r: Result<Self, AuthError>,
    ) -> bool {
        &&& local_after.wf()
        &&& traefik_after == traefik_before
        &&& local_after.seed == local_before.seed
        &&& local_after.oidc == local_before.oidc
        &&& local_after.generated_secrets == local_before.generated_secrets
        &&& local_after.grown_from(local_before)
        &&& match site.spec_treafik_exposure() {
            Some((_, user)) => Traefik::user_added(local_before, local_after, user, r is Ok),
            None => r is Ok && local_after.basic_auth_users == local_before.basic_auth_users,
        }
        &&& r matches Ok(blaze) ==> blaze.site == site && exposure_view(blaze.traefik_conf)
            == site.spec_treafik_exposure()
    }

    /// The store of `site`. Where the reverse proxy shows it, the user that
    /// guards it is added to the reverse proxy.
    pub fn from_config(site: BlazeSite, traefik: &mut Traefik, local: &mut LocalConf) -> (r: Result<
        Self,
        AuthError,
    >)
        requires
            old(local).wf(),
        ensures
            Self::built(site, *old(traefik), *final(traefik), *old(local), *final(local), r),
    {
        let traefik_conf = site.treafik_exposure();
        match &traefik_conf {
            Some(conf) => {
                match traefik.add_basic_auth_user(local, conf.middleware_and_user_name.clone()) {
                    Ok(()) => {},
                    Err(e) => {
                        return Err(e);
                    },
                }
            },
            None => {},
        }
        Ok(Blaze { site, traefik_conf })
    }
}

} // verus!
