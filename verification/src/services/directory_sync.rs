//! Synchronisation of a store with the BBMRI directory.

use vstd::prelude::*;
use vstd::string::*;

use crate::address::{address, spec_address};
use crate::identity::BlazeSite;
use crate::services::blaze::Blaze;
use crate::utils::concat2;

verus! {

#[derive(Debug)]
pub struct DirectorySyncConfig {
    pub username: String,
    pub password: String,
    pub url: String,
    pub timer_cron: String,
    pub allow_star_model: bool,
    pub mock: String,
    pub default_collection_id: String,
    pub country: String,
}

impl DirectorySyncConfig {
    /// A copy of the settings.
    pub fn duplicate(&self) -> (copy: Self)
        ensures
            copy == *self,
    {
        DirectorySyncConfig {
            username: self.username.clone(),
            password: self.password.clone(),
            url: self.url.clone(),
            timer_cron: self.timer_cron.clone(),
            allow_star_model: self.allow_star_model,
            mock: self.mock.clone(),
            default_collection_id: self.default_collection_id.clone(),
            country: self.country.clone(),
        }
    }
}

pub fn default_directory_sync_url() -> (url: String)
    ensures
        url@ == spec_address("https://directory.bbmri-eric.eu"@),
{
    address("https://directory.bbmri-eric.eu")
}

pub fn default_directory_sync_cron() -> (cron: String)
    ensures
        cron@ == "0 22 * * *"@,
{
    String::from_str("0 22 * * *")
}

#[derive(Debug)]
pub struct DirectorySync {
    pub site: BlazeSite,
    pub conf: DirectorySyncConfig,
    pub blaze_url: String,
}

impl DirectorySync {
    pub open spec fn spec_service_name(site: BlazeSite) -> Seq<char> {
        site.spec_prefix() + "-directory-sync"@
    }

    pub fn service_name(site: BlazeSite) -> (name: String)
        ensures
            name@ == Self::spec_service_name(site),
    {
        concat2(site.prefix().as_str(), "-directory-sync")
    }

    /// The synchronisation that `from_config` makes, and how it leaves what it was made
    /// from.
    pub open spec fn built(
        conf: DirectorySyncConfig,
        blaze: Blaze,
        sync: Self,
    ) -> bool {
        &&& sync.site == blaze.site
        &&& sync.conf == conf
        &&& sync.blaze_url@ == Blaze::spec_url(blaze.site)
    }

    pub fn from_config(conf: DirectorySyncConfig, blaze: &Blaze) -> (sync: Self)
        ensures
            Self::built(conf, *blaze, sync),
    {
        DirectorySync { site: blaze.site, blaze_url: blaze.get_url(), conf }
    }
}

} // verus!
