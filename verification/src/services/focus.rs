//! The service that runs the queries of a network against a store.

use vstd::prelude::*;
use vstd::string::*;

use crate::config::{spec_minted, LocalConf};
use crate::identity::{BlazeSite, Network};
use crate::secret::{spec_canonical_name, spec_placeholder};
use crate::services::beam::{spec_app_key_name, BeamProxy, SECRET_LEN};
use crate::services::blaze::Blaze;
use crate::utils::concat2;

verus! {

#[derive(Debug)]
pub struct Focus {
    pub network: Network,
    pub site: BlazeSite,
    pub beam_id: String,
    pub beam_secret: String,
    pub beam_url: String,
    pub blaze_url: String,
    pub endpoint_type: String,
    pub tag: String,
    /// The URL and the key of the exporter, where one takes the results.
    pub exporter: Option<(String, String)>,
}

impl Focus {
    pub open spec fn spec_service_name(network: Network) -> Seq<char> {
        network.spec_name() + "-focus"@
    }

    pub fn service_name(network: Network) -> (name: String)
        ensures
            name@ == Self::spec_service_name(network),
    {
        concat2(network.name().as_str(), "-focus")
    }

    /// The focus that `from_config` makes, and how it leaves what it was made
    /// from.
    pub open spec fn built(
        beam_proxy_before: BeamProxy,
        beam_proxy_after: BeamProxy,
        blaze: Blaze,
        local_before: LocalConf,
        local_after: LocalConf,
        focus: Self,
    ) -> bool {
        &&& local_after.grown_from(local_before)
        &&& local_after.basic_auth_users == local_before.basic_auth_users
        &&& local_after.secrets() == spec_minted(
            local_before.secrets(),
            local_before.seed,
            BeamProxy::spec_service_name(beam_proxy_before.network),
            spec_app_key_name("focus"@),
            SECRET_LEN,
        )
        &&& focus.beam_secret@ == spec_placeholder(
            spec_canonical_name(
                BeamProxy::spec_service_name(beam_proxy_before.network),
                spec_app_key_name("focus"@),
            ),
        )
        &&& BeamProxy::registered(beam_proxy_before, beam_proxy_after, "focus"@, focus.beam_secret@)
        &&& focus.network == beam_proxy_before.network
        &&& focus.site == blaze.site
        &&& focus.beam_id@ == "focus"@ + "."@ + beam_proxy_before.proxy_id@
        &&& focus.beam_url@ == BeamProxy::spec_url(beam_proxy_before.network)
        &&& focus.blaze_url@ == Blaze::spec_url(blaze.site)
        &&& focus.tag@ == "main"@
        &&& focus.endpoint_type@ == "blaze"@
        &&& focus.exporter is None
    }

    /// The focus that serves the network of `beam_proxy` from the store
    /// `blaze`, registered with the proxy as the app `focus`.
    pub fn from_config(beam_proxy: &mut BeamProxy, blaze: &Blaze, local: &mut LocalConf) -> (focus: Self)
        requires
            old(local).wf(),
        ensures
            Self::built(
                *old(beam_proxy),
                *final(beam_proxy),
                *blaze,
                *old(local),
                *final(local),
                focus,
            ),
    {
        proof {
            reveal_strlit("focus");
        }
        let infos = beam_proxy.add_service(local, "focus");
        Focus {
            network: beam_proxy.network,
            site: blaze.site,
            beam_id: infos.id,
            beam_secret: infos.secret,
            beam_url: beam_proxy.get_url(),
            blaze_url: blaze.get_url(),
            tag: String::from_str("main"),
            endpoint_type: String::from_str("blaze"),
            exporter: None,
        }
    }

    /// Lets the exporter at `url` take the results, with the key `api_key`.
    pub fn enable_exporter(&mut self, url: String, api_key: String)
        ensures
            *final(self) == (Focus { exporter: Some((url, api_key)), ..*old(self) }),
    {
        self.exporter = Some((url, api_key));
    }

    pub fn set_tag(&mut self, tag: String)
        ensures
            *final(self) == (Focus { tag, ..*old(self) }),
    {
        self.tag = tag;
    }
}

} // verus!
