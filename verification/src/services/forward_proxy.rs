//! The proxy through which all traffic leaves the site.

use vstd::prelude::*;
use vstd::string::*;

use crate::address::{address, spec_address};
use crate::config::{spec_join_path, Config};

verus! {

#[derive(Debug)]
pub struct ForwardProxy {
    pub https_proxy_url: Option<String>,
    pub trusted_ca_certs: String,
}

impl ForwardProxy {
    pub open spec fn spec_service_name() -> Seq<char> {
        "forward-proxy"@
    }

    pub fn service_name() -> (name: String)
        ensures
            name@ == Self::spec_service_name(),
    {
        String::from_str("forward-proxy")
    }

    pub open spec fn spec_url() -> Seq<char> {
        spec_address("http://forward-proxy:3128"@)
    }

    pub fn get_url(&self) -> (url: String)
        ensures
            url@ == Self::spec_url(),
    {
        address("http://forward-proxy:3128")
    }

    /// The proxy that `from_config` makes, and how it leaves what it was made
    /// from.
    pub open spec fn built(
        conf: Config,
        proxy: Self,
    ) -> bool {
        &&& proxy.https_proxy_url == conf.https_proxy_url
        &&& proxy.trusted_ca_certs@ == spec_join_path(conf.path@, "trusted-ca-certs"@)
    }

    pub fn from_config(conf: &Config) -> (proxy: Self)
        ensures
            Self::built(*conf, proxy),
    {
        ForwardProxy {
            https_proxy_url: conf.https_proxy_url.clone(),
            trusted_ca_certs: conf.trusted_ca_certs(),
        }
    }
}

} // verus!
