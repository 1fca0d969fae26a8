//! The node of the DNPM network.

use vstd::prelude::*;
use vstd::string::*;

use crate::config::{spec_minted, Config, LocalConf};
use crate::identity::ServiceId;
use crate::secret::{spec_canonical_name, spec_placeholder};
use crate::services::beam::SECRET_LEN;

verus! {

#[derive(Debug)]
pub struct DnpmNodeConf {
    pub zpm_site: String,
    pub synth_num: Option<i32>,
}

impl DnpmNodeConf {
    /// A copy of the settings.
    pub fn duplicate(&self) -> (copy: Self)
        ensures
            copy == *self,
    {
        DnpmNodeConf { zpm_site: self.zpm_site.clone(), synth_num: self.synth_num }
    }
}

#[derive(Debug)]
pub struct DnpmNode {
    pub conf: DnpmNodeConf,
    pub host: String,
    pub site_id: String,
    pub authup_secret: String,
    pub mysql_root_password: String,
}

impl DnpmNode {
    pub open spec fn spec_service_name() -> Seq<char> {
        "dnpm-node"@
    }

    pub fn service_name() -> (name: String)
        ensures
            name@ == Self::spec_service_name(),
    {
        String::from_str("dnpm-node")
    }

    /// The node that `from_config` makes, and how it leaves what it was made
    /// from.
    pub open spec fn built(
        conf: DnpmNodeConf,
        global_conf: Config,
        local_before: LocalConf,
        local_after: LocalConf,
        node: Self,
    ) -> bool {
        &&& local_after.grown_from(local_before)
        &&& local_after.basic_auth_users == local_before.basic_auth_users
        &&& local_after.secrets() == spec_minted(
            spec_minted(
                local_before.secrets(),
                local_before.seed,
                Self::spec_service_name(),
                "authup"@,
                SECRET_LEN,
            ),
            local_before.seed,
            Self::spec_service_name(),
            "mysql_root"@,
            SECRET_LEN,
        )
        &&& node.conf == conf
        &&& node.host@ == global_conf.hostname.spec_text()
        &&& node.site_id@ == global_conf.site_id@
        &&& node.authup_secret@ == spec_placeholder(
            spec_canonical_name(Self::spec_service_name(), "authup"@),
        )
        &&& node.mysql_root_password@ == spec_placeholder(
            spec_canonical_name(Self::spec_service_name(), "mysql_root"@),
        )
    }

    /// The node of the site, with the two secrets it needs minted.
    pub fn from_config(conf: DnpmNodeConf, global_conf: &Config, local: &mut LocalConf) -> (node: Self)
        requires
            old(local).wf(),
        ensures
            Self::built(conf, *global_conf, *old(local), *final(local), node),
    {
        proof {
            reveal_strlit("authup");
            reveal_strlit("mysql_root");
            ServiceId::DnpmNode.lemma_service_name_plain();
        }
        let authup_secret = local.generate_secret(SECRET_LEN, "dnpm-node", "authup");
        let mysql_root_password = local.generate_secret(SECRET_LEN, "dnpm-node", "mysql_root");
        DnpmNode {
            conf,
            host: global_conf.hostname.text(),
            site_id: global_conf.site_id.clone(),
            authup_secret,
            mysql_root_password,
        }
    }
}

} // verus!
