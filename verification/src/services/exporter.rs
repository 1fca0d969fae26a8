//! The exporter of the CCP network.

use vstd::prelude::*;
use vstd::string::*;

use crate::config::{spec_minted, Config, LocalConf};
use crate::identity::{BlazeSite, ServiceId};
use crate::secret::{spec_canonical_name, spec_placeholder};
use crate::services::beam::SECRET_LEN;
use crate::services::datashield::DataShield;
use crate::services::focus::Focus;
use crate::services::postgres::{PgConnectInfo, Postgres};

verus! {

#[derive(Debug)]
pub struct Exporter {
    pub api_key: String,
    pub host: String,
    pub opal_password: Option<String>,
    pub db: PgConnectInfo,
    pub blaze_host: String,
    pub project: String,
}

impl Exporter {
    pub open spec fn spec_service_name() -> Seq<char> {
        "ccp-exporter"@
    }

    pub fn service_name() -> (name: String)
        ensures
            name@ == Self::spec_service_name(),
    {
        String::from_str("ccp-exporter")
    }

    pub open spec fn spec_api_key() -> Seq<char> {
        spec_placeholder(spec_canonical_name(Self::spec_service_name(), "api-key"@))
    }

    pub open spec fn spec_opal_password() -> Seq<char> {
        spec_placeholder(spec_canonical_name(Self::spec_service_name(), "opal-pw"@))
    }

    /// The exporter that `from_config` makes, and how it leaves what it was made
    /// from.
    pub open spec fn built(
        conf: Config,
        focus_before: Focus,
        focus_after: Focus,
        pg: Postgres,
        ds_before: Option<DataShield>,
        ds_after: Option<DataShield>,
        local_before: LocalConf,
        local_after: LocalConf,
        exporter: Self,
    ) -> bool {
        &&& local_after.grown_from(local_before)
        &&& local_after.basic_auth_users == local_before.basic_auth_users
        &&& local_after.secrets() == if ds_before is Some {
            spec_minted(
                spec_minted(
                    local_before.secrets(),
                    local_before.seed,
                    Self::spec_service_name(),
                    "api-key"@,
                    SECRET_LEN,
                ),
                local_before.seed,
                Self::spec_service_name(),
                "opal-pw"@,
                SECRET_LEN,
            )
        } else {
            spec_minted(
                local_before.secrets(),
                local_before.seed,
                Self::spec_service_name(),
                "api-key"@,
                SECRET_LEN,
            )
        }
        &&& focus_after == (Focus { exporter: focus_after.exporter, ..focus_before })
        &&& focus_after.exporter matches Some((url, key)) && url@ == "http://ccp-exporter:8080"@
            && key@ == Self::spec_api_key()
        &&& (ds_after is Some) == (ds_before is Some)
        &&& ds_after matches Some(after) ==> after.exporter_password matches Some(pw) && pw@
            == Self::spec_opal_password() && after == (DataShield {
            exporter_password: after.exporter_password,
            ..ds_before->0
        })
        &&& exporter.api_key@ == Self::spec_api_key()
        &&& exporter.host@ == conf.hostname.spec_text()
        &&& match exporter.opal_password {
            Some(pw) => ds_before is Some && pw@ == Self::spec_opal_password(),
            None => ds_before is None,
        }
        &&& exporter.db.host@ == Postgres::spec_service_name(pg.owner)
        &&& exporter.db.user == pg.user
        &&& exporter.db.db == pg.db
        &&& exporter.db.password == pg.password
        &&& exporter.blaze_host@ == BlazeSite::Ccp.spec_blaze_service_name()
        &&& exporter.project@ == "ccp"@
    }

    /// The exporter of the site. It takes the results of `focus`, and where
    /// there is a DataSHIELD installation it shares a password with it.
    pub fn from_config(
        conf: &Config,
        focus: &mut Focus,
        pg: &Postgres,
        ds: &mut Option<DataShield>,
        local: &mut LocalConf,
    ) -> (exporter: Self)
        requires
            old(local).wf(),
        ensures
            Self::built(
                *conf,
                *old(focus),
                *final(focus),
                *pg,
                *old(ds),
                *final(ds),
                *old(local),
                *final(local),
                exporter,
            ),
    {
        proof {
            reveal_strlit("api-key");
            reveal_strlit("opal-pw");
            ServiceId::Exporter.lemma_service_name_plain();
        }
        let api_key = local.generate_secret(SECRET_LEN, "ccp-exporter", "api-key");
        focus.enable_exporter(String::from_str("http://ccp-exporter:8080"), api_key.clone());
        let opal_password = match ds.take() {
            Some(shield) => {
                let mut shield = shield;
                let opal_pw = local.generate_secret(SECRET_LEN, "ccp-exporter", "opal-pw");
                shield.exporter_password = Some(opal_pw.clone());
                *ds = Some(shield);
                Some(opal_pw)
            },
            None => None,
        };
        Exporter {
            api_key,
            host: conf.hostname.text(),
            opal_password,
            db: pg.connect_info(),
            blaze_host: BlazeSite::Ccp.blaze_service_name(),
            project: String::from_str("ccp"),
        }
    }
}

} // verus!
