//! The database of a service.

use vstd::prelude::*;
use vstd::string::*;

use crate::config::{spec_minted, LocalConf};
use crate::identity::{PgOwner, ServiceId};
use crate::secret::{spec_canonical_name, spec_placeholder};
use crate::services::beam::SECRET_LEN;
use crate::utils::concat2;

verus! {

/// What a service needs to know to reach its database.
#[derive(Debug)]
pub struct PgConnectInfo {
    pub host: String,
    pub user: String,
    pub db: String,
    pub password: String,
}

#[derive(Debug)]
pub struct Postgres {
    pub owner: PgOwner,
    pub user: String,
    pub db: String,
    pub password: String,
}

impl Postgres {
    pub open spec fn spec_service_name(owner: PgOwner) -> Seq<char> {
        owner.spec_owner_name() + "-db"@
    }

    pub fn service_name(owner: PgOwner) -> (name: String)
        ensures
            name@ == Self::spec_service_name(owner),
    {
        concat2(owner.owner_name().as_str(), "-db")
    }

    /// The database that `from_config` makes, and how it leaves what it was made
    /// from.
    pub open spec fn built(
        owner: PgOwner,
        local_before: LocalConf,
        local_after: LocalConf,
        pg: Self,
    ) -> bool {
        &&& local_after.grown_from(local_before)
        &&& local_after.basic_auth_users == local_before.basic_auth_users
        &&& local_after.secrets() == spec_minted(
            local_before.secrets(),
            local_before.seed,
            Self::spec_service_name(owner),
            "password"@,
            SECRET_LEN,
        )
        &&& pg.owner == owner
        &&& pg.user@ == owner.spec_owner_name()
        &&& pg.db@ == owner.spec_owner_name()
        &&& pg.password@ == spec_placeholder(
            spec_canonical_name(Self::spec_service_name(owner), "password"@),
        )
    }

    /// The database of `owner`: user and database are named after the owner,
    /// and the password is minted.
    pub fn from_config(owner: PgOwner, local: &mut LocalConf) -> (pg: Self)
        requires
            old(local).wf(),
        ensures
            Self::built(owner, *old(local), *final(local), pg),
    {
        let name = Self::service_name(owner);
        proof {
            reveal_strlit("password");
            ServiceId::Postgres(owner).lemma_service_name_plain();
        }
        let password = local.generate_secret(SECRET_LEN, name.as_str(), "password");
        Postgres { owner, user: owner.owner_name(), db: owner.owner_name(), password }
    }

    pub fn connect_info(&self) -> (info: PgConnectInfo)
        ensures
            info.host@ == Self::spec_service_name(self.owner),
            info.user == self.user,
            info.db == self.db,
            info.password == self.password,
    {
        PgConnectInfo {
            host: Self::service_name(self.owner),
            user: self.user.clone(),
            db: self.db.clone(),
            password: self.password.clone(),
        }
    }
}

} // verus!
