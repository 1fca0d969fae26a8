//! The reverse proxy at the edge of the site, and its users.

use vstd::prelude::*;
use vstd::string::*;

use crate::config::{join_path, spec_join_path, Config, LocalConf};
use crate::ordered_map::{lemma_put, lemma_put_preserves, lookup, put, OrderedMap};
use crate::secret::draw_random;
use crate::utils::{charset, secret_from_rng, CHARSET_LEN};

verus! {

/// Whether `bcrypt::verify` accepts `password` for `hash`, that is, returns
/// `Ok(true)`.
pub uninterp spec fn bcrypt_verifies(password: Seq<char>, hash: Seq<char>) -> bool;

#[verifier::external_type_specification]
#[verifier::external_body]
pub struct ExBcryptError(bcrypt::BcryptError);

/// A hash as bcrypt writes one for the cost `cost`: sixty characters, of
/// which the first seven are the version `2b` and the cost in two digits,
/// each between two `$`.
pub open spec fn carries_cost(hash: Seq<char>, cost: u32) -> bool {
    &&& hash.len() == 60
    &&& hash.subrange(0, 4) == "$2b$"@
    &&& hash[4] == "0123456789"@[(cost / 10) as int]
    &&& hash[5] == "0123456789"@[(cost % 10) as int]
    &&& hash[6] == '$'
}

/// Calls `bcrypt::hash`, which draws a salt from the operating system and
/// hashes the password with it at the given cost. A cost outside 4 to 31 is
/// refused. A hash that comes back is written in the version `2b` and holds
/// the cost and the salt, so `bcrypt::verify` recomputes it from the same
/// password and accepts it.
#[verifier::external_body]
fn bcrypt_hash(password: &str, cost: u32) -> (r: Result<String, bcrypt::BcryptError>)
    ensures
        r matches Ok(hash) ==> bcrypt_verifies(password@, hash@) && carries_cost(hash@, cost),
        !(4 <= cost <= 31) ==> r is Err,
{
    bcrypt::hash(password, cost)
}

/// Calls `bcrypt::verify`, which recomputes the hash of the password with the
/// cost and the salt that `hash` holds and compares. A hash that cannot be
/// read counts as not accepted.
#[verifier::external_body]
fn bcrypt_verify(password: &str, hash: &str) -> (accepted: bool)
    ensures
        accepted == bcrypt_verifies(password@, hash@),
{
    bcrypt::verify(password, hash).unwrap_or(false)
}

/// The cost at which the passwords of users are hashed.
pub const BCRYPT_COST: u32 = 12;

/// The length of the password of a user.
pub const PASSWORD_LEN: usize = 10;

/// A user of the reverse proxy: the bcrypt hash of the password and, until
/// the operator has fetched it, the password itself.
#[derive(Debug)]
pub struct BasicAuthUser {
    pub hash: String,
    pub pw: Option<String>,
}

impl BasicAuthUser {
    /// The password in the clear, where it is still kept.
    pub open spec fn cleartext(&self) -> Option<Seq<char>> {
        match self.pw {
            Some(p) => Some(p@),
            None => None,
        }
    }

    /// The hash is the hash of the password, where the password is kept.
    pub open spec fn verified(&self) -> bool {
        self.cleartext() matches Some(p) ==> bcrypt_verifies(p, self.hash@)
    }

    /// Checks that the hash is the hash of the password, where the password
    /// is kept.
    pub fn check(&self) -> (ok: bool)
        ensures
            ok == self.verified(),
    {
        match &self.pw {
            Some(pw) => bcrypt_verify(pw.as_str(), self.hash.as_str()),
            None => true,
        }
    }
}

/// Why a user could not be added.
#[derive(Clone, Copy, Debug, PartialEq, Eq, Structural)]
pub enum AuthError {
    /// The password could not be hashed.
    Hash,
}

/// What is to be done about the certificate of the reverse proxy.
#[derive(Clone, Copy, Debug, PartialEq, Eq, Structural)]
pub enum TlsAction {
    /// Neither file is there: a self-signed certificate is made.
    Generate,
    /// Both files are there and are kept.
    Keep,
}

/// Why the certificate of the reverse proxy cannot be used.
#[derive(Clone, Copy, Debug, PartialEq, Eq, Structural)]
pub enum TlsError {
    /// `fullchain.pem` exists but `privkey.pem` does not.
    MissingPrivKey,
    /// `privkey.pem` exists but `fullchain.pem` does not.
    MissingFullChain,
}

/// The reverse proxy.
#[derive(Debug)]
pub struct Traefik {
    pub tls_dir: String,
}

impl Traefik {
    pub open spec fn spec_service_name() -> Seq<char> {
        "traefik"@
    }

    pub fn service_name() -> (name: String)
        ensures
            name@ == Self::spec_service_name(),
    {
        String::from_str("traefik")
    }

    /// The reverse proxy that `from_config` makes, and how it leaves what it was made
    /// from.
    pub open spec fn built(
        conf: Config,
        traefik: Self,
    ) -> bool {
        &&& traefik.tls_dir@ == spec_join_path(conf.path@, "traefik-tls"@)
    }

    pub fn from_config(conf: &Config) -> (traefik: Self)
        ensures
            Self::built(*conf, traefik),
    {
        Traefik { tls_dir: join_path(conf.path.as_str(), "traefik-tls") }
    }

    /// The files that hold the certificate chain and the private key.
    pub fn tls_files(&self) -> (files: (String, String))
        ensures
            files.0@ == spec_join_path(self.tls_dir@, "fullchain.pem"@),
            files.1@ == spec_join_path(self.tls_dir@, "privkey.pem"@),
    {
        (
            join_path(self.tls_dir.as_str(), "fullchain.pem"),
            join_path(self.tls_dir.as_str(), "privkey.pem"),
        )
    }

    /// Decides what to do about the certificate, given which of its two
    /// files exist.
    pub fn tls_plan(full_chain_exists: bool, priv_key_exists: bool) -> (r: Result<
        TlsAction,
        TlsError,
    >)
        ensures
            r == match (full_chain_exists, priv_key_exists) {
                (false, false) => Ok::<TlsAction, TlsError>(TlsAction::Generate),
                (true, false) => Err::<TlsAction, TlsError>(TlsError::MissingPrivKey),
                (false, true) => Err::<TlsAction, TlsError>(TlsError::MissingFullChain),
                (true, true) => Ok::<TlsAction, TlsError>(TlsAction::Keep),
            },
    {
        match (full_chain_exists, priv_key_exists) {
            (false, false) => Ok(TlsAction::Generate),
            (true, false) => Err(TlsError::MissingPrivKey),
            (false, true) => Err(TlsError::MissingFullChain),
            (true, true) => Ok(TlsAction::Keep),
        }
    }

    /// How the store stands after a request to add the user `name`: a user
    /// that was there is left alone; a new one has a password of ten
    /// characters of the alphabet, kept in the clear beside its hash, which
    /// was made at the cost `BCRYPT_COST`.
    pub open spec fn user_added(before: LocalConf, after: LocalConf, name: Seq<char>, ok: bool) -> bool {
        if lookup(before.users(), name) is Some {
            ok && after.basic_auth_users == before.basic_auth_users
        } else if ok {
            &&& lookup(after.users(), name) matches Some(user)
            &&& after.users() == put(before.users(), name, user)
            &&& user.verified()
            &&& carries_cost(user.hash@, BCRYPT_COST)
            &&& user.cleartext() matches Some(pw)
            &&& pw.len() == PASSWORD_LEN
            &&& forall|i: int| 0 <= i < pw.len() ==> charset().contains(#[trigger] pw[i])
        } else {
            after.basic_auth_users == before.basic_auth_users
        }
    }

    /// Adds the user `middleware_name` to the reverse proxy, with a password
    /// drawn at random, unless there is such a user already.
    pub fn add_basic_auth_user(&mut self, local: &mut LocalConf, middleware_name: String) -> (r:
        Result<(), AuthError>)
        requires
            old(local).wf(),
        ensures
            final(local).wf(),
            *final(self) == *old(self),
            final(local).seed == old(local).seed,
            final(local).oidc == old(local).oidc,
            final(local).generated_secrets == old(local).generated_secrets,
            Self::user_added(*old(local), *final(local), middleware_name@, r is Ok),
            final(local).grown_from(*old(local)),
    {
        let exists = match &local.basic_auth_users {
            Some(users) => users.contains_key(middleware_name.as_str()),
            None => false,
        };
        if exists {
            return Ok(());
        }
        proof {
            if local.basic_auth_users is None {
                crate::ordered_map::lemma_lookup_none(local.users(), middleware_name@);
            }
        }
        let draws = draw_random(CHARSET_LEN, PASSWORD_LEN);
        let pw = secret_from_rng(&draws);
        let ghost name_text = middleware_name@;
        let ghost pw_text = pw@;
        let hashed = match bcrypt_hash(pw.as_str(), BCRYPT_COST) {
            Ok(hash) => Some(hash),
            Err(_) => None,
        };
        let ghost outcome = hashed;
        let ghost kept = pw;
        let r = enter_user(local, middleware_name, pw, hashed);
        proof {
            if outcome is Some {
                let user = BasicAuthUser { hash: outcome->0, pw: Some(kept) };
                crate::utils::lemma_charset_len();
                assert forall|i: int| 0 <= i < pw_text.len() implies charset().contains(
                    #[trigger] pw_text[i],
                ) by {
                    assert(pw_text[i] == charset()[draws@[i] as int]);
                }
                lemma_put(old(local).users(), name_text, user, name_text);
                if old(local).users_verified() {
                    let holds = |e: (Seq<char>, BasicAuthUser)| e.1.verified();
                    lemma_put_preserves(old(local).users(), name_text, user, holds);
                    assert forall|i: int| 0 <= i < local.users().len() implies (
                    #[trigger] local.users()[i]).1.verified() by {
                        assert(holds(local.users()[i]));
                    }
                }
                assert forall|other: Seq<char>|
                    (#[trigger] lookup(old(local).users(), other)) is Some implies lookup(
                    local.users(),
                    other,
                ) == lookup(old(local).users(), other) by {
                    lemma_put(old(local).users(), name_text, user, other);
                }
            }
            assert(local.secrets() == old(local).secrets());
            assert(local.oidc_entries() == old(local).oidc_entries());
        }
        r
    }
}

/// Enters the user `name` with the password `pw` into the store, where
/// hashing the password gave `hashed`: with a hash the user is kept, the
/// password in the clear beside the hash; without one nothing is kept and
/// the request fails. The store holds no such user yet.
pub fn enter_user(local: &mut LocalConf, name: String, pw: String, hashed: Option<String>) -> (r:
    Result<(), AuthError>)
    requires
        old(local).wf(),
        lookup(old(local).users(), name@) is None,
    ensures
        final(local).wf(),
        final(local).seed == old(local).seed,
        final(local).oidc == old(local).oidc,
        final(local).generated_secrets == old(local).generated_secrets,
        match hashed {
            Some(hash) => r is Ok && final(local).users() == put(
                old(local).users(),
                name@,
                (BasicAuthUser { hash, pw: Some(pw) }),
            ),
            None => r == Err::<(), AuthError>(AuthError::Hash) && final(local).basic_auth_users
                == old(local).basic_auth_users,
        },
{
    let hash = match hashed {
        Some(hash) => hash,
        None => {
            return Err(AuthError::Hash);
        },
    };
    let user = BasicAuthUser { hash, pw: Some(pw) };
    let mut users = match local.basic_auth_users.take() {
        Some(users) => users,
        None => OrderedMap::new(),
    };
    users.insert(name, user);
    local.basic_auth_users = Some(users);
    Ok(())
}

} // verus!
