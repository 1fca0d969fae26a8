//! The two layers of configuration: the declared document of the site and the
//! local store that the tool keeps beside it.

use vstd::prelude::*;
use vstd::string::*;

use crate::modules::bbmri::BbmriConfig;
use crate::modules::ccp::CcpConfig;
use crate::modules::dnpm::DnpmConfig;
use crate::ordered_map::{
    first_not_before, first_with_key, lemma_first_not_before_range, lemma_first_with_key,
    lemma_put, lemma_put_commutes, lemma_put_preserves, lemma_put_twice, lookup, put, sorted_keys,
    OrderedMap,
};
use crate::secret::{
    is_secret, canonical_name, generate_seed, lemma_canonical_name_is_env_key, mint, placeholder,
    spec_canonical_name, spec_mint, spec_placeholder,
};
use crate::services::traefik::BasicAuthUser;
use crate::utils::{
    concat2, concat3, is_digit, is_env_char, is_env_key, is_lower, is_plain, is_upper,
    lemma_uppercase_ascii, spec_upper_ascii, spec_uppercase, uppercase,
};

verus! {

/// What `{:?}` prints for a text: the text between double quotes, with the
/// characters that need it escaped.
pub uninterp spec fn debug_form(s: Seq<char>) -> Seq<char>;

/// Formats a text with the standard library's `Debug` for `str`, which is a
/// function of the text alone.
#[verifier::external_body]
fn std_debug_form(s: &str) -> (r: String)
    ensures
        r@ == debug_form(s@),
{
    format!("{s:?}")
}

/// Asks `std::path::Path::is_absolute`. What counts as absolute depends on
/// the platform, so nothing is claimed of the answer.
#[verifier::external_body]
fn std_path_is_absolute(path: &str) -> bool {
    std::path::Path::new(path).is_absolute()
}

/// The stage a site runs in.
#[derive(Clone, Copy, Debug, PartialEq, Eq, Structural)]
pub enum Environment {
    Production,
    Acceptance,
    Test,
}

impl Default for Environment {
    fn default() -> (e: Self)
        ensures
            e == Environment::Production,
    {
        Environment::Production
    }
}

/// The name under which the site is reached: a domain, or an address in its
/// usual notation (an IPv6 address without brackets).
#[derive(Debug)]
pub enum Host {
    Domain(String),
    Ipv4(String),
    Ipv6(String),
}

impl Host {
    /// The host as it stands in a URL.
    pub open spec fn spec_text(&self) -> Seq<char> {
        match self {
            Host::Domain(d) => d@,
            Host::Ipv4(a) => a@,
            Host::Ipv6(a) => "["@ + a@ + "]"@,
        }
    }

    pub fn text(&self) -> (t: String)
        ensures
            t@ == self.spec_text(),
    {
        match self {
            Host::Domain(d) => d.clone(),
            Host::Ipv4(a) => a.clone(),
            Host::Ipv6(a) => concat3("[", a.as_str(), "]"),
        }
    }
}

/// Why a configuration was not accepted.
#[derive(Debug)]
pub enum ConfigError {
    /// The path of the configuration directory is not absolute.
    NotAbsolute { path: String },
}

impl ConfigError {
    pub open spec fn spec_message(&self) -> Seq<char> {
        match self {
            ConfigError::NotAbsolute { path } => "Path to config must be absolute unlike "@
                + debug_form(path@),
        }
    }

    /// One line that names the cause, here the offending path.
    pub fn message(&self) -> (m: String)
        ensures
            m@ == self.spec_message(),
    {
        match self {
            ConfigError::NotAbsolute { path } => {
                let quoted = std_debug_form(path.as_str());
                concat2("Path to config must be absolute unlike ", quoted.as_str())
            },
        }
    }
}

/// `base` followed by `name`, with one `/` between them.
pub open spec fn spec_join_path(base: Seq<char>, name: Seq<char>) -> Seq<char> {
    if base.len() > 0 && base.last() == '/' {
        base + name
    } else {
        base + "/"@ + name
    }
}

pub fn join_path(base: &str, name: &str) -> (p: String)
    ensures
        p@ == spec_join_path(base@, name@),
{
    let n = base.unicode_len();
    if n > 0 && base.get_char(n - 1) == '/' {
        concat2(base, name)
    } else {
        concat3(base, "/", name)
    }
}

/// The declared document of a site, and the directory it was read from.
#[derive(Debug)]
pub struct Config {
    pub site_id: String,
    pub hostname: Host,
    pub environment: Environment,
    pub version_tag: String,
    pub https_proxy_url: Option<String>,
    pub remote_sync: Option<bool>,
    pub ccp: Option<CcpConfig>,
    pub bbmri: Option<BbmriConfig>,
    pub dnpm: Option<DnpmConfig>,
    pub path: String,
}

impl Config {
    /// The maps inside the document are in key order.
    pub open spec fn wf(&self) -> bool {
        self.ccp matches Some(ccp) ==> (ccp.id_manager matches Some(idm) ==> idm.seeds.wf())
    }

    /// Puts a configuration together from what was read: the directory, the
    /// answer to whether its path is absolute, the declared document, the
    /// local store if one could be read, and a fresh store to use if not.
    pub fn assemble(
        path: String,
        absolute: bool,
        declared: Config,
        local: Option<LocalConf>,
        fresh: LocalConf,
    ) -> (r: Result<(Config, LocalConf), ConfigError>)
        ensures
            !absolute ==> r == Err::<(Config, LocalConf), ConfigError>(
                ConfigError::NotAbsolute { path },
            ),
            absolute ==> r == Ok::<(Config, LocalConf), ConfigError>(
                (
                    Config { path, ..declared },
                    match local {
                        Some(l) => l,
                        None => fresh,
                    },
                ),
            ),
    {
        if !absolute {
            return Err(ConfigError::NotAbsolute { path });
        }
        let mut conf = declared;
        conf.path = path;
        let store = match local {
            Some(l) => l,
            None => fresh,
        };
        Ok((conf, store))
    }

    /// Accepts the declared document read from the directory `path`, together
    /// with the local store if one could be read. A path that is not absolute
    /// is refused; a missing local store is replaced by a fresh one.
    pub fn load(path: String, declared: Config, local: Option<LocalConf>) -> (r: Result<
        (Config, LocalConf),
        ConfigError,
    >)
        ensures
            match r {
                Ok((conf, store)) => {
                    &&& conf == (Config { path, ..declared })
                    &&& match local {
                        Some(l) => store == l,
                        None => store.is_fresh(),
                    }
                },
                Err(e) => e == (ConfigError::NotAbsolute { path }),
            },
    {
        let absolute = std_path_is_absolute(path.as_str());
        let fresh = LocalConf::default();
        Config::assemble(path, absolute, declared, local, fresh)
    }

    pub fn trusted_ca_certs(&self) -> (p: String)
        ensures
            p@ == spec_join_path(self.path@, "trusted-ca-certs"@),
    {
        join_path(self.path.as_str(), "trusted-ca-certs")
    }

    pub fn local_conf_path(&self) -> (p: String)
        ensures
            p@ == spec_join_path(self.path@, "config.local.toml"@),
    {
        join_path(self.path.as_str(), "config.local.toml")
    }

    pub fn env_path(&self) -> (p: String)
        ensures
            p@ == spec_join_path(self.path@, ".env"@),
    {
        join_path(self.path.as_str(), ".env")
    }

    pub fn services_dir(&self) -> (p: String)
        ensures
            p@ == spec_join_path(self.path@, "services"@),
    {
        join_path(self.path.as_str(), "services")
    }

    pub fn launcher_path(&self) -> (p: String)
        ensures
            p@ == spec_join_path(self.path@, "bridgehead"@),
    {
        join_path(self.path.as_str(), "bridgehead")
    }
}

/// The entries of a map of texts, each value as its text.
pub open spec fn texts(s: Seq<(Seq<char>, String)>) -> Seq<(Seq<char>, Seq<char>)> {
    Seq::new(s.len(), |i: int| (s[i].0, s[i].1@))
}

proof fn lemma_texts_position(s: Seq<(Seq<char>, String)>, k: Seq<char>, i: int)
    requires
        0 <= i <= s.len(),
    ensures
        first_not_before(texts(s), k, i) == first_not_before(s, k, i),
    decreases s.len() - i,
{
    if i < s.len() {
        assert(texts(s)[i].0 == s[i].0);
        lemma_texts_position(s, k, i + 1);
    }
}

/// Binding a key in a map of texts binds it in the map's texts.
pub proof fn lemma_texts_put(s: Seq<(Seq<char>, String)>, k: Seq<char>, v: String)
    ensures
        texts(put(s, k, v)) == put(texts(s), k, v@),
        sorted_keys(texts(s)) == sorted_keys(s),
{
    lemma_texts_position(s, k, 0);
    lemma_first_not_before_range(s, k, 0);
    let p = first_not_before(s, k, 0);
    if p < s.len() {
        assert(texts(s)[p].0 == s[p].0);
    }
    assert(texts(put(s, k, v)) =~= put(texts(s), k, v@));
    if sorted_keys(s) {
        assert forall|i: int, j: int| 0 <= i < j < s.len() implies crate::ordered_map::text_lt(
            #[trigger] texts(s)[i].0,
            #[trigger] texts(s)[j].0,
        ) by {
            assert(texts(s)[i].0 == s[i].0 && texts(s)[j].0 == s[j].0);
        }
    }
    if sorted_keys(texts(s)) {
        assert forall|i: int, j: int| 0 <= i < j < s.len() implies crate::ordered_map::text_lt(
            #[trigger] s[i].0,
            #[trigger] s[j].0,
        ) by {
            assert(texts(s)[i].0 == s[i].0 && texts(s)[j].0 == s[j].0);
        }
    }
}

/// `secrets` after the secret `name` of `service`, `len` characters long, was
/// minted at a site with the seed `seed`.
pub open spec fn spec_minted(
    secrets: Seq<(Seq<char>, Seq<char>)>,
    seed: u32,
    service: Seq<char>,
    name: Seq<char>,
    len: usize,
) -> Seq<(Seq<char>, Seq<char>)> {
    put(
        secrets,
        spec_canonical_name(service, name),
        spec_mint(seed, spec_canonical_name(service, name), len),
    )
}

/// The line of the environment file that binds `key` to `value`.
pub open spec fn spec_env_line(key: Seq<char>, value: Seq<char>) -> Seq<char> {
    key + "=\""@ + value + "\"\n"@
}

pub open spec fn spec_env_lines(entries: Seq<(Seq<char>, Seq<char>)>) -> Seq<char>
    decreases entries.len(),
{
    if entries.len() == 0 {
        Seq::<char>::empty()
    } else {
        spec_env_lines(entries.drop_last()) + spec_env_line(entries.last().0, entries.last().1)
    }
}

/// The key under which the environment file carries the OIDC entry `key`.
pub open spec fn spec_oidc_env_key(key: Seq<char>) -> Seq<char> {
    "OIDC_"@ + spec_uppercase(key)
}

pub open spec fn spec_oidc_env(oidc: Seq<(Seq<char>, Seq<char>)>) -> Seq<(Seq<char>, Seq<char>)> {
    Seq::new(oidc.len(), |i: int| (spec_oidc_env_key(oidc[i].0), oidc[i].1))
}

pub const ENV_HEADER: &'static str =
    "# This file is auto generated please modify config.toml or config.local.toml instead!\n\n";

/// The environment file for the given bindings: the header, then one line
/// for each binding.
pub open spec fn spec_env_text(entries: Seq<(Seq<char>, Seq<char>)>) -> Seq<char> {
    ENV_HEADER@ + spec_env_lines(entries)
}

/// A character of an identifier: an ASCII letter, a digit or `_`.
pub open spec fn is_ident_char(c: char) -> bool {
    is_lower(c) || is_upper(c) || is_digit(c) || c == '_'
}

pub open spec fn is_ident(s: Seq<char>) -> bool {
    forall|i: int| 0 <= i < s.len() ==> is_ident_char(#[trigger] s[i])
}

/// The store that the tool keeps beside the declared document: the site's
/// seed, what the OIDC issuer handed out, the users of the reverse proxy, and
/// the secrets minted in this run.
#[derive(Debug)]
pub struct LocalConf {
    pub seed: u32,
    pub oidc: Option<OrderedMap<String>>,
    pub basic_auth_users: Option<OrderedMap<BasicAuthUser>>,
    pub generated_secrets: OrderedMap<String>,
}

impl Default for LocalConf {
    /// A fresh store with a seed drawn at random.
    fn default() -> (store: Self)
        ensures
            store.is_fresh(),
    {
        LocalConf::new(generate_seed())
    }
}

impl LocalConf {
    /// All three maps are in key order.
    pub open spec fn wf(&self) -> bool {
        &&& self.generated_secrets.wf()
        &&& self.oidc matches Some(m) ==> m.wf()
        &&& self.basic_auth_users matches Some(m) ==> m.wf()
    }

    /// The OIDC entries in key order; none where the section is missing.
    pub open spec fn oidc_entries(&self) -> Seq<(Seq<char>, Seq<char>)> {
        match self.oidc {
            Some(m) => texts(m@),
            None => Seq::empty(),
        }
    }

    /// The users of the reverse proxy in key order; none where the section is
    /// missing.
    pub open spec fn users(&self) -> Seq<(Seq<char>, BasicAuthUser)> {
        match self.basic_auth_users {
            Some(m) => m@,
            None => Seq::empty(),
        }
    }

    /// The minted secrets in key order.
    pub open spec fn secrets(&self) -> Seq<(Seq<char>, Seq<char>)> {
        texts(self.generated_secrets@)
    }

    /// A store as it is when nothing was kept yet.
    pub open spec fn is_fresh(&self) -> bool {
        &&& self.wf()
        &&& self.oidc is None
        &&& self.basic_auth_users is None
        &&& self.generated_secrets@.len() == 0
    }

    /// The bindings of the environment file: the OIDC entries under their
    /// `OIDC_` keys, then the minted secrets.
    pub open spec fn env_entries(&self) -> Seq<(Seq<char>, Seq<char>)> {
        spec_oidc_env(self.oidc_entries()) + self.secrets()
    }

    /// Every key of the store gives the name of an environment variable: the
    /// OIDC keys are identifiers and the secrets are kept under such names.
    pub open spec fn env_ready(&self) -> bool {
        &&& forall|i: int|
            0 <= i < self.oidc_entries().len() ==> is_ident(#[trigger] self.oidc_entries()[i].0)
        &&& forall|i: int|
            0 <= i < self.secrets().len() ==> is_env_key(#[trigger] self.secrets()[i].0)
    }

    /// Every user whose password is still kept in the clear has the hash of
    /// that password.
    pub open spec fn users_verified(&self) -> bool {
        forall|i: int| 0 <= i < self.users().len() ==> (#[trigger] self.users()[i]).1.verified()
    }

    /// The store after some service was built from `before`: still well
    /// formed, with the same seed and the same OIDC entries, as fit for the
    /// environment file and as well verified as it was, and with every user
    /// and every name of a secret that it held.
    pub open spec fn grown_from(&self, before: LocalConf) -> bool {
        &&& self.wf()
        &&& self.seed == before.seed
        &&& self.oidc == before.oidc
        &&& before.users_verified() ==> self.users_verified()
        &&& before.env_ready() ==> self.env_ready()
        &&& forall|user: Seq<char>|
            (#[trigger] lookup(before.users(), user)) is Some ==> lookup(self.users(), user)
                == lookup(before.users(), user)
        &&& forall|name: Seq<char>|
            (#[trigger] lookup(before.secrets(), name)) is Some ==> lookup(
                self.secrets(),
                name,
            ) is Some
    }

    pub fn new(seed: u32) -> (store: Self)
        ensures
            store.is_fresh(),
            store.seed == seed,
    {
        LocalConf { seed, oidc: None, basic_auth_users: None, generated_secrets: OrderedMap::new() }
    }

    /// Checks every user whose password is still kept in the clear against
    /// its hash.
    pub fn check_users(&self) -> (ok: bool)
        requires
            self.wf(),
        ensures
            ok == self.users_verified(),
    {
        match &self.basic_auth_users {
            None => true,
            Some(users) => {
                let mut i: usize = 0;
                while i < users.len()
                    invariant
                        i <= users@.len(),
                        self.basic_auth_users == Some(*users),
                        forall|j: int| 0 <= j < i ==> (#[trigger] users@[j]).1.verified(),
                    decreases users@.len() - i,
                {
                    if !users.value_at(i).check() {
                        proof {
                            assert(!self.users()[i as int].1.verified());
                        }
                        return false;
                    }
                    i += 1;
                }
                true
            },
        }
    }

    /// Mints the secret `name` of the service `service_name`, `len`
    /// characters long, keeps it under its canonical name and hands back the
    /// placeholder that stands for it in a template.
    pub fn generate_secret(&mut self, len: usize, service_name: &str, name: &str) -> (var: String)
        requires
            old(self).wf(),
        ensures
            final(self).wf(),
            var@ == spec_placeholder(spec_canonical_name(service_name@, name@)),
            final(self).secrets() == put(
                old(self).secrets(),
                spec_canonical_name(service_name@, name@),
                spec_mint(old(self).seed, spec_canonical_name(service_name@, name@), len),
            ),
            is_secret(
                spec_mint(old(self).seed, spec_canonical_name(service_name@, name@), len),
                len,
            ),
            final(self).seed == old(self).seed,
            final(self).oidc == old(self).oidc,
            final(self).basic_auth_users == old(self).basic_auth_users,
            old(self).env_ready() && is_plain(service_name@) && is_plain(name@)
                ==> final(self).env_ready(),
            is_plain(service_name@) && is_plain(name@) ==> final(self).grown_from(*old(self)),
    {
        let canonical = canonical_name(service_name, name);
        let secret = mint(self.seed, canonical.as_str(), len);
        let var = placeholder(canonical.as_str());
        proof {
            lemma_texts_put(self.generated_secrets@, canonical@, secret);
            if is_plain(service_name@) && is_plain(name@) {
                lemma_canonical_name_is_env_key(service_name@, name@);
            }
            if old(self).env_ready() && is_plain(service_name@) && is_plain(name@) {
                let holds = |e: (Seq<char>, Seq<char>)| is_env_key(e.0);
                assert forall|i: int| 0 <= i < old(self).secrets().len() implies holds(
                    #[trigger] old(self).secrets()[i],
                ) by {
                    assert(is_env_key(old(self).secrets()[i].0));
                }
                lemma_put_preserves(old(self).secrets(), canonical@, secret@, holds);
            }
        }
        self.generated_secrets.insert(canonical, secret);
        proof {
            if old(self).env_ready() && is_plain(service_name@) && is_plain(name@) {
                let holds = |e: (Seq<char>, Seq<char>)| is_env_key(e.0);
                assert forall|i: int| 0 <= i < self.secrets().len() implies is_env_key(
                    #[trigger] self.secrets()[i].0,
                ) by {
                    assert(holds(self.secrets()[i]));
                }
                assert(self.oidc_entries() == old(self).oidc_entries());
                assert(self.env_ready());
            }
            assert(self.users() == old(self).users());
            assert forall|n: Seq<char>|
                (#[trigger] lookup(old(self).secrets(), n)) is Some implies lookup(
                self.secrets(),
                n,
            ) is Some by {
                lemma_put(old(self).secrets(), canonical@, secret@, n);
            }
        }
        var
    }

    /// The environment file: one line for each OIDC entry, under its `OIDC_`
    /// key, and one for each minted secret.
    pub fn to_env(&self) -> (env: String)
        requires
            self.wf(),
        ensures
            env@ == spec_env_text(self.env_entries()),
    {
        let mut env = String::from_str(ENV_HEADER);
        let ghost oidc_env = spec_oidc_env(self.oidc_entries());
        match &self.oidc {
            Some(oidc) => {
                let mut i: usize = 0;
                while i < oidc.len()
                    invariant
                        i <= oidc@.len(),
                        self.oidc == Some(*oidc),
                        oidc_env == spec_oidc_env(self.oidc_entries()),
                        env@ == ENV_HEADER@ + spec_env_lines(oidc_env.subrange(0, i as int)),
                    decreases oidc@.len() - i,
                {
                    let upper = uppercase(oidc.key_at(i).as_str());
                    let key = concat2("OIDC_", upper.as_str());
                    proof {
                        let next = oidc_env.subrange(0, i + 1);
                        assert(next.drop_last() == oidc_env.subrange(0, i as int));
                        assert(next.last() == (key@, oidc@[i as int].1@));
                    }
                    push_env_line(&mut env, key.as_str(), oidc.value_at(i).as_str());
                    i += 1;
                }
                proof {
                    assert(oidc_env.subrange(0, oidc_env.len() as int) == oidc_env);
                }
            },
            None => {
                proof {
                    assert(oidc_env.subrange(0, 0) == oidc_env);
                }
            },
        }
        let ghost all = self.env_entries();
        let mut j: usize = 0;
        proof {
            assert(all.subrange(0, oidc_env.len() as int) == oidc_env);
        }
        while j < self.generated_secrets.len()
            invariant
                j <= self.generated_secrets@.len(),
                all == self.env_entries(),
                oidc_env == spec_oidc_env(self.oidc_entries()),
                env@ == ENV_HEADER@ + spec_env_lines(all.subrange(0, oidc_env.len() + j)),
            decreases self.generated_secrets@.len() - j,
        {
            proof {
                let next = all.subrange(0, oidc_env.len() + j + 1);
                assert(next.drop_last() == all.subrange(0, oidc_env.len() + j));
                assert(next.last() == self.secrets()[j as int]);
            }
            push_env_line(
                &mut env,
                self.generated_secrets.key_at(j).as_str(),
                self.generated_secrets.value_at(j).as_str(),
            );
            j += 1;
        }
        proof {
            assert(all.subrange(0, all.len() as int) == all);
        }
        env
    }
}

fn push_env_line(env: &mut String, key: &str, value: &str)
    ensures
        final(env)@ == old(env)@ + spec_env_line(key@, value@),
{
    env.append(key);
    env.append("=\"");
    env.append(value);
    env.append("\"\n");
    assert(final(env)@ == old(env)@ + spec_env_line(key@, value@));
}

/// The key that the environment file carries for an OIDC entry with an
/// identifier as its key is the name of an environment variable.
pub proof fn lemma_oidc_env_key(key: Seq<char>)
    requires
        is_ident(key),
    ensures
        is_env_key(spec_oidc_env_key(key)),
{
    reveal_strlit("OIDC_");
    assert forall|i: int| 0 <= i < key.len() implies crate::utils::is_ascii_char(
        #[trigger] key[i],
    ) by {}
    lemma_uppercase_ascii(key);
    let u = spec_uppercase(key);
    let k = spec_oidc_env_key(key);
    assert forall|i: int| 0 <= i < k.len() implies is_env_char(#[trigger] k[i]) by {
        if i >= 5 {
            assert(k[i] == u[i - 5]);
            assert(u[i - 5] == spec_upper_ascii(key[i - 5]));
        }
    }
}

/// Every key of the environment file is made of `A` to `Z`, the digits and
/// `_`, provided the store's own keys are as `env_ready` asks.
pub proof fn lemma_env_keys(store: LocalConf)
    requires
        store.env_ready(),
    ensures
        forall|i: int|
            0 <= i < store.env_entries().len() ==> is_env_key(#[trigger] store.env_entries()[i].0),
{
    let oidc = store.oidc_entries();
    let all = store.env_entries();
    assert forall|i: int| 0 <= i < all.len() implies is_env_key(#[trigger] all[i].0) by {
        if i < oidc.len() {
            assert(is_ident(oidc[i].0));
            lemma_oidc_env_key(oidc[i].0);
        } else {
            assert(all[i] == store.secrets()[i - oidc.len()]);
        }
    }
}

/// Two stores with the same seed mint the same secret under the same name,
/// and two stores with the same entries give the same environment file.
pub proof fn lemma_same_seed_same_output(
    a: LocalConf,
    b: LocalConf,
    service: Seq<char>,
    logical: Seq<char>,
    len: usize,
)
    requires
        a.seed == b.seed,
    ensures
        spec_mint(a.seed, spec_canonical_name(service, logical), len) == spec_mint(
            b.seed,
            spec_canonical_name(service, logical),
            len,
        ),
        a.env_entries() == b.env_entries() ==> spec_env_text(a.env_entries()) == spec_env_text(
            b.env_entries(),
        ),
{
}

/// A store that has grown from one that has grown from a third has grown
/// from the third.
pub proof fn lemma_grown_twice(first: LocalConf, second: LocalConf, third: LocalConf)
    requires
        second.grown_from(first),
        third.grown_from(second),
    ensures
        third.grown_from(first),
{
    assert forall|user: Seq<char>| (#[trigger] lookup(first.users(), user)) is Some implies lookup(
        third.users(),
        user,
    ) == lookup(first.users(), user) by {
        assert(lookup(second.users(), user) is Some);
    }
    assert forall|name: Seq<char>|
        (#[trigger] lookup(first.secrets(), name)) is Some implies lookup(
        third.secrets(),
        name,
    ) is Some by {
        assert(lookup(second.secrets(), name) is Some);
    }
}

/// A secret that the store holds has its line in the environment file.
pub proof fn lemma_secret_in_env(store: LocalConf, name: Seq<char>)
    requires
        lookup(store.secrets(), name) is Some,
    ensures
        exists|i: int|
            0 <= i < store.env_entries().len() && #[trigger] store.env_entries()[i] == (
                name,
                lookup(store.secrets(), name)->0,
            ),
{
    let secrets = store.secrets();
    lemma_first_with_key(secrets, name, 0);
    let p = first_with_key(secrets, name, 0);
    let at = spec_oidc_env(store.oidc_entries()).len() + p;
    assert(store.env_entries()[at] == secrets[p]);
}

/// Minting a secret that the store already holds leaves its secrets as they
/// are.
pub proof fn lemma_mint_again(
    secrets: Seq<(Seq<char>, Seq<char>)>,
    seed: u32,
    canonical: Seq<char>,
    len: usize,
)
    requires
        sorted_keys(secrets),
    ensures
        put(
            put(secrets, canonical, spec_mint(seed, canonical, len)),
            canonical,
            spec_mint(seed, canonical, len),
        ) == put(secrets, canonical, spec_mint(seed, canonical, len)),
{
    lemma_put_twice(secrets, canonical, spec_mint(seed, canonical, len));
}

/// The secrets of a store do not depend on the order in which they were
/// minted: two secrets of different names may be minted in either order.
pub proof fn lemma_mint_order(
    secrets: Seq<(Seq<char>, Seq<char>)>,
    seed: u32,
    first_service: Seq<char>,
    first_name: Seq<char>,
    first_len: usize,
    second_service: Seq<char>,
    second_name: Seq<char>,
    second_len: usize,
)
    requires
        sorted_keys(secrets),
        spec_canonical_name(first_service, first_name) != spec_canonical_name(
            second_service,
            second_name,
        ),
    ensures
        spec_minted(
            spec_minted(secrets, seed, first_service, first_name, first_len),
            seed,
            second_service,
            second_name,
            second_len,
        ) == spec_minted(
            spec_minted(secrets, seed, second_service, second_name, second_len),
            seed,
            first_service,
            first_name,
            first_len,
        ),
{
    let first = spec_canonical_name(first_service, first_name);
    let second = spec_canonical_name(second_service, second_name);
    lemma_put_commutes(
        secrets,
        first,
        spec_mint(seed, first, first_len),
        second,
        spec_mint(seed, second, second_len),
    );
}

} // verus!
