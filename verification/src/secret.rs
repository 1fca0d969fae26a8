//! The secret mint: named secrets that depend on nothing but the site's seed
//! and the name they are minted under.

use rand::rngs::StdRng;
use rand::{Rng, SeedableRng};
use vstd::prelude::*;
use vstd::string::*;
use vstd::utf8::*;

use crate::utils::{
    charset, concat3, lemma_charset_len, is_ascii_char, is_env_char, is_env_key, is_plain, lemma_uppercase_ascii,
    replace_char, secret_from_rng, spec_replace_char, spec_secret, spec_upper_ascii,
    spec_uppercase, uppercase, CHARSET_LEN,
};

verus! {

/// The values that a `StdRng` seeded by `seed_from_u64(seed)` yields for
/// `count` calls of `random_range(0..bound)` in a row.
pub uninterp spec fn seeded_draws(seed: u64, bound: usize, count: usize) -> Seq<usize>;

/// Seeds rand's `StdRng` with `SeedableRng::seed_from_u64` and draws `count`
/// values with `Rng::random_range(0..bound)`. The generator is a
/// deterministic stream cipher: the values depend on the three arguments
/// alone. There are `count` of them and each lies below `bound`, as
/// `random_range` promises of a non-empty range; an empty one makes it panic.
#[verifier::external_body]
fn draw_seeded(seed: u64, bound: usize, count: usize) -> (draws: Vec<usize>)
    requires
        bound > 0,
    ensures
        draws@ == seeded_draws(seed, bound, count),
        draws@.len() == count,
        forall|i: int| 0 <= i < draws@.len() ==> draws@[i] < bound,
{
    let mut rng = StdRng::seed_from_u64(seed);
    let mut draws = Vec::new();
    for _ in 0..count {
        draws.push(rng.random_range(0..bound));
    }
    draws
}

/// Draws `count` values below `bound` with `Rng::random_range` from rand's
/// thread-local generator, `rand::rng()`. What comes out differs from call to
/// call; only the number of values and their range are known.
#[verifier::external_body]
pub(crate) fn draw_random(bound: usize, count: usize) -> (draws: Vec<usize>)
    requires
        bound > 0,
    ensures
        draws@.len() == count,
        forall|i: int| 0 <= i < draws@.len() ==> draws@[i] < bound,
{
    let mut rng = rand::rng();
    let mut draws = Vec::new();
    for _ in 0..count {
        draws.push(rng.random_range(0..bound));
    }
    draws
}

/// Draws a seed from rand's thread-local generator with `Rng::random`. Any
/// value may come out.
#[verifier::external_body]
pub(crate) fn generate_seed() -> u32 {
    rand::rng().random()
}

/// One half of a canonical name: upper case, with `_` for `-`.
pub open spec fn spec_canonical_part(s: Seq<char>) -> Seq<char> {
    spec_replace_char(spec_uppercase(s), '-', '_')
}

/// The name under which the secret `logical` of the service `service` is
/// kept: `SERVICE_LOGICAL`.
pub open spec fn spec_canonical_name(service: Seq<char>, logical: Seq<char>) -> Seq<char> {
    spec_canonical_part(service) + "_"@ + spec_canonical_part(logical)
}

/// The text that stands for the secret in a template: `${NAME}`.
pub open spec fn spec_placeholder(canonical: Seq<char>) -> Seq<char> {
    "${"@ + canonical + "}"@
}

/// One step of the salt: `a * 31 + b` in 64 bits.
pub open spec fn spec_salt_step(a: u64, b: u8) -> u64 {
    ((a as int * 31 + b as int) % 0x1_0000_0000_0000_0000) as u64
}

/// The salt of a name: its bytes folded from the left with `a * 31 + b`,
/// starting from zero.
pub open spec fn spec_salt(bytes: Seq<u8>) -> u64
    decreases bytes.len(),
{
    if bytes.len() == 0 {
        0
    } else {
        spec_salt_step(spec_salt(bytes.drop_last()), bytes.last())
    }
}

/// A secret of `len` characters, all of them of the alphabet.
pub open spec fn is_secret(s: Seq<char>, len: usize) -> bool {
    &&& s.len() == len
    &&& forall|i: int| 0 <= i < s.len() ==> charset().contains(#[trigger] s[i])
}

/// The seed of the generator that mints the secret kept under `canonical`.
pub open spec fn spec_mint_seed(site_seed: u32, canonical: Seq<char>) -> u64 {
    (site_seed as u64) ^ spec_salt(encode_utf8(canonical))
}

/// The secret of `len` characters kept under `canonical` at a site with the
/// seed `site_seed`.
pub open spec fn spec_mint(site_seed: u32, canonical: Seq<char>, len: usize) -> Seq<char> {
    spec_secret(seeded_draws(spec_mint_seed(site_seed, canonical), CHARSET_LEN, len))
}

pub fn canonical_name(service: &str, logical: &str) -> (name: String)
    ensures
        name@ == spec_canonical_name(service@, logical@),
{
    let s = uppercase(service);
    let s = replace_char(s.as_str(), '-', '_');
    let l = uppercase(logical);
    let l = replace_char(l.as_str(), '-', '_');
    concat3(s.as_str(), "_", l.as_str())
}

pub fn placeholder(canonical: &str) -> (text: String)
    ensures
        text@ == spec_placeholder(canonical@),
{
    concat3("${", canonical, "}")
}

pub fn salt(name: &str) -> (a: u64)
    ensures
        a == spec_salt(encode_utf8(name@)),
{
    let bytes = name.as_bytes_vec();
    let mut a: u64 = 0;
    let mut i: usize = 0;
    while i < bytes.len()
        invariant
            i <= bytes@.len(),
            a == spec_salt(bytes@.subrange(0, i as int)),
        decreases bytes@.len() - i,
    {
        proof {
            let next = bytes@.subrange(0, i + 1);
            assert(next.drop_last() == bytes@.subrange(0, i as int));
            assert(next.last() == bytes@[i as int]);
        }
        let wide: u128 = (a as u128) * 31 + (bytes[i] as u128);
        a = (wide % 0x1_0000_0000_0000_0000u128) as u64;
        i += 1;
    }
    proof {
        assert(bytes@.subrange(0, bytes@.len() as int) == bytes@);
    }
    a
}

/// Mints the secret of `len` characters that belongs to `canonical` at a site
/// with the seed `site_seed`. The same three values give the same secret.
pub fn mint(site_seed: u32, canonical: &str, len: usize) -> (secret: String)
    ensures
        secret@ == spec_mint(site_seed, canonical@, len),
        is_secret(secret@, len),
{
    let seed = (site_seed as u64) ^ salt(canonical);
    let draws = draw_seeded(seed, CHARSET_LEN, len);
    let secret = secret_from_rng(&draws);
    proof {
        lemma_charset_len();
        assert forall|i: int| 0 <= i < secret@.len() implies charset().contains(
            #[trigger] secret@[i],
        ) by {
            assert(secret@[i] == charset()[draws@[i] as int]);
        }
    }
    secret
}

/// A canonical name made of plain names is the name of an environment
/// variable.
pub proof fn lemma_canonical_name_is_env_key(service: Seq<char>, logical: Seq<char>)
    requires
        is_plain(service),
        is_plain(logical),
    ensures
        is_env_key(spec_canonical_name(service, logical)),
{
    reveal_strlit("_");
    lemma_canonical_part(service);
    lemma_canonical_part(logical);
    let a = spec_canonical_part(service);
    let b = spec_canonical_part(logical);
    let n = spec_canonical_name(service, logical);
    assert(n.len() == a.len() + 1 + b.len());
    assert forall|i: int| 0 <= i < n.len() implies is_env_char(#[trigger] n[i]) by {
        if i < a.len() {
            assert(n[i] == a[i]);
        } else if i == a.len() {
            assert(n[i] == '_');
        } else {
            assert(n[i] == b[i - a.len() - 1]);
        }
    }
}

proof fn lemma_canonical_part(s: Seq<char>)
    requires
        is_plain(s),
    ensures
        spec_canonical_part(s).len() == s.len(),
        forall|i: int| 0 <= i < s.len() ==> is_env_char(#[trigger] spec_canonical_part(s)[i]),
{
    assert forall|i: int| 0 <= i < s.len() implies is_ascii_char(#[trigger] s[i]) by {}
    lemma_uppercase_ascii(s);
    let u = spec_uppercase(s);
    assert forall|i: int| 0 <= i < s.len() implies is_env_char(
        #[trigger] spec_canonical_part(s)[i],
    ) by {
        assert(u[i] == spec_upper_ascii(s[i]));
    }
}

} // verus!
