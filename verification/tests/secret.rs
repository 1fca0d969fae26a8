use bridgehead::secret::{canonical_name, mint, placeholder, salt};
use bridgehead::utils::CHARSET;

#[test]
fn canonical_name_is_upper_case_with_underscores() {
    assert_eq!(canonical_name("ccp-beam-proxy", "focus_key"), "CCP_BEAM_PROXY_FOCUS_KEY");
    assert_eq!(canonical_name("ccp-datashield", "token-manager"), "CCP_DATASHIELD_TOKEN_MANAGER");
    assert_eq!(canonical_name("a", "b"), "A_B");
}

#[test]
fn placeholder_wraps_the_name() {
    assert_eq!(placeholder("CCP_FOCUS_BEAM_SECRET"), "${CCP_FOCUS_BEAM_SECRET}");
}

#[test]
fn salt_folds_the_bytes_with_31() {
    assert_eq!(salt(""), 0);
    assert_eq!(salt("A"), 65);
    assert_eq!(salt("AB"), 65 * 31 + 66);
    assert_eq!(salt("ABC"), (65 * 31 + 66) * 31 + 67);
}

#[test]
fn salt_wraps_around_in_64_bits() {
    let name = "CCP_DATASHIELD_TOKEN_MANAGER";
    let mut want: u64 = 0;
    for b in name.bytes() {
        want = want.wrapping_mul(31).wrapping_add(b as u64);
    }
    assert_eq!(salt(name), want);
}

#[test]
fn mint_draws_from_the_alphabet() {
    let secret = mint(42, "CCP_FOCUS_BEAM_SECRET", 10);
    assert_eq!(secret.chars().count(), 10);
    assert!(secret.chars().all(|c| CHARSET.contains(c)));
    assert_eq!(mint(42, "X", 0), "");
    assert_eq!(mint(42, "X", 30).chars().count(), 30);
}

#[test]
fn mint_is_a_function_of_seed_name_and_length() {
    assert_eq!(mint(42, "CCP_FOCUS_BEAM_SECRET", 10), mint(42, "CCP_FOCUS_BEAM_SECRET", 10));
    assert_ne!(mint(42, "CCP_FOCUS_BEAM_SECRET", 10), mint(43, "CCP_FOCUS_BEAM_SECRET", 10));
    assert_ne!(mint(42, "CCP_FOCUS_BEAM_SECRET", 10), mint(42, "CCP_FOCUS_BEAM_SECRE", 10));
}

#[test]
fn mint_with_seed_42_gives_the_known_secret() {
    assert_eq!(mint(42, "CCP_FOCUS_BEAM_SECRET", 10), "wlfmoyTE#c");
}

#[test]
fn mint_gives_as_many_characters_as_asked_for() {
    for len in [0usize, 1, 10, 32, 64] {
        for seed in [0u32, 1, 42, u32::MAX] {
            let secret = mint(seed, "CCP_FOCUS_BEAM_SECRET", len);
            assert_eq!(secret.chars().count(), len);
            assert!(secret.chars().all(|c| CHARSET.contains(c)));
        }
    }
}
