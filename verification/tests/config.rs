use bridgehead::config::{join_path, Config, ConfigError, Environment, Host, LocalConf};
use bridgehead::ordered_map::OrderedMap;
use bridgehead::utils::CHARSET;

fn config_at(path: &str) -> Config {
    Config {
        site_id: "teststandort".to_string(),
        hostname: Host::Domain("bridgehead.example.org".to_string()),
        environment: Environment::default(),
        version_tag: "latest".to_string(),
        https_proxy_url: None,
        remote_sync: None,
        ccp: None,
        bbmri: None,
        dnpm: None,
        path: path.to_string(),
    }
}

#[test]
fn environment_defaults_to_production() {
    assert_eq!(Environment::default(), Environment::Production);
}

#[test]
fn host_text_brackets_ipv6() {
    assert_eq!(Host::Domain("a.example.org".to_string()).text(), "a.example.org");
    assert_eq!(Host::Ipv4("10.0.0.1".to_string()).text(), "10.0.0.1");
    assert_eq!(Host::Ipv6("::1".to_string()).text(), "[::1]");
}

#[test]
fn join_path_puts_one_slash_between() {
    assert_eq!(join_path("/etc/bridgehead", "services"), "/etc/bridgehead/services");
    assert_eq!(join_path("/etc/bridgehead/", "services"), "/etc/bridgehead/services");
    assert_eq!(join_path("", ".env"), "/.env");
}

#[test]
fn derived_paths_lie_in_the_config_directory() {
    let conf = config_at("/etc/bridgehead");
    assert_eq!(conf.trusted_ca_certs(), "/etc/bridgehead/trusted-ca-certs");
    assert_eq!(conf.local_conf_path(), "/etc/bridgehead/config.local.toml");
    assert_eq!(conf.env_path(), "/etc/bridgehead/.env");
    assert_eq!(conf.services_dir(), "/etc/bridgehead/services");
    assert_eq!(conf.launcher_path(), "/etc/bridgehead/bridgehead");
}

#[test]
fn load_rejects_a_path_that_is_not_absolute() {
    let r = Config::load("relative/dir".to_string(), config_at(""), None);
    match r {
        Err(ConfigError::NotAbsolute { path }) => {
            assert_eq!(path, "relative/dir");
            let message = ConfigError::NotAbsolute { path }.message();
            assert_eq!(message, "Path to config must be absolute unlike \"relative/dir\"");
            assert!(message.contains("relative/dir"));
        }
        Ok(_) => panic!("a relative path was accepted"),
    }
}

#[test]
fn assemble_rejects_exactly_the_paths_reported_as_relative() {
    let fresh = LocalConf::new(1);
    assert!(Config::assemble("x".to_string(), false, config_at(""), None, fresh).is_err());
    let fresh = LocalConf::new(1);
    let (conf, store) =
        Config::assemble("/x".to_string(), true, config_at(""), None, fresh).unwrap();
    assert_eq!(conf.path, "/x");
    assert_eq!(conf.site_id, "teststandort");
    assert_eq!(store.seed, 1);
}

#[test]
fn load_without_a_local_store_makes_a_fresh_one() {
    let (conf, store) = Config::load("/etc/bridgehead".to_string(), config_at(""), None).unwrap();
    assert_eq!(conf.path, "/etc/bridgehead");
    assert!(store.oidc.is_none());
    assert!(store.basic_auth_users.is_none());
    assert_eq!(store.generated_secrets.len(), 0);
}

#[test]
fn fresh_stores_draw_their_seeds_at_random() {
    let seeds: Vec<u32> = (0..8).map(|_| LocalConf::default().seed).collect();
    assert!(seeds.iter().any(|s| *s != seeds[0]));
}

#[test]
fn load_keeps_the_local_store_that_was_read() {
    let mut local = LocalConf::new(7);
    let mut oidc = OrderedMap::new();
    oidc.insert("ccp_public_client".to_string(), "abc".to_string());
    local.oidc = Some(oidc);
    let (_, store) =
        Config::load("/etc/bridgehead".to_string(), config_at(""), Some(local)).unwrap();
    assert_eq!(store.seed, 7);
    assert_eq!(store.oidc.unwrap().get("ccp_public_client"), Some(&"abc".to_string()));
}

#[test]
fn generate_secret_returns_the_placeholder_and_keeps_the_secret() {
    let mut local = LocalConf::new(42);
    let var = local.generate_secret(10, "ccp-focus", "beam_secret");
    assert_eq!(var, "${CCP_FOCUS_BEAM_SECRET}");
    assert_eq!(local.generated_secrets.len(), 1);
    let secret = local.generated_secrets.get("CCP_FOCUS_BEAM_SECRET").unwrap();
    assert_eq!(secret.chars().count(), 10);
    assert!(secret.chars().all(|c| CHARSET.contains(c)));
}

#[test]
fn seeded_determinism_gives_the_golden_secret() {
    let mut local = LocalConf::new(42);
    let _ = local.generate_secret(10, "ccp-focus", "beam_secret");
    assert_eq!(
        local.generated_secrets.get("CCP_FOCUS_BEAM_SECRET"),
        Some(&"wlfmoyTE#c".to_string())
    );
}

#[test]
fn two_stores_with_the_same_seed_give_the_same_env() {
    let mut a = LocalConf::new(1234);
    let mut b = LocalConf::new(1234);
    for (service, name) in [("ccp-focus", "beam_secret"), ("dnpm-node", "authup"), ("a", "b")] {
        let _ = a.generate_secret(10, service, name);
    }
    for (service, name) in [("a", "b"), ("ccp-focus", "beam_secret"), ("dnpm-node", "authup")] {
        let _ = b.generate_secret(10, service, name);
    }
    assert_eq!(a.to_env(), b.to_env());
    let mut c = LocalConf::new(1235);
    let _ = c.generate_secret(10, "a", "b");
    assert_ne!(c.generated_secrets.get("A_B"), a.generated_secrets.get("A_B"));
}

#[test]
fn minting_a_secret_again_changes_nothing() {
    let mut local = LocalConf::new(5);
    let first = local.generate_secret(10, "ccp-exporter", "api-key");
    let env = local.to_env();
    let second = local.generate_secret(10, "ccp-exporter", "api-key");
    assert_eq!(first, second);
    assert_eq!(local.to_env(), env);
    assert_eq!(local.generated_secrets.len(), 1);
}

#[test]
fn to_env_lists_oidc_entries_then_secrets() {
    let mut local = LocalConf::new(42);
    let mut oidc = OrderedMap::new();
    oidc.insert("ccp_public_client".to_string(), "pub".to_string());
    oidc.insert("ccp_client_secret".to_string(), "sec".to_string());
    local.oidc = Some(oidc);
    let _ = local.generate_secret(10, "ccp-focus", "beam_secret");
    let env = local.to_env();
    assert_eq!(
        env,
        "# This file is auto generated please modify config.toml or config.local.toml instead!\n\n\
         OIDC_CCP_CLIENT_SECRET=\"sec\"\n\
         OIDC_CCP_PUBLIC_CLIENT=\"pub\"\n\
         CCP_FOCUS_BEAM_SECRET=\"wlfmoyTE#c\"\n"
    );
}

#[test]
fn to_env_of_a_fresh_store_is_the_header() {
    let local = LocalConf::new(0);
    assert_eq!(
        local.to_env(),
        "# This file is auto generated please modify config.toml or config.local.toml instead!\n\n"
    );
}

#[test]
fn every_key_of_the_env_is_a_variable_name() {
    let mut local = LocalConf::new(9);
    let mut oidc = OrderedMap::new();
    oidc.insert("ccp_public_client".to_string(), "pub".to_string());
    local.oidc = Some(oidc);
    for (service, name) in
        [("ccp-datashield", "token-manager"), ("ccp-obds2fhir-rest", "salt"), ("dnpm-node", "mysql_root")]
    {
        let _ = local.generate_secret(10, service, name);
    }
    let env = local.to_env();
    let mut keys = 0;
    for line in env.lines().skip(2) {
        let (key, value) = line.split_once('=').unwrap();
        assert!(!key.is_empty());
        assert!(key.chars().all(|c| c.is_ascii_uppercase() || c.is_ascii_digit() || c == '_'));
        assert!(value.starts_with('"') && value.ends_with('"'));
        keys += 1;
    }
    assert_eq!(keys, 4);
}

#[test]
fn secrets_do_not_depend_on_the_order_in_which_they_were_minted() {
    let calls = [
        (10usize, "ccp-beam-proxy", "focus_key"),
        (32, "ccp-obds2fhir", "salt"),
        (10, "eric-beam-proxy", "focus_key"),
        (16, "dnpm-node", "authup"),
    ];
    let mut forwards = LocalConf::new(42);
    for (len, service, name) in calls {
        let _ = forwards.generate_secret(len, service, name);
    }
    let mut backwards = LocalConf::new(42);
    for (len, service, name) in calls.into_iter().rev() {
        let _ = backwards.generate_secret(len, service, name);
    }
    assert_eq!(forwards.to_env(), backwards.to_env());
    assert_eq!(forwards.to_env().lines().count(), 2 + calls.len());
}
