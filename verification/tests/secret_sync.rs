use bridgehead::config::{Config, Environment, Host, LocalConf};
use bridgehead::identity::Network;
use bridgehead::modules::ccp::CcpDefault;
use bridgehead::ordered_map::OrderedMap;
use bridgehead::services::beam::{BeamProxy, BrokerProvider};
use bridgehead::services::forward_proxy::ForwardProxy;
use bridgehead::services::secret_sync::{
    cache_text, cache_value, finish_sync, parse_cache_line, redirect_urls_for_path, OidcClients,
    OidcProvider, PrivateOidcClient, SyncStep,
};

fn oidc_site(hostname: Host) -> Config {
    Config {
        site_id: "teststandort".to_string(),
        hostname,
        environment: Environment::Production,
        version_tag: "latest".to_string(),
        https_proxy_url: Some("http://proxy.example.org:3128".to_string()),
        remote_sync: None,
        ccp: None,
        bbmri: None,
        dnpm: None,
        path: "/etc/bridgehead".to_string(),
    }
}

fn domain() -> Host {
    Host::Domain("bridgehead.example.org".to_string())
}

#[test]
fn redirect_urls_for_a_domain_are_two() {
    assert_eq!(
        redirect_urls_for_path("/opal/*", &domain()),
        vec!["https://bridgehead/opal/*", "https://bridgehead.example.org/opal/*"]
    );
}

#[test]
fn redirect_url_for_a_domain_without_a_dot_is_one() {
    assert_eq!(
        redirect_urls_for_path("/x", &Host::Domain("localhost".to_string())),
        vec!["https://localhost/x"]
    );
}

#[test]
fn redirect_url_for_an_address_is_one() {
    assert_eq!(
        redirect_urls_for_path("/x", &Host::Ipv4("10.0.0.1".to_string())),
        vec!["https://10.0.0.1/x"]
    );
    assert_eq!(
        redirect_urls_for_path("/x", &Host::Ipv6("fe80::1".to_string())),
        vec!["https://[fe80::1]/x"]
    );
}

#[test]
fn broker_id_is_the_host_of_the_broker() {
    assert_eq!(Network::Ccp.broker_id(), Some("broker.ccp-it.dktk.dkfz.de".to_string()));
    assert_eq!(Network::Eric.broker_id(), Some("broker.bbmri.samply.de".to_string()));
    assert_eq!(Network::Gbn.broker_id(), Some("broker.bbmri.de".to_string()));
    assert_eq!(CcpDefault::broker_id(), Network::Ccp.broker_id());
    assert_eq!(CcpDefault::network_name(), "ccp");
    assert_eq!(
        CcpDefault::oidc_provider_id(),
        Some("secret-sync-central.central-secret-sync.broker.ccp-it.dktk.dkfz.de".to_string())
    );
    assert_eq!(CcpDefault::issuer_url(), "https://login.verbis.dkfz.de/realms/test-realm-01");
}

#[test]
fn beam_proxy_registers_apps_once() {
    let conf = oidc_site(domain());
    let fw = ForwardProxy::from_config(&conf);
    assert_eq!(fw.https_proxy_url, Some("http://proxy.example.org:3128".to_string()));
    assert_eq!(fw.get_url(), "http://forward-proxy:3128/");
    let mut proxy = BeamProxy::from_config(Network::Eric, "broker.bbmri.samply.de", &conf, &fw);
    assert_eq!(proxy.get_url(), "http://eric-beam-proxy:8081/");
    let mut local = LocalConf::new(11);
    let first = proxy.add_service(&mut local, "focus");
    let second = proxy.add_service(&mut local, "focus");
    assert_eq!(first.id, "focus.teststandort.broker.bbmri.samply.de");
    assert_eq!(first.secret, "${ERIC_BEAM_PROXY_FOCUS_KEY}");
    assert_eq!(second.id, first.id);
    assert_eq!(second.secret, first.secret);
    assert_eq!(proxy.app_keys.len(), 1);
    assert_eq!(local.generated_secrets.len(), 1);
}

#[test]
fn clients_collect_the_redirect_urls_of_a_provider() {
    let conf = oidc_site(domain());
    let mut clients = OidcClients::new();
    let public = clients.add_public_redirect_path(&conf, Network::Ccp, "/ccp-teiler");
    let private = clients.add_private_redirect_path(&conf, Network::Ccp, "/opal/*");
    let _ = clients.add_private_redirect_path(&conf, Network::Ccp, "/oauth2-idm/callback");
    assert_eq!(public.client_id(), "teststandort-public");
    assert_eq!(private.client_id(), "teststandort-private");
    assert_eq!(private.private_client_name, "ccp_client_secret");
    assert_eq!(clients.clients.len(), 1);
    assert_eq!(clients.clients[0].pub_redirect_paths.len(), 2);
    assert_eq!(
        clients.clients[0].priv_redirect_urls,
        vec![
            "https://bridgehead/opal/*",
            "https://bridgehead.example.org/opal/*",
            "https://bridgehead/oauth2-idm/callback",
            "https://bridgehead.example.org/oauth2-idm/callback"
        ]
    );
    assert!(!clients.clients[0].synced);
}

#[test]
fn sync_is_planned_at_most_once_for_a_provider() {
    let conf = oidc_site(domain());
    let mut local = LocalConf::new(1);
    let mut oidc = OrderedMap::new();
    oidc.insert("ccp_public_client".to_string(), "old".to_string());
    local.oidc = Some(oidc);
    let mut clients = OidcClients::new();
    let _ = clients.add_public_redirect_path(&conf, Network::Ccp, "/ccp-teiler");
    let _ = clients.add_private_redirect_path(&conf, Network::Ccp, "/opal/*");
    let broker = Network::Ccp.broker_id().unwrap();
    match clients.begin_sync(Network::Ccp, &conf, &local, &broker) {
        SyncStep::Run(plan) => {
            assert_eq!(
                plan.secret_definitions,
                "OIDC:ccp_public_client:public;https://bridgehead/ccp-teiler,\
                 https://bridgehead.example.org/ccp-teiler\u{1e}\
                 OIDC:ccp_client_secret:private;https://bridgehead/opal/*,\
                 https://bridgehead.example.org/opal/*"
            );
            assert_eq!(plan.cache, "ccp_public_client=\"old\"");
            assert_eq!(plan.public_client_name, "ccp_public_client");
            assert_eq!(plan.private_client_name, "ccp_client_secret");
            assert_eq!(plan.proxy_id, "teststandort.broker.ccp-it.dktk.dkfz.de");
            assert_eq!(plan.priv_key, "/etc/bridgehead/pki/teststandort.priv.pem");
            assert_eq!(plan.broker_url, "https://broker.ccp-it.dktk.dkfz.de/");
            assert_eq!(plan.trusted_ca_certs, "/etc/bridgehead/trusted-ca-certs");
            assert_eq!(plan.all_proxy, Some("http://proxy.example.org:3128".to_string()));
        }
        other => panic!("{other:?}"),
    }
    assert!(matches!(
        clients.begin_sync(Network::Ccp, &conf, &local, &broker),
        SyncStep::AlreadySynced
    ));
    assert!(matches!(
        clients.begin_sync(Network::Ccp, &conf, &local, &broker),
        SyncStep::AlreadySynced
    ));
}

#[test]
fn sync_with_nothing_to_ask_for_is_not_run() {
    let conf = oidc_site(domain());
    let local = LocalConf::new(1);
    let mut clients = OidcClients::new();
    assert!(matches!(
        clients.begin_sync(Network::Ccp, &conf, &local, "broker"),
        SyncStep::NothingToSync
    ));
}

#[test]
fn sync_with_only_private_urls_asks_for_one_client() {
    let conf = oidc_site(Host::Ipv4("10.0.0.1".to_string()));
    let local = LocalConf::new(1);
    let mut clients = OidcClients::new();
    let _ = clients.add_private_redirect_path(&conf, Network::Ccp, "/opal/*");
    match clients.begin_sync(Network::Ccp, &conf, &local, "broker") {
        SyncStep::Run(plan) => {
            assert_eq!(plan.secret_definitions, "OIDC:ccp_client_secret:private;https://10.0.0.1/opal/*");
            assert_eq!(plan.cache, "");
        }
        other => panic!("{other:?}"),
    }
}

#[test]
fn cache_lines_are_key_and_quoted_value() {
    assert_eq!(
        parse_cache_line("ccp_client_secret=\"s3cr=t\""),
        Some(("ccp_client_secret".to_string(), "s3cr=t".to_string()))
    );
    assert_eq!(parse_cache_line("key=value"), Some(("key".to_string(), "value".to_string())));
    assert_eq!(parse_cache_line("key="), Some(("key".to_string(), String::new())));
    assert_eq!(parse_cache_line("no equals sign"), None);
    assert_eq!(parse_cache_line(""), None);
}

#[test]
fn cache_value_takes_the_last_line_with_the_key() {
    let out = "a=\"1\"\nb=\"2\"\nnoise\na=\"3\"\n";
    assert_eq!(cache_value(out, "a"), Some("3".to_string()));
    assert_eq!(cache_value(out, "b"), Some("2".to_string()));
    assert_eq!(cache_value(out, "c"), None);
    assert_eq!(cache_value("", "a"), None);
}

#[test]
fn cache_text_is_read_back_by_cache_value() {
    let mut local = LocalConf::new(1);
    let mut oidc = OrderedMap::new();
    oidc.insert("ccp_public_client".to_string(), "pub".to_string());
    oidc.insert("ccp_client_secret".to_string(), "sec".to_string());
    local.oidc = Some(oidc);
    let text = cache_text(&local);
    assert_eq!(text, "ccp_client_secret=\"sec\"\nccp_public_client=\"pub\"");
    assert_eq!(cache_value(&text, "ccp_public_client"), Some("pub".to_string()));
    assert_eq!(cache_value(&text, "ccp_client_secret"), Some("sec".to_string()));
}

#[test]
fn finish_sync_merges_the_clients_into_the_store() {
    let mut local = LocalConf::new(1);
    let out = "ccp_public_client=\"pub\"\nccp_client_secret=\"sec\"\nother=\"x\"\n";
    finish_sync(&mut local, Network::Ccp, out);
    let oidc = local.oidc.as_ref().unwrap();
    assert_eq!(oidc.len(), 2);
    assert_eq!(oidc.get("ccp_public_client"), Some(&"pub".to_string()));
    assert_eq!(oidc.get("ccp_client_secret"), Some(&"sec".to_string()));
    let env = local.to_env();
    assert!(env.contains("OIDC_CCP_PUBLIC_CLIENT=\"pub\"\n"));
    assert!(env.contains("OIDC_CCP_CLIENT_SECRET=\"sec\"\n"));
    finish_sync(&mut local, Network::Ccp, out);
    assert_eq!(local.to_env(), env);
}

#[test]
fn finish_sync_with_an_empty_cache_leaves_an_empty_section() {
    let mut local = LocalConf::new(1);
    finish_sync(&mut local, Network::Ccp, "");
    assert_eq!(local.oidc.as_ref().unwrap().len(), 0);
}

#[test]
fn client_secret_is_empty_until_the_provider_issued_one() {
    let client = PrivateOidcClient {
        provider: Network::Ccp,
        client_id: "teststandort-private".to_string(),
        private_client_name: "ccp_client_secret".to_string(),
    };
    let mut local = LocalConf::new(1);
    assert_eq!(client.client_secret(&local), "");
    finish_sync(&mut local, Network::Ccp, "ccp_public_client=\"pub\"\n");
    assert_eq!(client.client_secret(&local), "");
    finish_sync(&mut local, Network::Ccp, "ccp_client_secret=\"sec\"\n");
    assert_eq!(client.client_secret(&local), "sec");
    assert_eq!(client.client_id(), "teststandort-private");
}

#[test]
fn sync_that_gets_its_own_cache_back_changes_nothing() {
    let mut oidc = OrderedMap::new();
    oidc.insert("ccp_client_secret".to_string(), "s3cr=t".to_string());
    oidc.insert("ccp_public_client".to_string(), "bridgehead public".to_string());
    oidc.insert("other".to_string(), String::new());
    let mut local = LocalConf::new(1);
    local.oidc = Some(oidc);
    let env = local.to_env();
    let cache = cache_text(&local);
    finish_sync(&mut local, Network::Ccp, &cache);
    assert_eq!(cache_text(&local), cache);
    assert_eq!(local.to_env(), env);
    let oidc = local.oidc.as_ref().unwrap();
    assert_eq!(oidc.len(), 3);
    assert_eq!(oidc.get("ccp_client_secret"), Some(&"s3cr=t".to_string()));
}

#[test]
fn value_in_quotes_does_not_come_back_from_the_cache() {
    let mut oidc = OrderedMap::new();
    oidc.insert("ccp_client_secret".to_string(), "\"quoted\"".to_string());
    let mut local = LocalConf::new(1);
    local.oidc = Some(oidc);
    let cache = cache_text(&local);
    finish_sync(&mut local, Network::Ccp, &cache);
    assert_eq!(
        local.oidc.as_ref().unwrap().get("ccp_client_secret"),
        Some(&"quoted".to_string())
    );
}
