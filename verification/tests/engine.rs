use bridgehead::config::{Config, Environment, Host, LocalConf};
use bridgehead::graph::Node;
use bridgehead::identity::{BlazeSite, DepKind, Network, PgOwner, ServiceId};
use bridgehead::modules::bbmri::{Bbmri, BbmriConfig};
use bridgehead::modules::ccp::{CcpConfig, CcpDefault};
use bridgehead::services::beam_connect::{CentralTarget, LocalTarget};
use bridgehead::services::catalog::{PostInstall, ServiceConfig, ServiceValue, ToCompose};
use bridgehead::services::directory_sync::DirectorySyncConfig;
use bridgehead::services::dnpm_node::DnpmNodeConf;
use bridgehead::services::obds2fhir::{Obds2FhirConfig, Obds2FhirError, Obds2FhirSetting};
use bridgehead::services::construct::BuildError;
use bridgehead::services::teiler::TeilerConfig;
use bridgehead::services::{EngineError, ServiceMap};
use bridgehead::utils::CHARSET;

const CCP_FOCUS: ServiceId = ServiceId::Focus(Network::Ccp, BlazeSite::Ccp);

fn site() -> Config {
    Config {
        site_id: "teststandort".to_string(),
        hostname: Host::Domain("bridgehead.example.org".to_string()),
        environment: Environment::Production,
        version_tag: "latest".to_string(),
        https_proxy_url: None,
        remote_sync: None,
        ccp: None,
        bbmri: None,
        dnpm: None,
        path: "/etc/bridgehead".to_string(),
    }
}

fn engine(config: Config, seed: u32) -> ServiceMap {
    ServiceMap::new(config, LocalConf::new(seed))
}

fn names(map: &ServiceMap) -> Vec<String> {
    let mut names: Vec<String> = map.services().iter().map(|id| id.service_name()).collect();
    names.sort();
    names
}

fn directory_sync() -> DirectorySyncConfig {
    DirectorySyncConfig {
        username: "user".to_string(),
        password: "pass".to_string(),
        url: "https://directory.bbmri-eric.eu".to_string(),
        timer_cron: "0 22 * * *".to_string(),
        allow_star_model: true,
        mock: String::new(),
        default_collection_id: String::new(),
        country: String::new(),
    }
}

#[test]
fn minimal_ccp_builds_focus_and_what_it_needs() {
    let mut config = site();
    config.ccp = Some(CcpConfig { id_manager: None, datashield: false });
    let mut map = engine(config, 42);
    map.install_module(&CcpDefault).unwrap();
    assert_eq!(map.len(), 0);
    map.materialise().unwrap();
    assert_eq!(
        names(&map),
        vec!["ccp-beam-proxy", "ccp-blaze", "ccp-focus", "forward-proxy", "traefik"]
    );
    let env = map.local_conf.to_env();
    let line = env.lines().find(|l| l.starts_with("CCP_BEAM_PROXY_FOCUS_KEY=")).unwrap();
    let value = line.split_once('=').unwrap().1.trim_matches('"');
    assert_eq!(value.chars().count(), 10);
    assert!(value.chars().all(|c| CHARSET.contains(c)));
    match map.get(CCP_FOCUS) {
        Some(ServiceValue::Focus(focus)) => {
            assert_eq!(focus.tag, "main-dktk");
            assert_eq!(focus.beam_id, "focus.teststandort.broker.ccp-it.dktk.dkfz.de");
            assert_eq!(focus.beam_secret, "${CCP_BEAM_PROXY_FOCUS_KEY}");
            assert_eq!(focus.beam_url, "http://ccp-beam-proxy:8081/");
            assert_eq!(focus.blaze_url, "http://ccp-blaze:8080/");
            assert_eq!(focus.endpoint_type, "blaze");
        }
        other => panic!("no focus: {other:?}"),
    }
}

#[test]
fn bbmri_with_directory_sync_is_stable_across_runs() {
    let run = || {
        let mut config = site();
        config.bbmri =
            Some(BbmriConfig { eric: true, gbn: false, directory_sync: Some(directory_sync()) });
        let mut map = engine(config, 7);
        map.install_module(&CcpDefault).unwrap();
        map.install_module(&Bbmri).unwrap();
        map.materialise().unwrap();
        map
    };
    let first = run();
    let second = run();
    assert_eq!(
        names(&first),
        vec![
            "bbmri-blaze",
            "bbmri-directory-sync",
            "eric-beam-proxy",
            "eric-focus",
            "forward-proxy",
            "traefik"
        ]
    );
    assert_eq!(first.services(), second.services());
    assert_eq!(first.local_conf.to_env(), second.local_conf.to_env());
    match first.get(ServiceId::DirectorySync(BlazeSite::Bbmri)) {
        Some(ServiceValue::DirectorySync(sync)) => {
            assert_eq!(sync.blaze_url, "http://bbmri-blaze:8080/");
            assert_eq!(sync.conf.username, "user");
        }
        other => panic!("no directory sync: {other:?}"),
    }
    match first.get(ServiceId::Focus(Network::Eric, BlazeSite::Bbmri)) {
        Some(ServiceValue::Focus(focus)) => assert_eq!(focus.tag, "main-bbmri"),
        other => panic!("no focus: {other:?}"),
    }
}

#[test]
fn two_brokers_give_two_focuses_with_their_own_keys() {
    let mut config = site();
    config.ccp = Some(CcpConfig { id_manager: None, datashield: false });
    config.bbmri = Some(BbmriConfig { eric: true, gbn: true, directory_sync: None });
    let mut map = engine(config, 3);
    map.install_module(&CcpDefault).unwrap();
    map.install_module(&Bbmri).unwrap();
    map.materialise().unwrap();
    assert!(map.contains(CCP_FOCUS));
    assert!(map.contains(ServiceId::Focus(Network::Eric, BlazeSite::Bbmri)));
    assert!(map.contains(ServiceId::Focus(Network::Gbn, BlazeSite::Bbmri)));
    let env = map.local_conf.to_env();
    assert!(env.contains("CCP_BEAM_PROXY_FOCUS_KEY=\""));
    assert!(env.contains("ERIC_BEAM_PROXY_FOCUS_KEY=\""));
    assert!(env.contains("GBN_BEAM_PROXY_FOCUS_KEY=\""));
    let secrets = &map.local_conf.generated_secrets;
    assert_ne!(
        secrets.get("CCP_BEAM_PROXY_FOCUS_KEY"),
        secrets.get("ERIC_BEAM_PROXY_FOCUS_KEY")
    );
    let launcher = map.launcher();
    let mut networks = launcher.beam_networks.clone();
    networks.sort();
    assert_eq!(
        networks,
        vec!["broker.bbmri.de", "broker.bbmri.samply.de", "broker.ccp-it.dktk.dkfz.de"]
    );
}

#[test]
fn every_required_dependency_is_built_before_its_dependent() {
    let mut map = engine(site(), 1);
    map.install_default(ServiceId::DataShield).unwrap();
    map.materialise().unwrap();
    for id in map.services() {
        for dep in id.dependencies() {
            if dep.kind == DepKind::Required {
                assert!(map.contains(dep.id), "{id:?} lacks {:?}", dep.id);
            }
        }
    }
    assert!(map.contains(ServiceId::Postgres(PgOwner::DataShield)));
    assert!(map.contains(ServiceId::BeamConnect(Network::Ccp)));
    match map.get(ServiceId::BeamConnect(Network::Ccp)) {
        Some(ServiceValue::BeamConnect(connect)) => {
            assert_eq!(connect.local_targets.len(), 1);
            assert_eq!(connect.local_targets[0].external, "teststandort:443");
            assert_eq!(connect.local_targets[0].internal, "ccp-opal:8443");
            assert_eq!(
                connect.local_targets[0].allowed,
                vec!["central-ds-orchestrator.broker.ccp-it.dktk.dkfz.de"]
            );
        }
        other => panic!("no connector: {other:?}"),
    }
    match map.get(ServiceId::BeamProxy(Network::Ccp)) {
        Some(ServiceValue::BeamProxy(proxy)) => {
            let apps: Vec<&str> = proxy.app_keys.iter().map(|(a, _)| a.as_str()).collect();
            assert_eq!(apps, vec!["beam-connect", "token-manager"]);
            assert_eq!(proxy.proxy_id, "teststandort.broker.ccp-it.dktk.dkfz.de");
            assert_eq!(proxy.priv_key, "/etc/bridgehead/pki/teststandort.priv.pem");
        }
        other => panic!("no proxy: {other:?}"),
    }
}

#[test]
fn optional_dependency_that_was_not_installed_stays_absent() {
    let mut map = engine(site(), 1);
    map.install_default(ServiceId::Exporter).unwrap();
    map.materialise().unwrap();
    assert!(map.contains(ServiceId::Exporter));
    assert!(!map.contains(ServiceId::DataShield));
    match map.get(ServiceId::Exporter) {
        Some(ServiceValue::Exporter(exporter)) => {
            assert_eq!(exporter.opal_password, None);
            assert_eq!(exporter.api_key, "${CCP_EXPORTER_API_KEY}");
            assert_eq!(exporter.db.host, "ccp-exporter-db");
            assert_eq!(exporter.blaze_host, "ccp-blaze");
        }
        other => panic!("no exporter: {other:?}"),
    }
    match map.get(CCP_FOCUS) {
        Some(ServiceValue::Focus(focus)) => {
            let (url, key) = focus.exporter.clone().unwrap();
            assert_eq!(url, "http://ccp-exporter:8080");
            assert_eq!(key, "${CCP_EXPORTER_API_KEY}");
        }
        other => panic!("no focus: {other:?}"),
    }
}

#[test]
fn optional_dependency_that_was_installed_is_handed_over() {
    let mut map = engine(site(), 1);
    map.install_default(ServiceId::Exporter).unwrap();
    map.install_default(ServiceId::DataShield).unwrap();
    map.materialise().unwrap();
    match map.get(ServiceId::Exporter) {
        Some(ServiceValue::Exporter(exporter)) => {
            assert_eq!(exporter.opal_password, Some("${CCP_EXPORTER_OPAL_PW}".to_string()));
        }
        other => panic!("no exporter: {other:?}"),
    }
    match map.get(ServiceId::DataShield) {
        Some(ServiceValue::DataShield(ds)) => {
            assert_eq!(ds.exporter_password, Some("${CCP_EXPORTER_OPAL_PW}".to_string()));
            assert_eq!(ds.oidc_admin_group, "DKTK_CCP_Teststandort_Verwalter");
        }
        other => panic!("no datashield: {other:?}"),
    }
}

#[test]
fn install_default_refuses_a_service_that_needs_a_configuration() {
    let mut map = engine(site(), 1);
    match map.install_default(ServiceId::Teiler) {
        Err(EngineError::MissingConfig(id)) => assert_eq!(id, ServiceId::Teiler),
        other => panic!("{other:?}"),
    }
    map.materialise().unwrap();
    assert_eq!(map.len(), 0);
}

#[test]
fn install_with_config_refuses_a_configuration_of_the_wrong_kind() {
    let mut map = engine(site(), 1);
    let cfg = ServiceConfig::Teiler(TeilerConfig { language: "DE".to_string() });
    match map.install_with_config(ServiceId::Traefik, cfg) {
        Err(EngineError::ConfigMismatch(id)) => assert_eq!(id, ServiceId::Traefik),
        other => panic!("{other:?}"),
    }
    match map.install_with_config(ServiceId::Teiler, ServiceConfig::Default) {
        Err(EngineError::ConfigMismatch(id)) => assert_eq!(id, ServiceId::Teiler),
        other => panic!("{other:?}"),
    }
}

#[test]
fn post_install_refuses_a_hook_for_another_family() {
    let mut map = engine(site(), 1);
    match map.post_install(ServiceId::Traefik, PostInstall::FocusTag("x".to_string())) {
        Err(EngineError::HookMismatch(id)) => assert_eq!(id, ServiceId::Traefik),
        other => panic!("{other:?}"),
    }
}

#[test]
fn hooks_run_in_the_order_in_which_they_came() {
    let mut map = engine(site(), 1);
    map.install_default(CCP_FOCUS).unwrap();
    map.post_install(CCP_FOCUS, PostInstall::FocusTag("first".to_string())).unwrap();
    map.post_install(CCP_FOCUS, PostInstall::FocusTag("second".to_string())).unwrap();
    let connect = ServiceId::BeamConnect(Network::Ccp);
    map.install_default(connect).unwrap();
    for host in ["a.example", "b.example"] {
        let target =
            CentralTarget { virtualhost: host.to_string(), beam_connect: "x".to_string() };
        map.post_install(connect, PostInstall::CentralTarget(target)).unwrap();
    }
    map.post_install(connect, PostInstall::NoProxy("internal".to_string())).unwrap();
    assert_eq!(map.hooks.len(), 5);
    map.materialise().unwrap();
    assert_eq!(map.hooks.len(), 0);
    match map.get(CCP_FOCUS) {
        Some(ServiceValue::Focus(focus)) => assert_eq!(focus.tag, "second"),
        other => panic!("{other:?}"),
    }
    match map.get(connect) {
        Some(ServiceValue::BeamConnect(c)) => {
            let hosts: Vec<&str> = c.central_targets.iter().map(|t| t.virtualhost.as_str()).collect();
            assert_eq!(hosts, vec!["a.example", "b.example"]);
            assert_eq!(c.no_proxy, vec!["internal"]);
        }
        other => panic!("{other:?}"),
    }
}

#[test]
fn hook_on_a_built_service_runs_at_once() {
    let mut map = engine(site(), 1);
    map.install_default(ServiceId::BeamConnect(Network::Ccp)).unwrap();
    map.materialise().unwrap();
    let target = LocalTarget::new("ext".to_string(), "int".to_string(), vec![]);
    map.post_install(ServiceId::BeamConnect(Network::Ccp), PostInstall::LocalTarget(target))
        .unwrap();
    assert_eq!(map.hooks.len(), 0);
    match map.get(ServiceId::BeamConnect(Network::Ccp)) {
        Some(ServiceValue::BeamConnect(c)) => assert_eq!(c.local_targets[0].external, "ext"),
        other => panic!("{other:?}"),
    }
}

#[test]
fn second_install_of_a_service_overrides_the_first() {
    let mut map = engine(site(), 1);
    let node = |site: &str| {
        ServiceConfig::DnpmNode(DnpmNodeConf { zpm_site: site.to_string(), synth_num: None })
    };
    map.install_with_config(ServiceId::DnpmNode, node("first")).unwrap();
    map.install_with_config(ServiceId::DnpmNode, node("second")).unwrap();
    map.materialise().unwrap();
    assert_eq!(map.len(), 1);
    match map.get(ServiceId::DnpmNode) {
        Some(ServiceValue::DnpmNode(n)) => {
            assert_eq!(n.conf.zpm_site, "second");
            assert_eq!(n.host, "bridgehead.example.org");
            assert_eq!(n.authup_secret, "${DNPM_NODE_AUTHUP}");
            assert_eq!(n.mysql_root_password, "${DNPM_NODE_MYSQL_ROOT}");
        }
        other => panic!("{other:?}"),
    }
}

#[test]
fn services_are_built_once_even_if_materialised_twice() {
    let mut map = engine(site(), 1);
    map.install_default(CCP_FOCUS).unwrap();
    map.materialise().unwrap();
    let before = map.services();
    let env = map.local_conf.to_env();
    let users = map.local_conf.basic_auth_users.as_ref().unwrap().get("ccp-blaze").unwrap().hash.clone();
    map.materialise().unwrap();
    assert_eq!(map.services(), before);
    assert_eq!(map.local_conf.to_env(), env);
    assert_eq!(
        map.local_conf.basic_auth_users.as_ref().unwrap().get("ccp-blaze").unwrap().hash,
        users
    );
}

#[test]
fn two_services_with_one_name_are_refused() {
    let mut map = engine(site(), 1);
    map.install_default(CCP_FOCUS).unwrap();
    map.install_default(ServiceId::Focus(Network::Ccp, BlazeSite::Bbmri)).unwrap();
    match map.materialise() {
        Err(EngineError::NameClash(a, b)) => {
            assert_ne!(a, b);
            assert_eq!(a.service_name(), b.service_name());
        }
        other => panic!("{other:?}"),
    }
    let mut all = names(&map);
    let count = all.len();
    all.dedup();
    assert_eq!(all.len(), count);
}

#[test]
fn cycle_in_the_graph_is_fatal_and_builds_nothing() {
    let mut map = engine(site(), 1);
    map.install_default(ServiceId::Traefik).unwrap();
    map.graph.register(Node::Service(ServiceId::Traefik), ServiceId::ForwardProxy);
    map.graph.register(Node::Service(ServiceId::ForwardProxy), ServiceId::Traefik);
    match map.materialise() {
        Err(EngineError::Cycle(walk)) => assert_eq!(walk.first(), walk.last()),
        other => panic!("{other:?}"),
    }
    assert_eq!(map.len(), 0);
}

#[test]
fn constructor_failure_names_the_service() {
    let mut map = engine(site(), 1);
    let cfg = ServiceConfig::Obds2Fhir(Obds2FhirConfig {
        fhir_server_url: Some("http://ccp-blaze:8080/fhir".to_string()),
        mainzelliste_url: None,
        mainzelliste_apikey: None,
        id_type: None,
        keep_internal_id: false,
    });
    map.install_with_config(ServiceId::Obds2Fhir, cfg).unwrap();
    match map.materialise() {
        Err(EngineError::Build(id, BuildError::Obds2Fhir(Obds2FhirError::Missing(setting)))) => {
            assert_eq!(id, ServiceId::Obds2Fhir);
            assert_eq!(setting, Obds2FhirSetting::MainzellisteUrl);
        }
        other => panic!("{other:?}"),
    }
    assert!(map.contains(ServiceId::Traefik));
    assert!(!map.contains(ServiceId::Obds2Fhir));
}

#[test]
fn service_values_carry_the_names_of_their_identities() {
    let mut map = engine(site(), 1);
    map.install_default(ServiceId::Exporter).unwrap();
    map.install_default(ServiceId::DataShield).unwrap();
    map.materialise().unwrap();
    for id in map.services() {
        let value = map.get(id).unwrap();
        assert_eq!(value.service_id(), id);
        assert_eq!(value.service_name(), id.service_name());
    }
}

#[test]
fn name_clash_names_the_service_that_waits_and_the_one_that_is_built() {
    let mut map = engine(site(), 1);
    map.install_default(CCP_FOCUS).unwrap();
    map.install_default(ServiceId::Focus(Network::Ccp, BlazeSite::Bbmri)).unwrap();
    match map.materialise() {
        Err(EngineError::NameClash(waiting, built)) => {
            assert!(!map.contains(waiting));
            assert!(map.contains(built));
        }
        other => panic!("{other:?}"),
    }
}

#[test]
fn shared_proxy_is_built_once_and_knows_every_app() {
    let mut map = engine(site(), 5);
    map.install_default(CCP_FOCUS).unwrap();
    map.install_default(ServiceId::BeamConnect(Network::Ccp)).unwrap();
    map.materialise().unwrap();
    let proxies =
        map.services().into_iter().filter(|id| matches!(id, ServiceId::BeamProxy(_))).count();
    assert_eq!(proxies, 1);
    match map.get(ServiceId::BeamProxy(Network::Ccp)) {
        Some(ServiceValue::BeamProxy(proxy)) => {
            let mut apps: Vec<&str> = proxy.app_keys.iter().map(|(app, _)| app.as_str()).collect();
            assert!(apps.contains(&"focus"));
            assert_eq!(apps.len(), 2);
            apps.dedup();
            assert_eq!(apps.len(), 2);
            let key = proxy.app_keys.iter().find(|(app, _)| app == "focus").unwrap();
            assert_eq!(key.1, "${CCP_BEAM_PROXY_FOCUS_KEY}");
        }
        other => panic!("{other:?}"),
    }
}

#[test]
fn each_focus_registers_with_the_proxy_of_its_own_network() {
    let mut config = site();
    config.bbmri = Some(BbmriConfig { eric: true, gbn: true, directory_sync: None });
    let mut map = engine(config, 3);
    map.install_module(&Bbmri).unwrap();
    map.materialise().unwrap();
    for (network, key) in
        [(Network::Eric, "${ERIC_BEAM_PROXY_FOCUS_KEY}"), (Network::Gbn, "${GBN_BEAM_PROXY_FOCUS_KEY}")]
    {
        match map.get(ServiceId::BeamProxy(network)) {
            Some(ServiceValue::BeamProxy(proxy)) => {
                assert_eq!(proxy.app_keys.len(), 1);
                assert_eq!(proxy.app_keys[0].0, "focus");
                assert_eq!(proxy.app_keys[0].1, key);
            }
            other => panic!("{other:?}"),
        }
        match map.get(ServiceId::Focus(network, BlazeSite::Bbmri)) {
            Some(ServiceValue::Focus(focus)) => assert_eq!(focus.beam_secret, key),
            other => panic!("{other:?}"),
        }
    }
}

#[test]
fn module_tags_a_focus_that_is_built_already() {
    let mut config = site();
    config.bbmri = Some(BbmriConfig { eric: true, gbn: false, directory_sync: None });
    let mut map = engine(config, 3);
    let eric = ServiceId::Focus(Network::Eric, BlazeSite::Bbmri);
    map.install_default(eric).unwrap();
    map.materialise().unwrap();
    match map.get(eric) {
        Some(ServiceValue::Focus(focus)) => assert_eq!(focus.tag, "main"),
        other => panic!("{other:?}"),
    }
    let built = map.services();
    map.install_module(&Bbmri).unwrap();
    assert_eq!(map.hooks.len(), 0);
    assert_eq!(map.services(), built);
    match map.get(eric) {
        Some(ServiceValue::Focus(focus)) => assert_eq!(focus.tag, "main-bbmri"),
        other => panic!("{other:?}"),
    }
}

#[test]
fn services_are_built_in_the_order_of_the_graph_and_of_the_declarations() {
    let mut map = engine(site(), 1);
    map.install_default(CCP_FOCUS).unwrap();
    map.materialise().unwrap();
    assert_eq!(
        map.services(),
        vec![
            ServiceId::ForwardProxy,
            ServiceId::BeamProxy(Network::Ccp),
            ServiceId::Traefik,
            ServiceId::Blaze(BlazeSite::Ccp),
            CCP_FOCUS,
        ]
    );
    let mut map = engine(site(), 1);
    map.install_default(ServiceId::Blaze(BlazeSite::Ccp)).unwrap();
    map.install_default(ServiceId::ForwardProxy).unwrap();
    map.install_default(ServiceId::BeamConnect(Network::Ccp)).unwrap();
    map.materialise().unwrap();
    assert_eq!(
        map.services(),
        vec![
            ServiceId::Traefik,
            ServiceId::Blaze(BlazeSite::Ccp),
            ServiceId::ForwardProxy,
            ServiceId::BeamProxy(Network::Ccp),
            ServiceId::BeamConnect(Network::Ccp),
        ]
    );
}

#[test]
fn second_run_on_the_store_of_the_first_gives_the_same_again() {
    let install = |local: LocalConf| {
        let mut config = site();
        config.ccp = Some(CcpConfig { id_manager: None, datashield: false });
        config.bbmri =
            Some(BbmriConfig { eric: true, gbn: true, directory_sync: Some(directory_sync()) });
        let mut map = ServiceMap::new(config, local);
        map.install_module(&CcpDefault).unwrap();
        map.install_module(&Bbmri).unwrap();
        map.materialise().unwrap();
        map
    };
    let first = install(LocalConf::new(11));
    let env = first.local_conf.to_env();
    let services = first.services();
    let name_list = names(&first);
    let hashes: Vec<(String, String)> = {
        let users = first.local_conf.basic_auth_users.as_ref().unwrap();
        ["bbmri-blaze", "ccp-blaze"]
            .iter()
            .map(|name| (name.to_string(), users.get(name).unwrap().hash.clone()))
            .collect()
    };
    let kept = LocalConf {
        seed: first.local_conf.seed,
        oidc: first.local_conf.oidc,
        basic_auth_users: first.local_conf.basic_auth_users,
        generated_secrets: bridgehead::ordered_map::OrderedMap::new(),
    };
    let second = install(kept);
    assert_eq!(second.local_conf.to_env(), env);
    assert_eq!(second.services(), services);
    assert_eq!(names(&second), name_list);
    assert_eq!(second.local_conf.seed, 11);
    let users = second.local_conf.basic_auth_users.as_ref().unwrap();
    assert_eq!(users.len(), hashes.len());
    for (name, hash) in hashes {
        assert_eq!(users.get(&name).unwrap().hash, hash);
    }
}
