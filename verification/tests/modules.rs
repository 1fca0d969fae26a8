use bridgehead::services::obds2fhir::{Obds2FhirError, Obds2FhirSetting};
use bridgehead::services::traefik::Traefik;
use bridgehead::config::{Config, Environment, Host, LocalConf};
use bridgehead::identity::{Network, ServiceId};
use bridgehead::modules::ccp::{CcpConfig, CcpDefault};
use bridgehead::modules::dnpm::{dnpm_sites, Dnpm, DnpmConfig, DNPM_SITE_COUNT};
use bridgehead::ordered_map::OrderedMap;
use bridgehead::services::beam_connect::{
    format_central_targets, site_rows, CentralTarget, LocalTarget,
};
use bridgehead::services::blaze::BlazeProvider;
use bridgehead::services::catalog::ServiceValue;
use bridgehead::services::dnpm_node::DnpmNodeConf;
use bridgehead::services::id_management::{IdManagement, IdManagementConfig};
use bridgehead::services::obds2fhir::{Obds2Fhir, Obds2FhirConfig, Obds2FhirProvider};
use bridgehead::services::podest2fhir::{Podest2Fhir, Podest2FhirConfig};
use bridgehead::services::catalog::ServiceConfig;
use bridgehead::services::teiler::{default_language, TeilerConfig};
use bridgehead::services::transfair::{default_exchange_id_system, TransfairConfig};
use bridgehead::services::directory_sync::{default_directory_sync_cron, default_directory_sync_url};
use bridgehead::services::ServiceMap;
use bridgehead::identity::BlazeSite;

fn module_site() -> Config {
    Config {
        site_id: "muenchen-tum".to_string(),
        hostname: Host::Domain("bridgehead.example.org".to_string()),
        environment: Environment::Production,
        version_tag: "latest".to_string(),
        https_proxy_url: None,
        remote_sync: None,
        ccp: None,
        bbmri: None,
        dnpm: None,
        path: "/etc/bridgehead".to_string(),
    }
}

fn idm_config() -> IdManagementConfig {
    let mut seeds = OrderedMap::new();
    seeds.insert("patientlist".to_string(), (1, 2, 3));
    IdManagementConfig {
        upload_apikey: "upload".to_string(),
        read_apikey: "read".to_string(),
        central_patientlist_apikey: "central".to_string(),
        controlnumbergenerator_apikey: "cng".to_string(),
        auth_cookie_secret: "cookie".to_string(),
        seeds,
    }
}

#[test]
fn modules_install_nothing_without_their_section() {
    let mut map = ServiceMap::new(module_site(), LocalConf::new(1));
    map.install_module(&CcpDefault).unwrap();
    map.install_module(&Dnpm).unwrap();
    map.materialise().unwrap();
    assert_eq!(map.len(), 0);
    assert_eq!(map.graph.len(), 0);
}

#[test]
fn ccp_with_id_manager_installs_the_id_management() {
    let mut config = module_site();
    config.ccp = Some(CcpConfig { id_manager: Some(idm_config()), datashield: false });
    let mut map = ServiceMap::new(config, LocalConf::new(1));
    map.install_module(&CcpDefault).unwrap();
    map.materialise().unwrap();
    match map.get(ServiceId::IdManagement) {
        Some(ServiceValue::IdManagement(idm)) => {
            assert_eq!(idm.id, "MuenchenTUM");
            assert_eq!(idm.conf.upload_apikey, "upload");
            assert_eq!(idm.conf.seeds.get("patientlist"), Some(&(1, 2, 3)));
            assert_eq!(idm.oidc_group, "DKTK_CCP_Muenchen-tum_Verwalter");
            assert_eq!(idm.local_apikey, "${CCP_ID_MANAGEMENT_APIKEY}");
            assert_eq!(idm.db.host, "ccp-id-management-db");
            assert_eq!(idm.db.user, "ccp-id-management");
            assert_eq!(idm.db.password, "${CCP_ID_MANAGEMENT_DB_PASSWORD}");
            assert_eq!(idm.fw_proxy_name, "forward-proxy");
            assert_eq!(idm.oidc.private_client_name, "ccp_client_secret");
        }
        other => panic!("{other:?}"),
    }
    assert_eq!(IdManagement::pg_name(), "ccp-id-management-db");
    assert_eq!(map.oidc.clients.len(), 1);
    assert_eq!(
        map.oidc.clients[0].priv_redirect_urls,
        vec![
            "https://bridgehead/oauth2-idm/callback",
            "https://bridgehead.example.org/oauth2-idm/callback"
        ]
    );
}

#[test]
fn dnpm_node_installs_connector_and_node() {
    let mut config = module_site();
    config.dnpm = Some(DnpmConfig::Node(DnpmNodeConf {
        zpm_site: "UKFR".to_string(),
        synth_num: Some(5),
    }));
    let mut map = ServiceMap::new(config, LocalConf::new(1));
    map.install_module(&Dnpm).unwrap();
    assert_eq!(map.hooks.len(), DNPM_SITE_COUNT + 1);
    map.materialise().unwrap();
    assert!(map.contains(ServiceId::DnpmNode));
    match map.get(ServiceId::BeamConnect(Network::Ccp)) {
        Some(ServiceValue::BeamConnect(c)) => {
            assert_eq!(c.central_targets.len(), DNPM_SITE_COUNT);
            assert_eq!(c.central_targets[0].virtualhost, "ukfr.dnpm.de");
            assert_eq!(
                c.central_targets[8].beam_connect,
                "dnpm-connect.berlin-test.broker.ccp-it.dktk.dkfz.de"
            );
            assert_eq!(c.local_targets.len(), 1);
            assert_eq!(c.local_targets[0].external, "ukfr.dnpm.de");
            assert_eq!(c.local_targets[0].internal, "dnpm-backend:9000");
            assert_eq!(c.local_targets[0].allowed.len(), DNPM_SITE_COUNT);
            assert_eq!(c.beam.id, "beam-connect.muenchen-tum.broker.ccp-it.dktk.dkfz.de");
            assert!(c.no_proxy.is_empty());
        }
        other => panic!("{other:?}"),
    }
}

#[test]
fn dnpm_local_target_keeps_its_own_allow_list() {
    let mut target = LocalTarget::new("ext".to_string(), "int:80".to_string(), vec![]);
    target.reset_host = true;
    let mut config = module_site();
    config.dnpm = Some(DnpmConfig::Local { target, no_proxy: Some("int".to_string()) });
    let mut map = ServiceMap::new(config, LocalConf::new(1));
    map.install_module(&Dnpm).unwrap();
    map.materialise().unwrap();
    assert!(!map.contains(ServiceId::DnpmNode));
    match map.get(ServiceId::BeamConnect(Network::Ccp)) {
        Some(ServiceValue::BeamConnect(c)) => {
            assert_eq!(c.local_targets[0].allowed.len(), DNPM_SITE_COUNT);
            assert!(c.local_targets[0].reset_host);
            assert_eq!(c.no_proxy, vec!["int"]);
        }
        other => panic!("{other:?}"),
    }
    let own = LocalTarget::new("e".to_string(), "i".to_string(), vec!["only.me".to_string()]);
    let mut config = module_site();
    config.dnpm = Some(DnpmConfig::Local { target: own, no_proxy: None });
    let mut map = ServiceMap::new(config, LocalConf::new(1));
    map.install_module(&Dnpm).unwrap();
    map.materialise().unwrap();
    match map.get(ServiceId::BeamConnect(Network::Ccp)) {
        Some(ServiceValue::BeamConnect(c)) => {
            assert_eq!(c.local_targets[0].allowed, vec!["only.me"]);
        }
        other => panic!("{other:?}"),
    }
}

#[test]
fn dnpm_sites_are_as_many_as_counted() {
    let sites = dnpm_sites();
    assert_eq!(sites.len(), DNPM_SITE_COUNT);
    assert_eq!(sites[22].0, "tkt.dnpm.de");
    assert_eq!(sites[22].1, "dnpm-connect.tobias-develop.broker.ccp-it.dktk.dkfz.de");
}

#[test]
fn local_target_new_switches_everything_off() {
    let t = LocalTarget::new("e".to_string(), "i".to_string(), vec!["a".to_string()]);
    assert_eq!(t.external, "e");
    assert_eq!(t.internal, "i");
    assert_eq!(t.allowed, vec!["a"]);
    assert!(!t.force_https);
    assert!(!t.reset_host);
    assert_eq!(t.external_path, None);
}

#[test]
fn providers_know_their_names() {
    assert_eq!(CcpDefault::balze_service_name(), "ccp-blaze");
    assert_eq!(CcpDefault::prefix(), "ccp");
    let exposure = CcpDefault::treafik_exposure().unwrap();
    assert_eq!(exposure.path, "/ccp-localdatamanagement");
    assert_eq!(exposure.middleware_and_user_name, "ccp-blaze");
    assert_eq!(Obds2Fhir::service_name(), "ccp-obds2fhir-rest");
    assert_eq!(ServiceId::Obds2Fhir.service_name(), "ccp-obds2fhir-rest");
    assert_eq!(ServiceId::Transfair(BlazeSite::Bbmri).service_name(), "transfair");
}

#[test]
fn defaults_of_the_settings() {
    assert_eq!(default_language(), "DE");
    assert_eq!(default_exchange_id_system(), "SESSION_ID");
    assert_eq!(default_directory_sync_url(), "https://directory.bbmri-eric.eu/");
    assert_eq!(default_directory_sync_cron(), "0 22 * * *");
}

#[test]
fn obds2fhir_settings_are_filled_from_the_id_management() {
    let mut config = module_site();
    config.ccp = Some(CcpConfig { id_manager: Some(idm_config()), datashield: true });
    let mut map = ServiceMap::new(config, LocalConf::new(1));
    map.install_module(&CcpDefault).unwrap();
    map.materialise().unwrap();
    let idm = match map.get(ServiceId::IdManagement) {
        Some(ServiceValue::IdManagement(idm)) => idm,
        other => panic!("{other:?}"),
    };
    let empty = Obds2FhirConfig {
        fhir_server_url: None,
        mainzelliste_url: None,
        mainzelliste_apikey: Some("own".to_string()),
        id_type: None,
        keep_internal_id: true,
    };
    let filled = empty.defaulted_with(idm, "http://ccp-blaze:8080/fhir".to_string());
    assert_eq!(filled.fhir_server_url, Some("http://ccp-blaze:8080/fhir".to_string()));
    assert_eq!(
        filled.mainzelliste_url,
        Some("http://ccp-id-management:8080/patientlist".to_string())
    );
    assert_eq!(filled.mainzelliste_apikey, Some("own".to_string()));
    assert_eq!(filled.id_type, Some("BK_MuenchenTUM_L-ID".to_string()));
    assert!(filled.keep_internal_id);
    map.install_with_config(ServiceId::Obds2Fhir, ServiceConfig::Obds2Fhir(filled)).unwrap();
    map.install_with_config(
        ServiceId::Teiler,
        ServiceConfig::Teiler(TeilerConfig { language: default_language() }),
    )
    .unwrap();
    map.materialise().unwrap();
    match map.get(ServiceId::Obds2Fhir) {
        Some(ServiceValue::Obds2Fhir(service)) => {
            assert_eq!(service.salt, "${CCP_OBDS2FHIR_REST_SALT}");
            assert_eq!(service.middleware_name, "ccp-obds2fhir-auth");
            assert_eq!(service.id_type, "BK_MuenchenTUM_L-ID");
        }
        other => panic!("{other:?}"),
    }
    let salt = map.local_conf.generated_secrets.get("CCP_OBDS2FHIR_REST_SALT").unwrap();
    assert_eq!(salt.chars().count(), 30);
    assert!(map.local_conf.basic_auth_users.as_ref().unwrap().contains_key("ccp-obds2fhir-auth"));
    match map.get(ServiceId::Teiler) {
        Some(ServiceValue::Teiler(teiler)) => {
            assert!(teiler.datashield_enabled);
            assert_eq!(teiler.idm_upload_apikey, Some("upload".to_string()));
            assert_eq!(teiler.oidc_user_group, "DKTK_CCP_Muenchen-tum");
            assert_eq!(teiler.exporter_api_key, "${CCP_EXPORTER_API_KEY}");
            assert_eq!(teiler.oidc_client.client_id, "muenchen-tum-public");
            assert_eq!(teiler.conf.language, "DE");
        }
        other => panic!("{other:?}"),
    }
}

#[test]
fn podest2fhir_and_transfair_fall_back_on_the_store() {
    let mut map = ServiceMap::new(module_site(), LocalConf::new(1));
    let podest = Podest2FhirConfig {
        fhir_base_url: None,
        db_host: "db".to_string(),
        db_port: 5432,
        db_name: "podest".to_string(),
        db_user: "u".to_string(),
        db_password: "p".to_string(),
    };
    map.install_with_config(
        ServiceId::Podest2Fhir,
        ServiceConfig::Podest2Fhir(podest, "default".to_string()),
    )
    .unwrap();
    let transfair = TransfairConfig {
        ttp: None,
        fhir_requests: None,
        fhir_output: None,
        fhir_input: None,
        exchange_id_system: default_exchange_id_system(),
        tls_disable: false,
    };
    map.install_with_config(
        ServiceId::Transfair(BlazeSite::Ccp),
        ServiceConfig::Transfair(transfair),
    )
    .unwrap();
    map.materialise().unwrap();
    match map.get(ServiceId::Podest2Fhir) {
        Some(ServiceValue::Podest2Fhir(s)) => {
            assert_eq!(s.fhir_base_url, "http://ccp-blaze:8080/fhir");
            assert_eq!(s.db_port, 5432);
            assert_eq!(s.profile, "default");
        }
        other => panic!("{other:?}"),
    }
    assert_eq!(Podest2Fhir::service_name(), "ccp-podest2fhir");
    match map.get(ServiceId::Transfair(BlazeSite::Ccp)) {
        Some(ServiceValue::Transfair(s)) => {
            assert_eq!(s.fhir_out_server.url, "http://ccp-blaze:8080/");
            assert_eq!(s.fhir_out_server.auth, "");
            assert_eq!(s.trusted_ca_certs, "/etc/bridgehead/trusted-ca-certs");
        }
        other => panic!("{other:?}"),
    }
}

#[test]
fn obds2fhir_names_the_first_setting_that_is_missing() {
    let some = || Some("x".to_string());
    let cases = [
        (None, some(), some(), some(), Obds2FhirSetting::FhirServerUrl),
        (some(), None, None, some(), Obds2FhirSetting::MainzellisteUrl),
        (some(), some(), None, None, Obds2FhirSetting::MainzellisteApikey),
        (some(), some(), some(), None, Obds2FhirSetting::IdType),
    ];
    for (fhir_server_url, mainzelliste_url, mainzelliste_apikey, id_type, missing) in cases {
        let conf = Obds2FhirConfig {
            fhir_server_url,
            mainzelliste_url,
            mainzelliste_apikey,
            id_type,
            keep_internal_id: false,
        };
        let site = module_site();
        let mut traefik = Traefik::from_config(&site);
        let mut local = LocalConf::new(1);
        match Obds2Fhir::from_config(conf, &site, &mut traefik, &mut local) {
            Err(Obds2FhirError::Missing(setting)) => assert_eq!(setting, missing),
            other => panic!("{other:?}"),
        }
        assert!(local.basic_auth_users.is_none());
        assert_eq!(local.generated_secrets.len(), 0);
    }
}

#[test]
fn dnpm_adds_its_sites_to_a_connector_that_is_built_already() {
    let target = LocalTarget::new("ext".to_string(), "int:80".to_string(), vec![]);
    let mut config = module_site();
    config.dnpm = Some(DnpmConfig::Local { target, no_proxy: Some("int".to_string()) });
    let mut map = ServiceMap::new(config, LocalConf::new(1));
    map.install_default(ServiceId::BeamConnect(Network::Ccp)).unwrap();
    map.materialise().unwrap();
    let built = map.services();
    map.install_module(&Dnpm).unwrap();
    assert_eq!(map.hooks.len(), 0);
    assert_eq!(map.services(), built);
    match map.get(ServiceId::BeamConnect(Network::Ccp)) {
        Some(ServiceValue::BeamConnect(c)) => {
            assert_eq!(c.central_targets.len(), DNPM_SITE_COUNT);
            assert_eq!(c.central_targets[22].virtualhost, "tkt.dnpm.de");
            assert_eq!(c.local_targets.len(), 1);
            assert_eq!(c.local_targets[0].external, "ext");
            assert_eq!(c.no_proxy, vec!["int"]);
        }
        other => panic!("{other:?}"),
    }
}

#[test]
fn ccp_tags_a_focus_that_is_built_already() {
    let mut config = module_site();
    config.ccp = Some(CcpConfig { id_manager: None, datashield: false });
    let mut map = ServiceMap::new(config, LocalConf::new(1));
    let focus = ServiceId::Focus(Network::Ccp, BlazeSite::Ccp);
    map.install_default(focus).unwrap();
    map.materialise().unwrap();
    map.install_module(&CcpDefault).unwrap();
    assert_eq!(map.hooks.len(), 0);
    match map.get(focus) {
        Some(ServiceValue::Focus(f)) => assert_eq!(f.tag, "main-dktk"),
        other => panic!("{other:?}"),
    }
}

#[test]
fn central_targets_are_written_as_the_sites_of_a_json_document() {
    let targets = vec![
        CentralTarget {
            virtualhost: "ukfr.dnpm.de".to_string(),
            beam_connect: "dnpm-connect.dnpm-bridge.broker.ccp-it.dktk.dkfz.de".to_string(),
        },
        CentralTarget { virtualhost: "a \"b\"".to_string(), beam_connect: "c".to_string() },
    ];
    let rows = site_rows(&targets);
    assert_eq!(rows.len(), 2);
    assert_eq!(
        rows[0],
        vec![
            ("id".to_string(), "ukfr.dnpm.de".to_string()),
            ("name".to_string(), "ukfr.dnpm.de".to_string()),
            ("virtualhost".to_string(), "ukfr.dnpm.de".to_string()),
            (
                "beamconnect".to_string(),
                "dnpm-connect.dnpm-bridge.broker.ccp-it.dktk.dkfz.de".to_string()
            ),
        ]
    );
    let text = format_central_targets(&targets).unwrap();
    let mut first = serde_json::Map::new();
    first.insert("id".to_string(), serde_json::Value::from("ukfr.dnpm.de"));
    first.insert("name".to_string(), serde_json::Value::from("ukfr.dnpm.de"));
    first.insert("virtualhost".to_string(), serde_json::Value::from("ukfr.dnpm.de"));
    first.insert(
        "beamconnect".to_string(),
        serde_json::Value::from("dnpm-connect.dnpm-bridge.broker.ccp-it.dktk.dkfz.de"),
    );
    let parsed: serde_json::Value = serde_json::from_str(&text).unwrap();
    assert_eq!(parsed["sites"][0], serde_json::Value::Object(first));
    assert_eq!(parsed["sites"][1]["name"], serde_json::Value::from("a \"b\""));
    assert_eq!(parsed["sites"].as_array().unwrap().len(), 2);
    assert_eq!(format_central_targets(&Vec::new()).unwrap(), "{\n  \"sites\": []\n}");
    let one = vec![CentralTarget { virtualhost: "h".to_string(), beam_connect: "c".to_string() }];
    assert_eq!(
        format_central_targets(&one).unwrap(),
        "{\n  \"sites\": [\n    {\n      \"beamconnect\": \"c\",\n      \"id\": \"h\",\n      \"name\": \"h\",\n      \"virtualhost\": \"h\"\n    }\n  ]\n}"
    );
}
