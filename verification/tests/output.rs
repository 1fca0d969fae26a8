use bridgehead::config::{Config, Environment, Host, LocalConf};
use bridgehead::identity::{BlazeSite, Network, ServiceId};
use bridgehead::services::output::WriteStep;
use bridgehead::services::ServiceMap;

fn output_site() -> Config {
    Config {
        site_id: "teststandort".to_string(),
        hostname: Host::Domain("bridgehead.example.org".to_string()),
        environment: Environment::Production,
        version_tag: "latest".to_string(),
        https_proxy_url: None,
        remote_sync: None,
        ccp: None,
        bbmri: None,
        dnpm: None,
        path: "/etc/bridgehead".to_string(),
    }
}

fn built() -> ServiceMap {
    let mut map = ServiceMap::new(output_site(), LocalConf::new(42));
    map.install_default(ServiceId::Focus(Network::Ccp, BlazeSite::Ccp)).unwrap();
    map.materialise().unwrap();
    map
}

#[test]
fn write_all_writes_a_manifest_for_every_service() {
    let map = built();
    let ids = map.services();
    let rendered: Vec<String> = ids.iter().map(|id| format!("# {}", id.service_name())).collect();
    let steps = map.write_all(
        rendered,
        "#!/bin/bash".to_string(),
        "seed = 42".to_string(),
        ".env".to_string(),
    );
    assert_eq!(steps.len(), ids.len() + 5);
    match &steps[0] {
        WriteStep::ResetDir { path } => assert_eq!(path, "/etc/bridgehead/services"),
        other => panic!("{other:?}"),
    }
    for id in &ids {
        let name = id.service_name();
        let want = format!("/etc/bridgehead/services/{name}.yml");
        let found = steps.iter().any(|s| match s {
            WriteStep::Write { path, content, executable } => {
                *path == want && *content == format!("# {name}") && !*executable
            }
            _ => false,
        });
        assert!(found, "no manifest for {name}");
    }
    let tail: Vec<(String, bool)> = steps[ids.len() + 1..]
        .iter()
        .map(|s| match s {
            WriteStep::Write { path, executable, .. } => (path.clone(), *executable),
            other => panic!("{other:?}"),
        })
        .collect();
    assert_eq!(
        tail,
        vec![
            ("/etc/bridgehead/bridgehead".to_string(), true),
            ("/etc/bridgehead/config.local.toml".to_string(), false),
            ("/etc/bridgehead/.env".to_string(), false),
            ("/etc/bridgehead/.gitignore".to_string(), false),
        ]
    );
    match &steps[ids.len() + 3] {
        WriteStep::Write { content, .. } => assert_eq!(*content, map.local_conf.to_env()),
        other => panic!("{other:?}"),
    }
}

#[test]
fn write_composables_resets_the_directory_first() {
    let map = ServiceMap::new(output_site(), LocalConf::new(1));
    let steps = map.write_composables(Vec::new());
    assert_eq!(steps.len(), 1);
    assert!(matches!(&steps[0], WriteStep::ResetDir { path } if path == "/etc/bridgehead/services"));
}

#[test]
fn lockfile_is_skipped_when_nothing_is_built() {
    let map = ServiceMap::new(output_site(), LocalConf::new(1));
    assert!(map.generate_lockfile_and_pull(false).is_none());
    assert!(map.generate_lockfile_and_pull(true).is_none());
}

#[test]
fn lockfile_and_pull_name_every_manifest() {
    let mut map = ServiceMap::new(output_site(), LocalConf::new(1));
    map.install_default(ServiceId::Traefik).unwrap();
    map.install_default(ServiceId::ForwardProxy).unwrap();
    map.materialise().unwrap();
    let plan = map.generate_lockfile_and_pull(true).unwrap();
    let first = map.services()[0].service_name();
    let second = map.services()[1].service_name();
    assert_eq!(
        plan.lock_args,
        vec![
            "-f".to_string(),
            format!("/etc/bridgehead/services/{first}.yml"),
            "-f".to_string(),
            format!("/etc/bridgehead/services/{second}.yml"),
            "-f".to_string(),
            "docker-compose.override.yml".to_string(),
            "--env-file".to_string(),
            ".env".to_string(),
            "config".to_string(),
            "--lock-image-digests".to_string(),
        ]
    );
    assert_eq!(plan.pull_args[plan.pull_args.len() - 2..], ["pull", "--quiet"]);
    let plain = map.generate_lockfile_and_pull(false).unwrap();
    assert_eq!(plain.lock_args.len(), 8);
    assert!(!plain.lock_args.contains(&"docker-compose.override.yml".to_string()));
}
