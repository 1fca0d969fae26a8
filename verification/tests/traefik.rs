use bridgehead::ordered_map::OrderedMap;
use bridgehead::services::traefik::BasicAuthUser;
use bridgehead::config::{Config, Environment, Host, LocalConf};
use bridgehead::identity::BlazeSite;
use bridgehead::services::blaze::Blaze;
use bridgehead::services::datashield::DataShield;
use bridgehead::services::traefik::{enter_user, AuthError, TlsAction, TlsError, Traefik};
use bridgehead::utils::CHARSET;

fn traefik_site() -> Config {
    Config {
        site_id: "teststandort".to_string(),
        hostname: Host::Ipv4("10.1.2.3".to_string()),
        environment: Environment::Test,
        version_tag: "latest".to_string(),
        https_proxy_url: None,
        remote_sync: None,
        ccp: None,
        bbmri: None,
        dnpm: None,
        path: "/srv/site".to_string(),
    }
}

#[test]
fn traefik_keeps_its_certificate_below_the_site() {
    let traefik = Traefik::from_config(&traefik_site());
    assert_eq!(traefik.tls_dir, "/srv/site/traefik-tls");
    let (chain, key) = traefik.tls_files();
    assert_eq!(chain, "/srv/site/traefik-tls/fullchain.pem");
    assert_eq!(key, "/srv/site/traefik-tls/privkey.pem");
    assert_eq!(Traefik::service_name(), "traefik");
}

#[test]
fn tls_plan_for_each_state_of_the_files() {
    assert_eq!(Traefik::tls_plan(false, false), Ok(TlsAction::Generate));
    assert_eq!(Traefik::tls_plan(true, true), Ok(TlsAction::Keep));
    assert_eq!(Traefik::tls_plan(true, false), Err(TlsError::MissingPrivKey));
    assert_eq!(Traefik::tls_plan(false, true), Err(TlsError::MissingFullChain));
}

#[test]
fn opal_certificate_is_made_unless_both_files_exist() {
    assert!(DataShield::needs_certificate(false, false));
    assert!(DataShield::needs_certificate(true, false));
    assert!(DataShield::needs_certificate(false, true));
    assert!(!DataShield::needs_certificate(true, true));
}

#[test]
fn basic_auth_hash_verifies_against_the_cleartext() {
    let mut traefik = Traefik::from_config(&traefik_site());
    let mut local = LocalConf::new(1);
    traefik.add_basic_auth_user(&mut local, "ccp-blaze".to_string()).unwrap();
    let users = local.basic_auth_users.as_ref().unwrap();
    assert_eq!(users.len(), 1);
    let user = users.get("ccp-blaze").unwrap();
    let pw = user.pw.clone().unwrap();
    assert_eq!(pw.chars().count(), 10);
    assert!(pw.chars().all(|c| CHARSET.contains(c)));
    assert_ne!(user.hash, pw);
    assert!(user.hash.starts_with("$2b$12$"));
    assert_eq!(user.hash.len(), 60);
    assert!(bcrypt::verify(&pw, &user.hash).unwrap());
    assert!(!bcrypt::verify("not the password", &user.hash).unwrap());
}

#[test]
fn basic_auth_user_that_exists_is_left_alone() {
    let mut traefik = Traefik::from_config(&traefik_site());
    let mut local = LocalConf::new(1);
    traefik.add_basic_auth_user(&mut local, "ccp-blaze".to_string()).unwrap();
    let hash = local.basic_auth_users.as_ref().unwrap().get("ccp-blaze").unwrap().hash.clone();
    traefik.add_basic_auth_user(&mut local, "ccp-blaze".to_string()).unwrap();
    let users = local.basic_auth_users.as_ref().unwrap();
    assert_eq!(users.len(), 1);
    assert_eq!(users.get("ccp-blaze").unwrap().hash, hash);
}

#[test]
fn blaze_adds_the_user_that_guards_it() {
    let mut traefik = Traefik::from_config(&traefik_site());
    let mut local = LocalConf::new(1);
    let blaze = Blaze::from_config(BlazeSite::Bbmri, &mut traefik, &mut local).unwrap();
    assert_eq!(blaze.get_url(), "http://bbmri-blaze:8080/");
    let conf = blaze.traefik_conf.as_ref().unwrap();
    assert_eq!(conf.path, "/bbmri-localdatamanagement");
    assert_eq!(conf.middleware_and_user_name, "bbmri-blaze");
    assert!(local.basic_auth_users.as_ref().unwrap().contains_key("bbmri-blaze"));
    assert_eq!(Blaze::service_name(BlazeSite::Ccp), "ccp-blaze");
}

#[test]
fn check_tells_a_right_hash_from_a_wrong_one() {
    let hash = bcrypt::hash("secret", 4).unwrap();
    let right = BasicAuthUser { hash: hash.clone(), pw: Some("secret".to_string()) };
    let wrong = BasicAuthUser { hash: hash.clone(), pw: Some("other".to_string()) };
    let fetched = BasicAuthUser { hash, pw: None };
    let broken = BasicAuthUser { hash: "no hash".to_string(), pw: Some("secret".to_string()) };
    assert!(right.check());
    assert!(!wrong.check());
    assert!(fetched.check());
    assert!(!broken.check());
}

#[test]
fn check_users_finds_a_user_whose_hash_does_not_fit() {
    let mut traefik = Traefik::from_config(&traefik_site());
    let mut local = LocalConf::new(1);
    assert!(local.check_users());
    traefik.add_basic_auth_user(&mut local, "a".to_string()).unwrap();
    assert!(local.check_users());
    let mut users = OrderedMap::new();
    users.insert(
        "b".to_string(),
        BasicAuthUser { hash: bcrypt::hash("x", 4).unwrap(), pw: Some("y".to_string()) },
    );
    local.basic_auth_users = Some(users);
    assert!(!local.check_users());
}

#[test]
fn enter_user_keeps_the_user_only_with_a_hash() {
    let mut local = LocalConf::new(1);
    let r = enter_user(&mut local, "ccp-blaze".to_string(), "pw".to_string(), None);
    assert_eq!(r, Err(AuthError::Hash));
    assert!(local.basic_auth_users.is_none());
    let r = enter_user(
        &mut local,
        "ccp-blaze".to_string(),
        "pw".to_string(),
        Some("hash".to_string()),
    );
    assert_eq!(r, Ok(()));
    let users = local.basic_auth_users.as_ref().unwrap();
    assert_eq!(users.len(), 1);
    let user = users.get("ccp-blaze").unwrap();
    assert_eq!(user.hash, "hash");
    assert_eq!(user.pw, Some("pw".to_string()));
}
