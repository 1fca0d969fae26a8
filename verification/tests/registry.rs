use bridgehead::identity::{BlazeSite, Network, ServiceId};
use bridgehead::registry::{first_duplicate, Registry, RegistryError};

#[test]
fn registry_insert_and_get() {
    let mut r: Registry<u32> = Registry::new();
    assert_eq!(r.len(), 0);
    assert!(!r.contains(ServiceId::Traefik));
    assert_eq!(r.insert(ServiceId::Traefik, 1), None);
    assert_eq!(r.insert(ServiceId::ForwardProxy, 2), None);
    assert!(r.contains(ServiceId::Traefik));
    assert_eq!(r.get(ServiceId::ForwardProxy), Some(&2));
    assert_eq!(r.get(ServiceId::DnpmNode), None);
    assert_eq!(r.len(), 2);
    assert_eq!(r.id_at(0), ServiceId::Traefik);
    assert_eq!(r.value_at(1), Some(&2));
}

#[test]
fn registry_insert_replaces_in_place() {
    let mut r: Registry<u32> = Registry::new();
    r.insert(ServiceId::Traefik, 1);
    r.insert(ServiceId::ForwardProxy, 2);
    assert_eq!(r.insert(ServiceId::Traefik, 3), Some(1));
    assert_eq!(r.len(), 2);
    assert_eq!(r.id_at(0), ServiceId::Traefik);
    assert_eq!(r.get(ServiceId::Traefik), Some(&3));
}

#[test]
fn registry_keeps_parameterised_identities_apart() {
    let mut r: Registry<u32> = Registry::new();
    r.insert(ServiceId::Focus(Network::Ccp, BlazeSite::Ccp), 1);
    r.insert(ServiceId::Focus(Network::Eric, BlazeSite::Bbmri), 2);
    r.insert(ServiceId::Focus(Network::Gbn, BlazeSite::Bbmri), 3);
    assert_eq!(r.len(), 3);
    assert_eq!(r.get(ServiceId::Focus(Network::Eric, BlazeSite::Bbmri)), Some(&2));
    assert_eq!(r.get(ServiceId::Focus(Network::Eric, BlazeSite::Ccp)), None);
}

#[test]
fn registry_take_leaves_the_place_in_the_order() {
    let mut r: Registry<u32> = Registry::new();
    r.insert(ServiceId::Traefik, 1);
    r.insert(ServiceId::ForwardProxy, 2);
    assert_eq!(r.take(ServiceId::Traefik), Some(1));
    assert!(!r.contains(ServiceId::Traefik));
    assert_eq!(r.take(ServiceId::Traefik), None);
    assert_eq!(r.len(), 2);
    assert_eq!(r.value_at(0), None);
    r.insert(ServiceId::Traefik, 5);
    assert_eq!(r.id_at(0), ServiceId::Traefik);
    assert_eq!(r.value_at(0), Some(&5));
}

#[test]
fn take_disjoint_hands_out_one_slot_for_each_identity() {
    let mut r: Registry<u32> = Registry::new();
    r.insert(ServiceId::Traefik, 1);
    r.insert(ServiceId::ForwardProxy, 2);
    let ids = vec![ServiceId::ForwardProxy, ServiceId::DnpmNode, ServiceId::Traefik];
    let slots = r.take_disjoint(&ids).unwrap();
    assert_eq!(slots, vec![Some(2), None, Some(1)]);
    assert!(!r.contains(ServiceId::Traefik));
    assert!(!r.contains(ServiceId::ForwardProxy));
    r.put_back(&ids, vec![Some(20), None, Some(10)]);
    assert_eq!(r.get(ServiceId::Traefik), Some(&10));
    assert_eq!(r.get(ServiceId::ForwardProxy), Some(&20));
    assert!(!r.contains(ServiceId::DnpmNode));
    assert_eq!(r.id_at(0), ServiceId::Traefik);
}

#[test]
fn take_disjoint_refuses_an_identity_that_stands_twice() {
    let mut r: Registry<u32> = Registry::new();
    r.insert(ServiceId::Traefik, 1);
    let ids = vec![ServiceId::Traefik, ServiceId::ForwardProxy, ServiceId::Traefik];
    assert_eq!(r.take_disjoint(&ids), Err(RegistryError::Duplicate(ServiceId::Traefik)));
    assert_eq!(r.get(ServiceId::Traefik), Some(&1));
}

#[test]
fn first_duplicate_finds_the_first_pair() {
    assert_eq!(first_duplicate(&vec![]), None);
    assert_eq!(first_duplicate(&vec![ServiceId::Traefik, ServiceId::DnpmNode]), None);
    assert_eq!(
        first_duplicate(&vec![
            ServiceId::Traefik,
            ServiceId::DnpmNode,
            ServiceId::DnpmNode,
            ServiceId::Traefik
        ]),
        Some(ServiceId::DnpmNode)
    );
}
