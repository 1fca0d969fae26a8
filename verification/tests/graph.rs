use bridgehead::graph::{DepGraph, GraphError, Node};
use bridgehead::identity::{BlazeSite, Network, PgOwner, ServiceId};

const FOCUS: ServiceId = ServiceId::Focus(Network::Ccp, BlazeSite::Ccp);
const PROXY: ServiceId = ServiceId::BeamProxy(Network::Ccp);
const BLAZE: ServiceId = ServiceId::Blaze(BlazeSite::Ccp);

fn position(order: &[ServiceId], id: ServiceId) -> usize {
    order.iter().position(|x| *x == id).unwrap()
}

#[test]
fn empty_graph_has_an_empty_order() {
    let g = DepGraph::new();
    assert_eq!(g.len(), 0);
    assert_eq!(g.topological_order().unwrap(), Vec::<ServiceId>::new());
}

#[test]
fn order_puts_dependencies_first() {
    let mut g = DepGraph::new();
    g.register(Node::Root, FOCUS);
    g.register_many(Node::Service(FOCUS), &vec![PROXY, BLAZE]);
    g.register(Node::Service(PROXY), ServiceId::ForwardProxy);
    g.register(Node::Service(BLAZE), ServiceId::Traefik);
    assert!(g.has(Node::Service(FOCUS), BLAZE));
    assert!(!g.has(Node::Service(BLAZE), FOCUS));
    let order = g.topological_order().unwrap();
    assert_eq!(order.len(), 5);
    assert!(position(&order, PROXY) < position(&order, FOCUS));
    assert!(position(&order, BLAZE) < position(&order, FOCUS));
    assert!(position(&order, ServiceId::ForwardProxy) < position(&order, PROXY));
    assert!(position(&order, ServiceId::Traefik) < position(&order, BLAZE));
}

#[test]
fn shared_dependency_is_emitted_once() {
    let mut g = DepGraph::new();
    g.register(Node::Root, ServiceId::DataShield);
    g.register(Node::Root, ServiceId::Teiler);
    g.register(Node::Root, ServiceId::Teiler);
    g.register(Node::Service(ServiceId::DataShield), ServiceId::ForwardProxy);
    g.register(Node::Service(ServiceId::Teiler), ServiceId::ForwardProxy);
    let order = g.topological_order().unwrap();
    assert_eq!(order.len(), 3);
    assert_eq!(order.iter().filter(|x| **x == ServiceId::ForwardProxy).count(), 1);
    assert_eq!(position(&order, ServiceId::ForwardProxy), 0);
}

#[test]
fn services_that_hang_on_nothing_are_left_out() {
    let mut g = DepGraph::new();
    g.register(Node::Root, ServiceId::Traefik);
    g.register(Node::Service(ServiceId::Postgres(PgOwner::Exporter)), ServiceId::DnpmNode);
    assert_eq!(g.topological_order().unwrap(), vec![ServiceId::Traefik]);
}

#[test]
fn cycle_below_the_root_is_reported() {
    let mut g = DepGraph::new();
    g.register(Node::Root, FOCUS);
    g.register(Node::Service(FOCUS), PROXY);
    g.register(Node::Service(PROXY), BLAZE);
    g.register(Node::Service(BLAZE), PROXY);
    match g.topological_order() {
        Err(GraphError::Cycle(walk)) => {
            assert!(walk.len() >= 2);
            assert_eq!(walk.first(), walk.last());
            for pair in walk.windows(2) {
                assert!(g.has(Node::Service(pair[0]), pair[1]));
            }
        }
        Ok(order) => panic!("a cycle was ordered: {order:?}"),
    }
}

#[test]
fn service_that_depends_on_itself_is_a_cycle() {
    let mut g = DepGraph::new();
    g.register(Node::Root, ServiceId::Traefik);
    g.register(Node::Service(ServiceId::Traefik), ServiceId::Traefik);
    match g.topological_order() {
        Err(GraphError::Cycle(walk)) => {
            assert_eq!(walk, vec![ServiceId::Traefik, ServiceId::Traefik]);
        }
        Ok(_) => panic!("a self loop was ordered"),
    }
}

#[test]
fn cycle_that_the_root_does_not_reach_is_ignored() {
    let mut g = DepGraph::new();
    g.register(Node::Root, ServiceId::Traefik);
    g.register(Node::Service(PROXY), BLAZE);
    g.register(Node::Service(BLAZE), PROXY);
    assert_eq!(g.topological_order().unwrap(), vec![ServiceId::Traefik]);
}

#[test]
fn order_takes_the_service_discovered_first_among_those_that_are_ready() {
    let mut g = DepGraph::new();
    g.register(Node::Root, FOCUS);
    g.register_many(Node::Service(FOCUS), &vec![PROXY, BLAZE]);
    g.register(Node::Service(PROXY), ServiceId::ForwardProxy);
    g.register(Node::Service(BLAZE), ServiceId::Traefik);
    assert_eq!(
        g.topological_order().unwrap(),
        vec![ServiceId::ForwardProxy, PROXY, ServiceId::Traefik, BLAZE, FOCUS]
    );
    let mut g = DepGraph::new();
    g.register(Node::Root, ServiceId::Traefik);
    g.register(Node::Root, ServiceId::ForwardProxy);
    g.register(Node::Root, ServiceId::DnpmNode);
    g.register(Node::Root, ServiceId::Traefik);
    assert_eq!(
        g.topological_order().unwrap(),
        vec![ServiceId::Traefik, ServiceId::ForwardProxy, ServiceId::DnpmNode]
    );
}
