use mcp_edge_gateway::common::config::{CloudEndpoint, LoadBalancingAlgorithm};
use mcp_edge_gateway::router::load_balancer::{EndpointSelection, LoadBalancer};

fn endpoint(url: &str) -> CloudEndpoint {
    CloudEndpoint { name: url.to_string(), url: url.to_string(), api_key: None, timeout_ms: 1000, max_retries: 3 }
}

#[test]
fn round_robin_cycles_through_endpoints() {
    let mut lb = LoadBalancer::new(LoadBalancingAlgorithm::RoundRobin, vec![endpoint("a"), endpoint("b"), endpoint("c")]);
    let picks: Vec<EndpointSelection> = (0..4).map(|_| lb.select_endpoint()).collect();
    assert_eq!(
        picks,
        vec![EndpointSelection::Endpoint(0), EndpointSelection::Endpoint(1), EndpointSelection::Endpoint(2), EndpointSelection::Endpoint(0)]
    );
    assert_eq!(lb.endpoint(1).url, "b");
}

#[test]
fn no_endpoints_no_selection() {
    let mut lb = LoadBalancer::new(LoadBalancingAlgorithm::LeastConnections, vec![]);
    assert_eq!(lb.select_endpoint(), EndpointSelection::NoEndpoint);
}

#[test]
fn least_connections_prefers_idle_healthy_endpoints() {
    let mut lb = LoadBalancer::new(LoadBalancingAlgorithm::LeastConnections, vec![endpoint("a"), endpoint("b"), endpoint("c")]);
    lb.connection_started("a");
    lb.connection_started("a");
    lb.connection_started("b");
    lb.connection_started("c");
    assert_eq!(lb.select_endpoint(), EndpointSelection::Endpoint(1));
    lb.update_endpoint_health("b", false);
    assert_eq!(lb.select_endpoint(), EndpointSelection::Endpoint(2));
    lb.connection_ended("a");
    lb.connection_ended("a");
    assert_eq!(lb.select_endpoint(), EndpointSelection::Endpoint(0));
    assert_eq!(lb.health_of(1).failure_count, 1);
    lb.update_endpoint_health("b", true);
    assert_eq!(lb.health_of(1).failure_count, 0);
}

#[test]
fn least_connections_falls_back_to_first_endpoint() {
    let mut lb = LoadBalancer::new(LoadBalancingAlgorithm::LeastConnections, vec![endpoint("a"), endpoint("b")]);
    lb.update_endpoint_health("a", false);
    lb.update_endpoint_health("b", false);
    assert_eq!(lb.select_endpoint(), EndpointSelection::Endpoint(0));
}

#[test]
fn health_based_hands_out_healthy_candidates() {
    let mut lb = LoadBalancer::new(LoadBalancingAlgorithm::HealthBased, vec![endpoint("a"), endpoint("b"), endpoint("a")]);
    lb.update_endpoint_health("a", false);
    assert_eq!(lb.select_endpoint(), EndpointSelection::BestScored { candidates: vec![1], fallback: 0 });
    assert_eq!(lb.healthy_endpoints(), vec![1]);
    // both endpoints with URL "a" share one health record
    assert!(!lb.health_of(2).is_healthy);
}
