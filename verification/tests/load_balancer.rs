use orchestrator::controllers::load_balancer_controller::{ELoadBalancerBehavior, ELoadBalancerMode};
use orchestrator::models::service_container_models::ServiceContainer;
use orchestrator::models::service_load_balancer::{ContainerSummary, ServiceLoadBalancer, StaleContainers};
use orchestrator::utils::keyed_map::KeyedMap;

fn container(id: i32, docker_id: &str, port: i32, uuid: u128, cippj: i32) -> ServiceContainer {
    ServiceContainer { id, container_id: docker_id.to_string(), public_port: port, uuid, cippj_fk: cippj }
}

fn balancer(head: i32, containers: Vec<ServiceContainer>) -> ServiceLoadBalancer<u32> {
    let mut lb = ServiceLoadBalancer::new(7, "img".to_string(), "8080".to_string(), "/api".to_string(), false);
    lb.head = head;
    for c in containers {
        lb.add_container(c);
    }
    lb
}

fn summary(id: &str, state: &str) -> ContainerSummary {
    ContainerSummary { id: Some(id.to_string()), state: state.to_string() }
}

#[test]
fn new_load_balancer_starts_queueing() {
    let lb: ServiceLoadBalancer<u32> =
        ServiceLoadBalancer::new(3, "img".to_string(), "80".to_string(), "/p".to_string(), true);
    assert_eq!(lb.id, 3);
    assert_eq!(lb.head, 0);
    assert_eq!(lb.behavior, ELoadBalancerBehavior::RoundRobin);
    assert_eq!(lb.mode, ELoadBalancerMode::QUEUE);
    assert!(lb.containers.is_empty());
    assert!(lb.awaited_containers.is_empty());
    assert!(!lb.validated);
    assert!(lb.request_queue.is_empty());
    assert!(lb.https);
}

#[test]
fn round_robin_cycles_through_every_container() {
    let mut lb = balancer(0, vec![container(10, "a", 5001, 1, 100), container(11, "b", 5002, 2, 101), container(12, "c", 5003, 3, 102)]);
    assert_eq!(lb.next_container(), Some((5002, 11)));
    assert_eq!(lb.head, 1);
    assert_eq!(lb.next_container(), Some((5003, 12)));
    assert_eq!(lb.next_container(), Some((5001, 10)));
    assert_eq!(lb.head, 0);
    assert_eq!(lb.next_container(), Some((5002, 11)));
}

#[test]
fn round_robin_edge_heads() {
    let mut empty = balancer(4, vec![]);
    assert_eq!(empty.next_container(), None);
    assert_eq!(empty.head, 4);
    let mut lb = balancer(-1, vec![container(10, "a", 5001, 1, 100), container(11, "b", 5002, 2, 101)]);
    assert_eq!(lb.next_container(), Some((5001, 10)));
    assert_eq!(lb.head, 0);
    let mut lb = balancer(7, vec![container(10, "a", 5001, 1, 100), container(11, "b", 5002, 2, 101)]);
    assert_eq!(lb.next_container(), Some((5001, 10)));
    let lb = balancer(-3, vec![container(10, "a", 5001, 1, 100), container(11, "b", 5002, 2, 101)]);
    assert!(lb.can_advance());
    let lb = balancer(-2, vec![container(10, "a", 5001, 1, 100), container(11, "b", 5002, 2, 101)]);
    assert!(!lb.can_advance());
    let lb = balancer(i32::MAX, vec![container(10, "a", 5001, 1, 100)]);
    assert!(!lb.can_advance());
    let lb = balancer(i32::MAX, vec![]);
    assert!(lb.can_advance());
}

#[test]
fn remove_container_takes_first_match() {
    let mut lb = balancer(0, vec![container(10, "a", 1, 1, 1), container(11, "b", 2, 2, 2), container(11, "c", 3, 3, 3)]);
    let removed = lb.remove_container(11).unwrap();
    assert_eq!(removed.container_id, "b");
    let ids: Vec<String> = lb.containers.iter().map(|c| c.container_id.clone()).collect();
    assert_eq!(ids, vec!["a".to_string(), "c".to_string()]);
    assert!(lb.remove_container(99).is_none());
    assert_eq!(lb.containers.len(), 2);
}

#[test]
fn add_and_queue_and_empty() {
    let mut lb = balancer(0, vec![]);
    let added = lb.add_container(container(5, "x", 9000, 1, 1));
    assert_eq!(added.id, 5);
    lb.queue_request(1);
    lb.queue_request(2);
    assert_eq!(lb.empty_queue(), vec![1, 2]);
    assert!(lb.request_queue.is_empty());
    assert!(lb.empty_queue().is_empty());
}

#[test]
fn queue_container_keys_both_registers_by_uuid_text() {
    let mut lb = balancer(0, vec![]);
    let mut awaited: KeyedMap<String> = KeyedMap::new();
    lb.queue_container(container(5, "x", 9000, 0xa1a2a3a4b1b2c1c2d1d2d3d4d5d6d7d8, 1), &mut awaited);
    let key = "a1a2a3a4-b1b2-c1c2-d1d2-d3d4d5d6d7d8".to_string();
    assert_eq!(awaited.get(&key), Some(&"img".to_string()));
    assert_eq!(lb.awaited_containers.get(&key).unwrap().id, 5);
    assert!(lb.containers.is_empty());
}

#[test]
fn validation_keeps_running_and_releases_stale() {
    let mut lb = balancer(0, vec![container(10, "a", 1, 1, 100), container(11, "b", 2, 2, 101), container(12, "c", 3, 3, 102)]);
    let (pending, mut ids) = lb.begin_validation();
    assert!(lb.containers.is_empty());
    ids.sort();
    assert_eq!(ids, vec!["a".to_string(), "b".to_string(), "c".to_string()]);
    let report = vec![summary("c", "running"), summary("b", "exited"), summary("a", "running")];
    assert!(pending.accepts_report(&report));
    let released = lb.finish_validation(pending, Ok(report)).unwrap();
    let kept: Vec<i32> = lb.containers.iter().map(|c| c.id).collect();
    assert_eq!(kept, vec![12, 10]);
    assert_eq!(released, Some(StaleContainers { container_ids: vec![11], reservations: vec![101] }));
}

#[test]
fn validation_with_everything_running_releases_nothing() {
    let mut lb = balancer(0, vec![container(10, "a", 1, 1, 100)]);
    let (pending, _ids) = lb.begin_validation();
    let released = lb.finish_validation(pending, Ok(vec![summary("a", "running")])).unwrap();
    assert_eq!(released, None);
    assert_eq!(lb.containers.len(), 1);
}

#[test]
fn validation_of_duplicate_docker_ids_keeps_the_last() {
    let mut lb = balancer(0, vec![container(10, "a", 1, 1, 100), container(11, "a", 2, 2, 101)]);
    let (pending, ids) = lb.begin_validation();
    assert_eq!(ids, vec!["a".to_string()]);
    let released = lb.finish_validation(pending, Ok(vec![])).unwrap();
    assert_eq!(released, Some(StaleContainers { container_ids: vec![11], reservations: vec![101] }));
}

#[test]
fn validation_error_passes_through() {
    let mut lb = balancer(0, vec![container(10, "a", 1, 1, 100)]);
    let (pending, _ids) = lb.begin_validation();
    let r = lb.finish_validation(pending, Err("docker down".to_string()));
    assert_eq!(r, Err("docker down".to_string()));
    assert!(lb.containers.is_empty());
}

#[test]
fn reports_that_do_not_fit() {
    let mut lb = balancer(0, vec![container(10, "a", 1, 1, 100)]);
    let (pending, _ids) = lb.begin_validation();
    assert!(!pending.accepts_report(&vec![summary("zzz", "running")]));
    assert!(!pending.accepts_report(&vec![summary("a", "running"), summary("a", "running")]));
    assert!(!pending.accepts_report(&vec![ContainerSummary { id: None, state: "running".to_string() }]));
    assert!(pending.accepts_report(&vec![summary("zzz", "exited"), summary("a", "running")]));
}

#[test]
fn validation_pairs_row_ids_with_reservations() {
    let mut lb = balancer(0, vec![container(10, "a", 1, 1, 100), container(11, "b", 2, 2, 101), container(12, "c", 3, 3, 102)]);
    let (pending, _ids) = lb.begin_validation();
    let report = vec![summary("a", "exited"), summary("b", "running"), summary("c", "created")];
    let stale = lb.finish_validation(pending, Ok(report)).unwrap().unwrap();
    let mut pairs: Vec<(i32, i32)> =
        stale.container_ids.iter().copied().zip(stale.reservations.iter().copied()).collect();
    pairs.sort();
    assert_eq!(pairs, vec![(10, 100), (12, 102)]);
    let kept: Vec<i32> = lb.containers.iter().map(|c| c.id).collect();
    assert_eq!(kept, vec![11]);
}
