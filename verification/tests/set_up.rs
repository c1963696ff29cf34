use orchestrator::controllers::image_controller::{get_image, ImageRow};
use orchestrator::controllers::load_balancer_controller::{
    adopt_load_balancer, init, load_balancer_from_rows, lookup_load_balancer, lookup_stored_load_balancer,
    mark_load_balancer_awaited, prepare_load_balancer, settle_load_balancer_insert, settle_start, settle_validation,
    ELoadBalancerBehavior, ELoadBalancerMode, LoadBalancerContainerRow, LoadBalancerLookup, LoadBalancerRow,
    LoadBalancerSetup,
};
use orchestrator::controllers::route_controller::{route_resolver, RouteRow};
use orchestrator::models::service_container_models::ServiceContainer;
use orchestrator::models::service_image_models::ServiceImage;
use orchestrator::models::service_load_balancer::{ContainerSummary, ServiceLoadBalancer, StaleContainers};
use orchestrator::utils::keyed_map::KeyedMap;

fn container(id: i32, docker_id: &str, uuid: u128, cippj: i32) -> ServiceContainer {
    ServiceContainer { id, container_id: docker_id.to_string(), public_port: 6000 + id, uuid, cippj_fk: cippj }
}

fn fresh() -> ServiceLoadBalancer<u32> {
    ServiceLoadBalancer::new(1, "img".to_string(), "80".to_string(), "/p".to_string(), false)
}

fn row(lb_id: i32, head: i32, c: Option<(i32, &str)>) -> LoadBalancerRow {
    LoadBalancerRow {
        lb_id,
        lb_head: head,
        container: c.map(|(id, d)| LoadBalancerContainerRow {
            c_id: id,
            docker_container_id: d.to_string(),
            cippj_fk: id * 10,
            port: 7000 + id,
            uuid: id as u128,
        }),
    }
}

#[test]
fn rebuild_from_rows() {
    let none: Option<ServiceLoadBalancer<u32>> =
        load_balancer_from_rows(vec![], "img".to_string(), "80".to_string(), "/p".to_string(), true);
    assert!(none.is_none());
    let lb: ServiceLoadBalancer<u32> = load_balancer_from_rows(
        vec![row(5, 2, Some((1, "a"))), row(6, 9, None), row(5, 2, Some((2, "b")))],
        "img".to_string(),
        "80".to_string(),
        "/p".to_string(),
        true,
    )
    .unwrap();
    assert_eq!(lb.id, 5);
    assert_eq!(lb.head, 2);
    assert_eq!(lb.mode, ELoadBalancerMode::QUEUE);
    let got: Vec<(i32, String, i32, i32, u128)> =
        lb.containers.iter().map(|c| (c.id, c.container_id.clone(), c.public_port, c.cippj_fk, c.uuid)).collect();
    assert_eq!(got, vec![(1, "a".to_string(), 7001, 10, 1), (2, "b".to_string(), 7002, 20, 2)]);
    assert!(lb.https);
}

#[test]
fn cached_load_balancer_is_returned_at_once() {
    let mut registry = init::<u32>();
    assert!(registry.load_balancers.is_empty());
    let image = ServiceImage { id: 1, docker_image_id: "img".to_string() };
    assert_eq!(lookup_load_balancer(&registry.load_balancers, &image), None);
    registry.load_balancers.insert("img".to_string(), fresh());
    assert_eq!(lookup_load_balancer(&registry.load_balancers, &image), Some(("img".to_string(), false)));
}

#[test]
fn held_requests_become_the_queue() {
    let mut awaited: KeyedMap<Vec<u32>> = KeyedMap::new();
    let key = "img".to_string();
    mark_load_balancer_awaited(&mut awaited, &key);
    assert_eq!(awaited.get(&key), Some(&vec![]));
    let mut queue = awaited.remove(&key).unwrap();
    queue.push(4);
    awaited.insert(key.clone(), queue);
    let lb = adopt_load_balancer(Ok(fresh()), &mut awaited, &key).unwrap();
    assert_eq!(lb.request_queue, vec![4]);
    assert!(!awaited.contains_key(&key));
    let mut lb2 = fresh();
    lb2.queue_request(8);
    let lb2 = adopt_load_balancer(Ok(lb2), &mut awaited, &key).unwrap();
    assert_eq!(lb2.request_queue, vec![8]);
    mark_load_balancer_awaited(&mut awaited, &key);
    let err = adopt_load_balancer::<u32>(Err("db".to_string()), &mut awaited, &key);
    assert!(err.is_err());
    assert!(awaited.contains_key(&key));
}

#[test]
fn new_load_balancer_is_registered_as_new() {
    let mut lbs: KeyedMap<ServiceLoadBalancer<u32>> = KeyedMap::new();
    let key = "img".to_string();
    match prepare_load_balancer(fresh(), &mut lbs, &key) {
        LoadBalancerSetup::Finished(r) => assert_eq!(r, Ok(("img".to_string(), true))),
        _ => panic!("expected a finished set-up"),
    }
    assert!(lbs.contains_key(&key));
}

#[test]
fn validation_with_running_containers_forwards() {
    let mut lbs: KeyedMap<ServiceLoadBalancer<u32>> = KeyedMap::new();
    let mut awaited: KeyedMap<String> = KeyedMap::new();
    let key = "img".to_string();
    let mut lb = fresh();
    lb.add_container(container(1, "a", 1, 10));
    lb.add_container(container(2, "b", 2, 20));
    let (lb, pending, ids) = match prepare_load_balancer(lb, &mut lbs, &key) {
        LoadBalancerSetup::Validate { lb, pending, container_ids } => (lb, pending, container_ids),
        _ => panic!("expected validation"),
    };
    assert_eq!(ids.len(), 2);
    assert!(!lbs.contains_key(&key));
    let report = vec![
        ContainerSummary { id: Some("a".to_string()), state: "running".to_string() },
        ContainerSummary { id: Some("b".to_string()), state: "dead".to_string() },
    ];
    let (step, released) = settle_validation(lb, pending, Ok(report), &mut lbs, &mut awaited, &key);
    match step {
        LoadBalancerSetup::Finished(r) => assert_eq!(r, Ok(("img".to_string(), false))),
        _ => panic!("expected a finished set-up"),
    }
    assert_eq!(released, Some(StaleContainers { container_ids: vec![2], reservations: vec![20] }));
    let registered = lbs.get(&key).unwrap();
    assert_eq!(registered.mode, ELoadBalancerMode::FORWARD);
    assert_eq!(registered.containers.len(), 1);
    assert!(awaited.is_empty());
}

#[test]
fn validation_with_nothing_running_is_new_and_forwards() {
    let mut lbs: KeyedMap<ServiceLoadBalancer<u32>> = KeyedMap::new();
    let mut awaited: KeyedMap<String> = KeyedMap::new();
    let key = "img".to_string();
    let mut lb = fresh();
    lb.add_container(container(1, "a", 1, 10));
    let (lb, pending) = match prepare_load_balancer(lb, &mut lbs, &key) {
        LoadBalancerSetup::Validate { lb, pending, .. } => (lb, pending),
        _ => panic!("expected validation"),
    };
    let (step, released) = settle_validation(lb, pending, Ok(vec![]), &mut lbs, &mut awaited, &key);
    match step {
        LoadBalancerSetup::Finished(r) => assert_eq!(r, Ok(("img".to_string(), true))),
        _ => panic!("expected a finished set-up"),
    }
    assert_eq!(released, Some(StaleContainers { container_ids: vec![1], reservations: vec![10] }));
    assert_eq!(lbs.get(&key).unwrap().mode, ELoadBalancerMode::FORWARD);
}

#[test]
fn validation_error_ends_set_up() {
    let mut lbs: KeyedMap<ServiceLoadBalancer<u32>> = KeyedMap::new();
    let mut awaited: KeyedMap<String> = KeyedMap::new();
    let key = "img".to_string();
    let mut lb = fresh();
    lb.add_container(container(1, "a", 1, 10));
    let (lb, pending) = match prepare_load_balancer(lb, &mut lbs, &key) {
        LoadBalancerSetup::Validate { lb, pending, .. } => (lb, pending),
        _ => panic!("expected validation"),
    };
    let (step, released) = settle_validation(lb, pending, Err("list".to_string()), &mut lbs, &mut awaited, &key);
    match step {
        LoadBalancerSetup::Finished(r) => assert_eq!(r, Err("list".to_string())),
        _ => panic!("expected a finished set-up"),
    }
    assert_eq!(released, None);
    assert!(lbs.is_empty());
}

#[test]
fn awaited_container_is_started() {
    let mut lbs: KeyedMap<ServiceLoadBalancer<u32>> = KeyedMap::new();
    let mut awaited: KeyedMap<String> = KeyedMap::new();
    let key = "img".to_string();
    let mut lb = fresh();
    let mut global: KeyedMap<String> = KeyedMap::new();
    lb.queue_container(container(3, "c", 0xff, 30), &mut global);
    let (lb, pending) = match prepare_load_balancer(lb, &mut lbs, &key) {
        LoadBalancerSetup::Validate { lb, pending, .. } => (lb, pending),
        _ => panic!("expected validation"),
    };
    let (step, released) = settle_validation(lb, pending, Ok(vec![]), &mut lbs, &mut awaited, &key);
    assert_eq!(released, None);
    let uuid_key = "00000000-0000-0000-0000-0000000000ff".to_string();
    let (lb, awaited_key) = match step {
        LoadBalancerSetup::Start { lb, awaited_key, container_id } => {
            assert_eq!(container_id, "c");
            (lb, awaited_key)
        }
        _ => panic!("expected a start"),
    };
    assert_eq!(awaited_key, uuid_key);
    assert_eq!(awaited.get(&uuid_key), Some(&"img".to_string()));
    let failed = settle_start(lb, awaited_key, Err("no start".to_string()), &mut lbs, &mut awaited, &key);
    assert_eq!(failed, Err("no start".to_string()));
    assert!(awaited.is_empty());
    assert!(lbs.is_empty());
}

#[test]
fn started_container_registers_load_balancer() {
    let mut lbs: KeyedMap<ServiceLoadBalancer<u32>> = KeyedMap::new();
    let mut awaited: KeyedMap<String> = KeyedMap::new();
    let key = "img".to_string();
    awaited.insert("k".to_string(), "img".to_string());
    let r = settle_start(fresh(), "k".to_string(), Ok(()), &mut lbs, &mut awaited, &key);
    assert_eq!(r, Ok(("img".to_string(), false)));
    assert!(lbs.contains_key(&key));
    assert!(awaited.contains_key(&"k".to_string()));
}

#[test]
fn routes_and_images_from_rows() {
    assert_eq!(route_resolver(Ok(vec![])).map(|(a, b)| (a.is_none(), b.is_none())), Ok((true, true)));
    assert!(route_resolver(Err("e".to_string())).is_err());
    let rows = vec![
        RouteRow { r_id: 1, image_fk: 2, prefix: "/a".to_string(), exposed_port: "80".to_string(), segments: 1, https: true, docker_image_id: "img".to_string() },
        RouteRow { r_id: 9, image_fk: 9, prefix: "/b".to_string(), exposed_port: "81".to_string(), segments: 0, https: false, docker_image_id: "other".to_string() },
    ];
    let (route, image) = route_resolver(Ok(rows)).unwrap();
    let route = route.unwrap();
    let image = image.unwrap();
    assert_eq!((route.id, *route.image_fk, route.prefix.as_str(), route.exposed_port.as_str(), route.segments, route.https), (1, 2, "/a", "80", 1, true));
    assert_eq!((image.id, image.docker_image_id.as_str()), (2, "img"));
    assert!(get_image(Ok(vec![])).unwrap().is_none());
    assert_eq!(get_image(Err("x".to_string())).err(), Some("x".to_string()));
    let img = get_image(Ok(vec![ImageRow { id: 4, docker_image_id: "d".to_string() }])).unwrap().unwrap();
    assert_eq!((img.id, img.docker_image_id.as_str()), (4, "d"));
}

#[test]
fn stored_load_balancer_is_rebuilt_or_created() {
    let args = || ("img".to_string(), "80".to_string(), "/p".to_string());
    let (d, e, a) = args();
    match lookup_stored_load_balancer::<u32>(Err("db down".to_string()), 4, d, e, a, false) {
        LoadBalancerLookup::Done(r) => assert_eq!(r.err(), Some("db down".to_string())),
        LoadBalancerLookup::Insert(_) => panic!("expected the error"),
    }
    let (d, e, a) = args();
    match lookup_stored_load_balancer::<u32>(Ok(vec![row(5, 1, Some((3, "c")))]), 4, d, e, a, false) {
        LoadBalancerLookup::Done(Ok(lb)) => {
            assert_eq!((lb.id, lb.head, lb.containers.len()), (5, 1, 1));
            assert_eq!(lb.mode, ELoadBalancerMode::QUEUE);
        }
        _ => panic!("expected a rebuilt load balancer"),
    }
    let (d, e, a) = args();
    let insert = match lookup_stored_load_balancer::<u32>(Ok(vec![]), 4, d, e, a, true) {
        LoadBalancerLookup::Insert(insert) => insert,
        LoadBalancerLookup::Done(_) => panic!("expected an insert"),
    };
    assert_eq!(insert.sql, "INSERT INTO load_balancers (image_fk, head, behavior) VALUES ($1, $2, $3) RETURNING id");
    assert_eq!((insert.image_fk, insert.head, insert.behavior.as_str()), (4, 0, "round_robin"));
    let (d, e, a) = args();
    let lb: ServiceLoadBalancer<u32> = settle_load_balancer_insert(Ok(17), d, e, a, true).unwrap();
    assert_eq!((lb.id, lb.head), (17, 0));
    assert_eq!(lb.behavior, ELoadBalancerBehavior::RoundRobin);
    assert_eq!(lb.mode, ELoadBalancerMode::QUEUE);
    assert!(lb.containers.is_empty() && lb.request_queue.is_empty() && !lb.validated && lb.https);
    let (d, e, a) = args();
    let failed = settle_load_balancer_insert::<u32>(Err("duplicate".to_string()), d, e, a, true);
    assert_eq!(failed.err(), Some("duplicate".to_string()));
}

#[test]
fn setup_start_path_leaves_registers_agreeing() {
    let mut lbs: KeyedMap<ServiceLoadBalancer<u32>> = KeyedMap::new();
    let mut awaited: KeyedMap<String> = KeyedMap::new();
    let key = "img".to_string();
    let mut lb = fresh();
    let mut global: KeyedMap<String> = KeyedMap::new();
    lb.queue_container(container(3, "c", 0xab, 30), &mut global);
    let (lb, pending) = match prepare_load_balancer(lb, &mut lbs, &key) {
        LoadBalancerSetup::Validate { lb, pending, .. } => (lb, pending),
        _ => panic!("expected validation"),
    };
    let (step, _) = settle_validation(lb, pending, Ok(vec![]), &mut lbs, &mut awaited, &key);
    let (lb, awaited_key) = match step {
        LoadBalancerSetup::Start { lb, awaited_key, .. } => (lb, awaited_key),
        _ => panic!("expected a start"),
    };
    assert!(lbs.is_empty());
    let r = settle_start(lb, awaited_key.clone(), Ok(()), &mut lbs, &mut awaited, &key);
    assert_eq!(r, Ok(("img".to_string(), false)));
    let registered = lbs.get(&key).unwrap();
    assert_eq!(registered.awaited_containers.keys(), vec![awaited_key.clone()]);
    assert_eq!(awaited.keys(), vec![awaited_key.clone()]);
    assert_eq!(awaited.get(&awaited_key), Some(&registered.docker_image_id));
    assert!(registered.containers.is_empty());
}
