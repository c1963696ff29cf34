use crate::models::service_container_models::ServiceContainer;
use crate::models::service_image_models::ServiceImage;
use crate::models::service_load_balancer::{
    keyed_by_docker_id, new_load_balancer_sql, new_load_balancer_text, prunes_stale, report_matches,
    running_ids, stale_containers, ContainerSummary, PendingValidation, ServiceLoadBalancer,
    StaleContainers,
};
use crate::handlers::route_to_service_handler::{all_awaited_apart, awaited_apart_from_active, registers_agree};
use crate::utils::keyed_map::{lists_keys_of, values_at, KeyedMap};
use crate::utils::uuid_text::{uuid_text, uuid_to_string};
use vstd::prelude::*;

verus! {

/// How a load balancer picks the container for a request.
#[derive(Debug, Clone, Copy, PartialEq, Eq, Structural)]
pub enum ELoadBalancerBehavior {
    RoundRobin,
}

impl ELoadBalancerBehavior {
    /// The name a behavior is stored under.
    pub open spec fn name(self) -> Seq<char> {
        match self {
            ELoadBalancerBehavior::RoundRobin => "round_robin"@,
        }
    }

    /// The name a behavior is stored under, as a `String`.
    pub fn to_string(&self) -> (r: String)
        ensures
            r@ == self.name(),
    {
        match self {
            ELoadBalancerBehavior::RoundRobin => "round_robin".to_owned(),
        }
    }
}

/// Whether a load balancer forwards requests to its containers or holds them
/// until a container is ready.
#[allow(non_camel_case_types)]
#[derive(Debug, Clone, Copy, PartialEq, Eq, Structural)]
pub enum ELoadBalancerMode {
    FORWARD,
    QUEUE,
}

impl ELoadBalancerMode {
    /// The name of a mode.
    pub open spec fn name(self) -> Seq<char> {
        match self {
            ELoadBalancerMode::FORWARD => "forward"@,
            ELoadBalancerMode::QUEUE => "queue"@,
        }
    }

    /// The name of a mode, as a `String`.
    pub fn to_string(&self) -> (r: String)
        ensures
            r@ == self.name(),
    {
        match self {
            ELoadBalancerMode::FORWARD => "forward".to_owned(),
            ELoadBalancerMode::QUEUE => "queue".to_owned(),
        }
    }
}

/// The container part of a row of the load balancer query; absent when the load
/// balancer has no container on that row.
pub struct LoadBalancerContainerRow {
    pub c_id: i32,
    pub docker_container_id: String,
    pub cippj_fk: i32,
    pub port: i32,
    pub uuid: u128,
}

/// A row of the query for an image's load balancer and its containers.
pub struct LoadBalancerRow {
    pub lb_id: i32,
    pub lb_head: i32,
    pub container: Option<LoadBalancerContainerRow>,
}

/// The container that a row describes.
pub open spec fn row_container(c: LoadBalancerContainerRow) -> ServiceContainer {
    ServiceContainer {
        id: c.c_id,
        container_id: c.docker_container_id,
        public_port: c.port,
        uuid: c.uuid,
        cippj_fk: c.cippj_fk,
    }
}

/// The containers that the rows describe, in row order.
pub open spec fn row_containers(rows: Seq<LoadBalancerRow>) -> Seq<ServiceContainer> {
    rows.filter(|r: LoadBalancerRow| r.container is Some).map_values(
        |r: LoadBalancerRow| row_container(r.container.unwrap()),
    )
}

proof fn lemma_row_containers_push(rows: Seq<LoadBalancerRow>, i: int)
    requires
        0 <= i < rows.len(),
    ensures
        row_containers(rows.take(i + 1)) == if rows[i].container is Some {
            row_containers(rows.take(i)).push(row_container(rows[i].container.unwrap()))
        } else {
            row_containers(rows.take(i))
        },
{
    let pred = |r: LoadBalancerRow| r.container is Some;
    let f = |r: LoadBalancerRow| row_container(r.container.unwrap());
    assert(rows.take(i + 1) =~= rows.take(i).push(rows[i]));
    rows.take(i).lemma_filter_push(rows[i], pred);
    if rows[i].container is Some {
        assert(rows.take(i).filter(pred).push(rows[i]).map_values(f) =~= rows.take(i).filter(
            pred,
        ).map_values(f).push(f(rows[i])));
    }
}

/// `lb` is the load balancer that the stored `rows` describe (there is at least
/// one): id and head from the first row, the containers of every row that has one,
/// in row order; round robin, holding requests, not yet validated, nothing awaited
/// or held.
pub open spec fn rebuilt_from_rows<Q>(
    lb: ServiceLoadBalancer<Q>,
    rows: Seq<LoadBalancerRow>,
    docker_image_id: String,
    exposed_port: String,
    address: String,
    https: bool,
) -> bool {
    &&& lb.id == rows[0].lb_id
    &&& lb.head == rows[0].lb_head
    &&& lb.docker_image_id == docker_image_id
    &&& lb.exposed_port == exposed_port
    &&& lb.address == address
    &&& lb.behavior == ELoadBalancerBehavior::RoundRobin
    &&& lb.mode == ELoadBalancerMode::QUEUE
    &&& lb.containers@ == row_containers(rows)
    &&& lb.awaited_containers@ == Map::<Seq<char>, ServiceContainer>::empty()
    &&& !lb.validated
    &&& lb.request_queue@ == Seq::<Q>::empty()
    &&& lb.https == https
}

/// A rebuilt load balancer keeps what it was given: its image, exposed port, address
/// and protocol are the arguments, its id and head those of the first row.
pub proof fn lemma_rebuilt_keeps_arguments<Q>(
    lb: ServiceLoadBalancer<Q>,
    rows: Seq<LoadBalancerRow>,
    docker_image_id: String,
    exposed_port: String,
    address: String,
    https: bool,
)
    requires
        rebuilt_from_rows(lb, rows, docker_image_id, exposed_port, address, https),
    ensures
        lb.docker_image_id == docker_image_id,
        lb.exposed_port == exposed_port,
        lb.address == address,
        lb.https == https,
        lb.id == rows[0].lb_id,
        lb.head == rows[0].lb_head,
{
}

/// Rebuilds an image's load balancer from its stored rows: id and head come from
/// the first row, the containers from every row that has one, in row order. The
/// load balancer starts round robin, holding requests, not yet validated. With no
/// rows there is nothing to rebuild.
pub fn load_balancer_from_rows<Q>(
    rows: Vec<LoadBalancerRow>,
    docker_image_id: String,
    exposed_port: String,
    address: String,
    https: bool,
) -> (r: Option<ServiceLoadBalancer<Q>>)
    ensures
        r is None <==> rows@.len() == 0,
        r matches Some(lb) ==> rebuilt_from_rows(lb, rows@, docker_image_id, exposed_port, address, https),
        r matches Some(lb) ==> lb.exposed_port == exposed_port && lb.address == address
            && lb.docker_image_id == docker_image_id,
{
    if rows.len() == 0 {
        return None;
    }
    let id = rows[0].lb_id;
    let head = rows[0].lb_head;
    let ghost all = rows@;
    let count = rows.len();
    let mut rest = rows;
    let mut containers: Vec<ServiceContainer> = Vec::new();
    let mut taken: usize = 0;
    while rest.len() > 0
        invariant
            rest@ == all.skip(taken as int),
            taken + rest@.len() == all.len(),
            all.len() == count,
            containers@ == row_containers(all.take(taken as int)),
        decreases rest@.len(),
    {
        proof { lemma_row_containers_push(all, taken as int); }
        let row = rest.remove(0);
        assert(row == all[taken as int]);
        match row.container {
            Some(c) => {
                containers.push(
                    ServiceContainer {
                        id: c.c_id,
                        container_id: c.docker_container_id,
                        public_port: c.port,
                        uuid: c.uuid,
                        cippj_fk: c.cippj_fk,
                    },
                );
            },
            None => {},
        }
        taken = taken + 1;
        assert(rest@ =~= all.skip(taken as int));
    }
    assert(all.take(taken as int) =~= all);
    Some(
        ServiceLoadBalancer {
            id,
            docker_image_id,
            exposed_port,
            address,
            head,
            behavior: ELoadBalancerBehavior::RoundRobin,
            mode: ELoadBalancerMode::QUEUE,
            containers,
            awaited_containers: KeyedMap::new(),
            validated: false,
            request_queue: Vec::new(),
            https,
        },
    )
}

/// `lb` is a load balancer freshly stored under the row `id`: round robin from
/// position 0, holding requests, with no containers, not yet validated.
pub open spec fn fresh_load_balancer<Q>(
    lb: ServiceLoadBalancer<Q>,
    id: i32,
    docker_image_id: String,
    exposed_port: String,
    address: String,
    https: bool,
) -> bool {
    &&& lb.id == id
    &&& lb.docker_image_id == docker_image_id
    &&& lb.exposed_port == exposed_port
    &&& lb.address == address
    &&& lb.head == 0
    &&& lb.behavior == ELoadBalancerBehavior::RoundRobin
    &&& lb.mode == ELoadBalancerMode::QUEUE
    &&& lb.containers@ == Seq::<ServiceContainer>::empty()
    &&& lb.awaited_containers@ == Map::<Seq<char>, ServiceContainer>::empty()
    &&& !lb.validated
    &&& lb.request_queue@ == Seq::<Q>::empty()
    &&& lb.https == https
}

/// A fresh load balancer keeps what it was given: its row id, image, exposed port,
/// address and protocol are the arguments, and its head is 0.
pub proof fn lemma_fresh_keeps_arguments<Q>(
    lb: ServiceLoadBalancer<Q>,
    id: i32,
    docker_image_id: String,
    exposed_port: String,
    address: String,
    https: bool,
)
    requires
        fresh_load_balancer(lb, id, docker_image_id, exposed_port, address, https),
    ensures
        lb.id == id,
        lb.docker_image_id == docker_image_id,
        lb.exposed_port == exposed_port,
        lb.address == address,
        lb.https == https,
        lb.head == 0,
{
}

/// The statement that stores a new load balancer, with its arguments: the image's
/// row id, head 0 and the round-robin behavior's name.
pub struct LoadBalancerInsert {
    pub sql: String,
    pub image_fk: i32,
    pub head: i32,
    pub behavior: String,
}

/// Where reading an image's load balancer from the database leaves it.
pub enum LoadBalancerLookup<Q> {
    /// The load balancer was rebuilt from its rows, or the query failed.
    Done(Result<ServiceLoadBalancer<Q>, String>),
    /// The image has no load balancer yet: run this insert, then call
    /// `settle_load_balancer_insert` with the new row's id.
    Insert(LoadBalancerInsert),
}

/// Given the result of the query for the load balancer of the image with row id
/// `image_fk` (or its error text): rows rebuild the load balancer; no rows call for
/// a new one to be stored; an error is passed on.
pub fn lookup_stored_load_balancer<Q>(
    queried: Result<Vec<LoadBalancerRow>, String>,
    image_fk: i32,
    docker_image_id: String,
    exposed_port: String,
    address: String,
    https: bool,
) -> (r: LoadBalancerLookup<Q>)
    ensures
        queried matches Err(e) ==> r == LoadBalancerLookup::<Q>::Done(Err(e)),
        queried matches Ok(rows) ==> rows@.len() > 0 ==> {
            &&& r matches LoadBalancerLookup::Done(Ok(lb))
            &&& rebuilt_from_rows(lb, rows@, docker_image_id, exposed_port, address, https)
            &&& lb.exposed_port == exposed_port
            &&& lb.address == address
        },
        queried matches Ok(rows) ==> rows@.len() == 0 ==> {
            &&& r matches LoadBalancerLookup::Insert(insert)
            &&& insert.sql@ == new_load_balancer_text()
            &&& insert.image_fk == image_fk
            &&& insert.head == 0
            &&& insert.behavior@ == ELoadBalancerBehavior::RoundRobin.name()
        },
{
    match queried {
        Err(e) => LoadBalancerLookup::Done(Err(e)),
        Ok(rows) => {
            match load_balancer_from_rows(rows, docker_image_id, exposed_port, address, https) {
                Some(lb) => LoadBalancerLookup::Done(Ok(lb)),
                None => LoadBalancerLookup::Insert(
                    LoadBalancerInsert {
                        sql: new_load_balancer_sql(),
                        image_fk,
                        head: 0,
                        behavior: ELoadBalancerBehavior::RoundRobin.to_string(),
                    },
                ),
            }
        },
    }
}

/// Given the id of the row that the insert of `lookup_stored_load_balancer` stored
/// (or the insert's error text): the fresh load balancer of that row, or the error.
pub fn settle_load_balancer_insert<Q>(
    inserted: Result<i32, String>,
    docker_image_id: String,
    exposed_port: String,
    address: String,
    https: bool,
) -> (r: Result<ServiceLoadBalancer<Q>, String>)
    ensures
        inserted matches Err(e) ==> r == Err::<ServiceLoadBalancer<Q>, String>(e),
        inserted matches Ok(id) ==> {
            &&& r matches Ok(lb)
            &&& fresh_load_balancer(lb, id, docker_image_id, exposed_port, address, https)
            &&& lb.exposed_port == exposed_port
            &&& lb.address == address
            &&& lb.docker_image_id == docker_image_id
        },
{
    match inserted {
        Err(e) => Err(e),
        Ok(id) => Ok(ServiceLoadBalancer::new(id, docker_image_id, exposed_port, address, https)),
    }
}

/// The orchestrator's shared registers: the load balancers by image, the requests
/// held for load balancers still being set up, and the image of each container
/// awaited by the text of its UUID.
pub struct LoadBalancerRegistry<Q> {
    pub load_balancers: KeyedMap<ServiceLoadBalancer<Q>>,
    pub awaited_load_balancers: KeyedMap<Vec<Q>>,
    pub awaited_containers: KeyedMap<String>,
}

/// Empty registers.
pub fn init<Q>() -> (r: LoadBalancerRegistry<Q>)
    ensures
        r.load_balancers@ == Map::<Seq<char>, ServiceLoadBalancer<Q>>::empty(),
        r.awaited_load_balancers@ == Map::<Seq<char>, Vec<Q>>::empty(),
        r.awaited_containers@ == Map::<Seq<char>, String>::empty(),
{
    LoadBalancerRegistry {
        load_balancers: KeyedMap::new(),
        awaited_load_balancers: KeyedMap::new(),
        awaited_containers: KeyedMap::new(),
    }
}

/// What the set-up of an image's load balancer does next.
pub enum LoadBalancerSetup<Q> {
    /// The set-up is over: the image's key and whether the load balancer is new, or an error.
    Finished(Result<(String, bool), String>),
    /// Ask docker which of `container_ids` run, then call `settle_validation`.
    Validate { lb: ServiceLoadBalancer<Q>, pending: PendingValidation, container_ids: Vec<String> },
    /// Start the docker container `container_id`, then call `settle_start`.
    Start { lb: ServiceLoadBalancer<Q>, awaited_key: String, container_id: String },
}

/// First step of the set-up: a load balancer already registered for the image is
/// used as it is (not new).
pub fn lookup_load_balancer<Q>(
    load_balancers: &KeyedMap<ServiceLoadBalancer<Q>>,
    service_image: &ServiceImage,
) -> (r: Option<(String, bool)>)
    ensures
        r is Some <==> load_balancers@.dom().contains(service_image.docker_image_id@),
        r matches Some((key, new_lb)) ==> key == service_image.docker_image_id && !new_lb,
        r matches Some((key, _)) ==> load_balancers@.dom().contains(key@),
{
    if load_balancers.contains_key(&service_image.docker_image_id) {
        Some((service_image.docker_image_id.clone(), false))
    } else {
        None
    }
}

/// Second step: marks the image's load balancer as being set up, with no request
/// held for it yet.
pub fn mark_load_balancer_awaited<Q>(
    awaited_load_balancers: &mut KeyedMap<Vec<Q>>,
    docker_image_id: &String,
)
    ensures
        final(awaited_load_balancers)@ == old(awaited_load_balancers)@.insert(
            docker_image_id@,
            final(awaited_load_balancers)@[docker_image_id@],
        ),
        final(awaited_load_balancers)@[docker_image_id@]@ == Seq::<Q>::empty(),
{
    awaited_load_balancers.insert(docker_image_id.clone(), Vec::new());
}

/// Third step, given the load balancer read or created for the image: the requests
/// held for it while it was set up become its queue, and the image is no longer
/// marked. An error is passed on and changes nothing.
pub fn adopt_load_balancer<Q>(
    queried: Result<ServiceLoadBalancer<Q>, String>,
    awaited_load_balancers: &mut KeyedMap<Vec<Q>>,
    docker_image_id: &String,
) -> (r: Result<ServiceLoadBalancer<Q>, String>)
    ensures
        queried matches Err(e) ==> r == Err::<ServiceLoadBalancer<Q>, String>(e)
            && final(awaited_load_balancers)@ == old(awaited_load_balancers)@,
        queried matches Ok(lb) ==> {
            &&& final(awaited_load_balancers)@ == old(awaited_load_balancers)@.remove(docker_image_id@)
            &&& r matches Ok(adopted)
            &&& adopted == (ServiceLoadBalancer { request_queue: adopted.request_queue, ..lb })
            &&& adopted.request_queue@ == if old(awaited_load_balancers)@.dom().contains(
                docker_image_id@,
            ) {
                old(awaited_load_balancers)@[docker_image_id@]@
            } else {
                lb.request_queue@
            }
        },
{
    match queried {
        Err(e) => Err(e),
        Ok(mut lb) => {
            match awaited_load_balancers.remove(docker_image_id) {
                Some(queue) => {
                    lb.request_queue = queue;
                },
                None => {},
            }
            Ok(lb)
        },
    }
}

/// A load balancer with neither containers nor awaited containers is new.
pub open spec fn is_new_load_balancer<Q>(lb: ServiceLoadBalancer<Q>) -> bool {
    lb.containers@.len() == 0 && lb.awaited_containers@ == Map::<Seq<char>, ServiceContainer>::empty()
}

/// Fourth step: a new load balancer is registered as it is and reported new;
/// otherwise its containers are handed to docker for validation.
pub fn prepare_load_balancer<Q>(
    lb: ServiceLoadBalancer<Q>,
    load_balancers: &mut KeyedMap<ServiceLoadBalancer<Q>>,
    docker_image_id: &String,
) -> (r: LoadBalancerSetup<Q>)
    ensures
        is_new_load_balancer(lb) ==> {
            &&& final(load_balancers)@ == old(load_balancers)@.insert(docker_image_id@, lb)
            &&& r == LoadBalancerSetup::<Q>::Finished(Ok((*docker_image_id, true)))
        },
        r matches LoadBalancerSetup::Finished(Ok((key, _))) ==> final(load_balancers)@.dom().contains(key@),
        !is_new_load_balancer(lb) ==> {
            &&& final(load_balancers)@ == old(load_balancers)@
            &&& r matches LoadBalancerSetup::Validate { lb: taken, pending, container_ids }
            &&& taken == (ServiceLoadBalancer { containers: taken.containers, ..lb })
            &&& taken.containers@ == Seq::<ServiceContainer>::empty()
            &&& pending.by_docker_id@ == keyed_by_docker_id(lb.containers@)
            &&& lists_keys_of(container_ids@.map_values(|k: String| k@), pending.by_docker_id@)
        },
{
    if lb.containers.len() == 0 && lb.awaited_containers.is_empty() {
        load_balancers.insert(docker_image_id.clone(), lb);
        LoadBalancerSetup::Finished(Ok((docker_image_id.clone(), true)))
    } else {
        let mut lb = lb;
        let (pending, container_ids) = lb.begin_validation();
        LoadBalancerSetup::Validate { lb, pending, container_ids }
    }
}

/// Fifth step, given docker's report on the containers (or the listing's error).
/// With running containers left the load balancer forwards and is registered, not
/// new. Else, with an awaited container, that container is registered as awaited
/// for the image and must be started. Else it forwards and is registered as new.
/// The stale containers come back to be pruned (row ids and port reservations). A listing
/// error ends the set-up with that error.
pub fn settle_validation<Q>(
    lb: ServiceLoadBalancer<Q>,
    pending: PendingValidation,
    listed: Result<Vec<ContainerSummary>, String>,
    load_balancers: &mut KeyedMap<ServiceLoadBalancer<Q>>,
    awaited_containers: &mut KeyedMap<String>,
    docker_image_id: &String,
) -> (r: (LoadBalancerSetup<Q>, Option<StaleContainers>))
    requires
        listed matches Ok(l) ==> report_matches(pending.by_docker_id@, l@),
    ensures
        r.0 matches LoadBalancerSetup::Finished(Ok((key, _))) ==> final(load_balancers)@.dom().contains(key@),
        listed matches Err(e) ==> {
            &&& r.0 == LoadBalancerSetup::<Q>::Finished(Err(e))
            &&& r.1 is None
            &&& final(load_balancers)@ == old(load_balancers)@
            &&& final(awaited_containers)@ == old(awaited_containers)@
        },
        listed matches Ok(l) ==> {
            let m = pending.by_docker_id@;
            let stale = stale_containers(m, l@);
            let kept = lb.containers@ + values_at(running_ids(l@), m);
            &&& (r.1 is None <==> stale == Map::<Seq<char>, ServiceContainer>::empty())
            &&& (r.1 matches Some(v) ==> prunes_stale(stale, v))
            &&& kept.len() > 0 ==> {
                let registered = final(load_balancers)@[docker_image_id@];
                &&& r.0 == LoadBalancerSetup::<Q>::Finished(Ok((*docker_image_id, false)))
                &&& final(load_balancers)@ == old(load_balancers)@.insert(docker_image_id@, registered)
                &&& registered == (ServiceLoadBalancer {
                    containers: registered.containers,
                    mode: ELoadBalancerMode::FORWARD,
                    ..lb
                })
                &&& registered.containers@ == kept
                &&& final(awaited_containers)@ == old(awaited_containers)@
            }
            &&& kept.len() == 0 && lb.awaited_containers@ != Map::<Seq<char>, ServiceContainer>::empty() ==> {
                &&& final(load_balancers)@ == old(load_balancers)@
                &&& r.0 matches LoadBalancerSetup::Start { lb: held, awaited_key, container_id }
                &&& held == (ServiceLoadBalancer { containers: held.containers, ..lb })
                &&& held.containers@ == kept
                &&& exists|k: Seq<char>| {
                    let c = #[trigger] lb.awaited_containers@[k];
                    &&& lb.awaited_containers@.dom().contains(k)
                    &&& awaited_key@ == uuid_text(c.uuid)
                    &&& container_id == c.container_id
                }
                &&& final(awaited_containers)@ == old(awaited_containers)@.insert(
                    awaited_key@,
                    lb.docker_image_id,
                )
            }
            &&& kept.len() == 0 && lb.awaited_containers@ == Map::<Seq<char>, ServiceContainer>::empty() ==> {
                let registered = final(load_balancers)@[docker_image_id@];
                &&& r.0 == LoadBalancerSetup::<Q>::Finished(Ok((*docker_image_id, true)))
                &&& final(load_balancers)@ == old(load_balancers)@.insert(docker_image_id@, registered)
                &&& registered == (ServiceLoadBalancer {
                    containers: registered.containers,
                    mode: ELoadBalancerMode::FORWARD,
                    ..lb
                })
                &&& registered.containers@ == kept
                &&& final(awaited_containers)@ == old(awaited_containers)@
            }
        },
{
    let mut lb = lb;
    let released = match lb.finish_validation(pending, listed) {
        Err(e) => return (LoadBalancerSetup::Finished(Err(e)), None),
        Ok(released) => released,
    };
    if lb.containers.len() > 0 {
        lb.mode = ELoadBalancerMode::FORWARD;
        load_balancers.insert(docker_image_id.clone(), lb);
        (LoadBalancerSetup::Finished(Ok((docker_image_id.clone(), false))), released)
    } else if !lb.awaited_containers.is_empty() {
        let (awaited_key, container_id) = match lb.awaited_containers.any_entry() {
            Some((_k, c)) => {
                let awaited_key = uuid_to_string(c.uuid);
                (awaited_key, c.container_id.clone())
            },
            None => {
                assert(false);
                (String::new(), String::new())
            },
        };
        awaited_containers.insert(awaited_key.clone(), lb.docker_image_id.clone());
        (LoadBalancerSetup::Start { lb, awaited_key, container_id }, released)
    } else {
        lb.mode = ELoadBalancerMode::FORWARD;
        load_balancers.insert(docker_image_id.clone(), lb);
        (LoadBalancerSetup::Finished(Ok((docker_image_id.clone(), true))), released)
    }
}

/// Last step, given the outcome of starting the awaited container: once started the
/// load balancer is registered and reported not new; a failure to start withdraws
/// the container from the awaited register and ends the set-up with the error.
pub fn settle_start<Q>(
    lb: ServiceLoadBalancer<Q>,
    awaited_key: String,
    started: Result<(), String>,
    load_balancers: &mut KeyedMap<ServiceLoadBalancer<Q>>,
    awaited_containers: &mut KeyedMap<String>,
    docker_image_id: &String,
) -> (r: Result<(String, bool), String>)
    ensures
        r matches Ok((key, _)) ==> final(load_balancers)@.dom().contains(key@),
        started is Ok ==> {
            &&& r == Ok::<(String, bool), String>((*docker_image_id, false))
            &&& final(load_balancers)@ == old(load_balancers)@.insert(docker_image_id@, lb)
            &&& final(awaited_containers)@ == old(awaited_containers)@
        },
        started matches Err(e) ==> {
            &&& r == Err::<(String, bool), String>(e)
            &&& final(load_balancers)@ == old(load_balancers)@
            &&& final(awaited_containers)@ == old(awaited_containers)@.remove(awaited_key@)
        },
{
    match started {
        Ok(()) => {
            load_balancers.insert(docker_image_id.clone(), lb);
            Ok((docker_image_id.clone(), false))
        },
        Err(e) => {
            awaited_containers.remove(&awaited_key);
            Err(e)
        },
    }
}

/// A start that fails undoes what registering the awaited container did: when the
/// container's key was not awaited before the set-up, the awaited register ends as
/// it was (`settle_validation` inserts the key, `settle_start` removes it).
pub proof fn lemma_failed_start_restores_awaited_register(
    awaited_before: Map<Seq<char>, String>,
    awaited_key: Seq<char>,
    docker_image_id: String,
)
    requires
        !awaited_before.dom().contains(awaited_key),
    ensures
        awaited_before.insert(awaited_key, docker_image_id).remove(awaited_key) == awaited_before,
{
    assert(awaited_before.insert(awaited_key, docker_image_id).remove(awaited_key) =~= awaited_before);
}

/// A set-up that finishes without starting a container registers its load balancer
/// under its own image, where none was, with no container awaited
/// (`prepare_load_balancer`, `settle_validation`): that keeps the registers sound.
pub proof fn lemma_setup_registration_keeps_registers_sound<Q>(
    lbs0: Map<Seq<char>, ServiceLoadBalancer<Q>>,
    awaited: Map<Seq<char>, String>,
    image: Seq<char>,
    lb: ServiceLoadBalancer<Q>,
)
    requires
        registers_agree(lbs0, awaited),
        all_awaited_apart(lbs0),
        !lbs0.dom().contains(image),
        lb.docker_image_id@ == image,
        lb.awaited_containers@ == Map::<Seq<char>, ServiceContainer>::empty(),
    ensures
        registers_agree(lbs0.insert(image, lb), awaited),
        all_awaited_apart(lbs0.insert(image, lb)),
{
    let lbs1 = lbs0.insert(image, lb);
    assert forall|img: Seq<char>, k: Seq<char>|
        lbs1.dom().contains(img) && #[trigger] lbs1[img].awaited_containers@.dom().contains(k)
            implies awaited.dom().contains(k) && awaited[k]@ == img by {
        assert(img != image);
        assert(lbs0[img].awaited_containers@.dom().contains(k));
    }
    assert forall|k: Seq<char>| #[trigger] awaited.dom().contains(k) implies lbs1.dom().contains(
        awaited[k]@,
    ) && lbs1[awaited[k]@].awaited_containers@.dom().contains(k) by {
        assert(lbs0.dom().contains(awaited[k]@));
    }
    assert forall|img: Seq<char>| #[trigger] lbs1.dom().contains(img) implies awaited_apart_from_active(
        lbs1[img],
    ) by {
        if img != image {
            assert(lbs0.dom().contains(img));
        }
    }
}

/// The set-up that starts an awaited container: `settle_validation` registers the
/// container's key as awaited for the image before `settle_start` registers the load
/// balancer. For a load balancer that awaits one container, kept under the text of
/// its UUID and not yet registered, and takes no requests: once started, the
/// registers are sound again; a failed start leaves the awaited register as it was.
pub proof fn lemma_setup_start_keeps_registers_sound<Q>(
    lbs0: Map<Seq<char>, ServiceLoadBalancer<Q>>,
    awaited0: Map<Seq<char>, String>,
    image: Seq<char>,
    held: ServiceLoadBalancer<Q>,
    awaited_key: Seq<char>,
)
    requires
        registers_agree(lbs0, awaited0),
        all_awaited_apart(lbs0),
        !lbs0.dom().contains(image),
        held.docker_image_id@ == image,
        held.containers@.len() == 0,
        awaited_apart_from_active(held),
        forall|k1: Seq<char>, k2: Seq<char>|
            held.awaited_containers@.dom().contains(k1) && held.awaited_containers@.dom().contains(k2)
                ==> k1 == k2,
        exists|k: Seq<char>|
            held.awaited_containers@.dom().contains(k) && awaited_key == uuid_text(
                #[trigger] held.awaited_containers@[k].uuid,
            ),
        !awaited0.dom().contains(awaited_key),
    ensures
        registers_agree(
            lbs0.insert(image, held),
            awaited0.insert(awaited_key, held.docker_image_id),
        ),
        all_awaited_apart(lbs0.insert(image, held)),
        awaited0.insert(awaited_key, held.docker_image_id).remove(awaited_key) == awaited0,
{
    let lbs1 = lbs0.insert(image, held);
    let aw1 = awaited0.insert(awaited_key, held.docker_image_id);
    let k0 = choose|k: Seq<char>|
        held.awaited_containers@.dom().contains(k) && awaited_key == uuid_text(
            #[trigger] held.awaited_containers@[k].uuid,
        );
    assert(k0 == awaited_key);
    assert forall|img: Seq<char>, k: Seq<char>|
        lbs1.dom().contains(img) && #[trigger] lbs1[img].awaited_containers@.dom().contains(k)
            implies aw1.dom().contains(k) && aw1[k]@ == img by {
        if img == image {
            assert(k == k0);
        } else {
            assert(lbs0[img].awaited_containers@.dom().contains(k));
            assert(awaited0.dom().contains(k));
        }
    }
    assert forall|k: Seq<char>| #[trigger] aw1.dom().contains(k) implies lbs1.dom().contains(aw1[k]@)
        && lbs1[aw1[k]@].awaited_containers@.dom().contains(k) by {
        if k != awaited_key {
            assert(awaited0.dom().contains(k));
            assert(lbs0.dom().contains(awaited0[k]@));
        }
    }
    assert forall|img: Seq<char>| #[trigger] lbs1.dom().contains(img) implies awaited_apart_from_active(
        lbs1[img],
    ) by {
        if img != image {
            assert(lbs0.dom().contains(img));
        }
    }
    assert(aw1.remove(awaited_key) =~= awaited0);
}

} // verus!
