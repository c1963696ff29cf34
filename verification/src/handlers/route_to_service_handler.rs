use crate::controllers::load_balancer_controller::ELoadBalancerMode;
use crate::models::service_container_models::ServiceContainer;
use crate::models::service_image_models::ServiceImage;
use crate::models::service_load_balancer::{
    first_with_id, keyed_by_docker_id, lemma_keyed_by_docker_id_values,
    lemma_validation_partitions_containers, next_head, removes_container, report_matches,
    round_robin_defined, running_ids, ContainerSummary, ServiceLoadBalancer,
};
use crate::utils::keyed_map::values_at;
use crate::models::service_route_model::ServiceRoute;
use crate::utils::keyed_map::KeyedMap;
use crate::utils::uuid_text::uuid_text;
use vstd::prelude::*;

verus! {

/// How an intercepted request is answered once its route is resolved.
pub enum RouteDecision {
    /// No route matches: answer 404.
    NotFound,
    /// Answer 500 with this message.
    Failure(String),
    /// Serve the request with the containers of this route's image.
    Accept(ServiceRoute, ServiceImage),
}

/// Decides on a request from the resolution of its route: a resolution error is a
/// failure with its message, no route is "not found", a route without image is a
/// failure, and a route with its image is accepted.
pub fn decide_route(
    resolved: Result<(Option<ServiceRoute>, Option<ServiceImage>), String>,
) -> (r: RouteDecision)
    ensures
        resolved matches Err(e) ==> r == RouteDecision::Failure(e),
        resolved matches Ok((None, _)) ==> r == RouteDecision::NotFound,
        resolved matches Ok((Some(_), None)) ==> r matches RouteDecision::Failure(message)
            && message@ == "Orchestrator Error: System cannot find route-image pair"@,
        resolved matches Ok((Some(route), Some(image))) ==> r == RouteDecision::Accept(route, image),
{
    match resolved {
        Err(e) => RouteDecision::Failure(e),
        Ok((None, _)) => RouteDecision::NotFound,
        Ok((Some(_route), None)) => RouteDecision::Failure(
            "Orchestrator Error: System cannot find route-image pair".to_owned(),
        ),
        Ok((Some(route), Some(image))) => RouteDecision::Accept(route, image),
    }
}

/// Holds the request with the requests of its image's load balancer when that one is
/// still being set up; otherwise hands the request back to be dispatched.
pub fn admit_request<Q>(
    awaited_load_balancers: &mut KeyedMap<Vec<Q>>,
    docker_image_id: &String,
    item: Q,
) -> (r: Option<Q>)
    ensures
        old(awaited_load_balancers)@.dom().contains(docker_image_id@) ==> {
            &&& r is None
            &&& final(awaited_load_balancers)@ == old(awaited_load_balancers)@.insert(
                docker_image_id@,
                final(awaited_load_balancers)@[docker_image_id@],
            )
            &&& final(awaited_load_balancers)@[docker_image_id@]@ == old(
                awaited_load_balancers,
            )@[docker_image_id@]@.push(item)
        },
        !old(awaited_load_balancers)@.dom().contains(docker_image_id@) ==> {
            &&& r == Some(item)
            &&& final(awaited_load_balancers)@ == old(awaited_load_balancers)@
        },
{
    match awaited_load_balancers.remove(docker_image_id) {
        Some(mut queue) => {
            queue.push(item);
            awaited_load_balancers.insert(docker_image_id.clone(), queue);
            assert(old(awaited_load_balancers)@.remove(docker_image_id@).insert(
                docker_image_id@,
                final(awaited_load_balancers)@[docker_image_id@],
            ) =~= old(awaited_load_balancers)@.insert(
                docker_image_id@,
                final(awaited_load_balancers)@[docker_image_id@],
            ));
            None
        },
        None => {
            assert(old(awaited_load_balancers)@.remove(docker_image_id@) =~= old(
                awaited_load_balancers,
            )@);
            Some(item)
        },
    }
}

/// What is done with a request that its load balancer took.
pub enum Dispatch<Q> {
    /// Forward it to the container with row id `container_id` on `container_port`.
    Forward { item: Q, container_port: i32, container_id: i32, https: bool },
    /// Create and start a container for it, then call `settle_provision`.
    Provision { item: Q },
    /// It is held in the load balancer's queue.
    Queued,
}

/// Hands a request to its image's load balancer. A forwarding load balancer sends it
/// to the next container round robin, or, having none, has one provisioned. A
/// queueing load balancer has a container provisioned when it is new, and holds the
/// request otherwise.
pub fn dispatch_request<Q>(
    load_balancers: &mut KeyedMap<ServiceLoadBalancer<Q>>,
    docker_image_id: &String,
    new_lb: bool,
    item: Q,
) -> (r: Dispatch<Q>)
    requires
        old(load_balancers)@.dom().contains(docker_image_id@),
        old(load_balancers)@[docker_image_id@].mode == ELoadBalancerMode::FORWARD ==> round_robin_defined(
            old(load_balancers)@[docker_image_id@].head,
            old(load_balancers)@[docker_image_id@].containers@.len() as int,
        ),
    ensures
        ({
            let lb = old(load_balancers)@[docker_image_id@];
            let n = lb.containers@.len() as int;
            &&& lb.mode == ELoadBalancerMode::FORWARD && n > 0 ==> {
                let h = next_head(lb.head, n);
                &&& final(load_balancers)@ == old(load_balancers)@.insert(
                    docker_image_id@,
                    (ServiceLoadBalancer { head: h as i32, ..lb }),
                )
                &&& r == (Dispatch::Forward {
                    item,
                    container_port: lb.containers@[h].public_port,
                    container_id: lb.containers@[h].id,
                    https: lb.https,
                })
            }
            &&& lb.mode == ELoadBalancerMode::FORWARD && n == 0 ==> {
                &&& final(load_balancers)@ == old(load_balancers)@
                &&& r == (Dispatch::Provision { item })
            }
            &&& lb.mode == ELoadBalancerMode::QUEUE && new_lb ==> {
                &&& final(load_balancers)@ == old(load_balancers)@
                &&& r == (Dispatch::Provision { item })
            }
            &&& lb.mode == ELoadBalancerMode::QUEUE && !new_lb ==> {
                let held = final(load_balancers)@[docker_image_id@];
                &&& final(load_balancers)@ == old(load_balancers)@.insert(docker_image_id@, held)
                &&& held == (ServiceLoadBalancer { request_queue: held.request_queue, ..lb })
                &&& held.request_queue@ == lb.request_queue@.push(item)
                &&& r is Queued
            }
        }),
{
    let mut lb = load_balancers.remove(docker_image_id).unwrap();
    let ghost before = lb;
    let r = match lb.mode {
        ELoadBalancerMode::FORWARD => {
            match lb.next_container() {
                Some((container_port, container_id)) => Dispatch::Forward {
                    item,
                    container_port,
                    container_id,
                    https: lb.https,
                },
                None => Dispatch::Provision { item },
            }
        },
        ELoadBalancerMode::QUEUE => {
            if new_lb {
                Dispatch::Provision { item }
            } else {
                lb.queue_request(item);
                Dispatch::Queued
            }
        },
    };
    load_balancers.insert(docker_image_id.clone(), lb);
    proof {
        if lb == before {
            assert(old(load_balancers)@.remove(docker_image_id@).insert(docker_image_id@, lb)
                =~= old(load_balancers)@);
        } else {
            assert(old(load_balancers)@.remove(docker_image_id@).insert(docker_image_id@, lb)
                =~= old(load_balancers)@.insert(docker_image_id@, lb));
        }
    }
    r
}

/// `after` is `before` once a forward to the container with row id `container_id`
/// of the load balancer under `key` has gone as `success` says: a success changes
/// nothing; a failure takes that container out of that load balancer.
pub open spec fn forward_settled<Q>(
    before: Map<Seq<char>, ServiceLoadBalancer<Q>>,
    after: Map<Seq<char>, ServiceLoadBalancer<Q>>,
    key: Seq<char>,
    container_id: i32,
    success: bool,
) -> bool {
    &&& success ==> after == before
    &&& !success ==> {
        let lb = before[key];
        let a = after[key];
        &&& after == before.insert(key, a)
        &&& a == (ServiceLoadBalancer { containers: a.containers, ..lb })
        &&& removes_container(lb.containers@, a.containers@, container_id)
    }
}

/// After a forward: a container that could not be reached is taken out of its load
/// balancer; a successful forward changes nothing.
pub fn settle_forward<Q>(
    load_balancers: &mut KeyedMap<ServiceLoadBalancer<Q>>,
    docker_image_id: &String,
    container_id: i32,
    success: bool,
)
    requires
        old(load_balancers)@.dom().contains(docker_image_id@),
    ensures
        forward_settled(
            old(load_balancers)@,
            final(load_balancers)@,
            docker_image_id@,
            container_id,
            success,
        ),
{
    if !success {
        let mut lb = load_balancers.remove(docker_image_id).unwrap();
        let _removed = lb.remove_container(container_id);
        load_balancers.insert(docker_image_id.clone(), lb);
        assert(old(load_balancers)@.remove(docker_image_id@).insert(
            docker_image_id@,
            final(load_balancers)@[docker_image_id@],
        ) =~= old(load_balancers)@.insert(
            docker_image_id@,
            final(load_balancers)@[docker_image_id@],
        ));
    }
}

/// How provisioning a container for a request went.
pub enum ProvisionOutcome {
    /// The container could not be created: the error's text.
    CreateFailed(String),
    /// The container was created but could not be started: the error's text.
    StartFailed(String),
    /// The container was created and started.
    Started(ServiceContainer),
}

/// `after` is `before` once the started container `c` is awaited and `item` is
/// held: the load balancer queues.
pub open spec fn provisioned<Q>(
    before: ServiceLoadBalancer<Q>,
    after: ServiceLoadBalancer<Q>,
    c: ServiceContainer,
    item: Q,
) -> bool {
    &&& after == (ServiceLoadBalancer {
        mode: ELoadBalancerMode::QUEUE,
        request_queue: after.request_queue,
        awaited_containers: after.awaited_containers,
        ..before
    })
    &&& after.request_queue@ == before.request_queue@.push(item)
    &&& after.awaited_containers@ == before.awaited_containers@.insert(uuid_text(c.uuid), c)
}

/// After provisioning: a started container is awaited (see
/// `ServiceLoadBalancer::queue_container`) and the request is held until it is
/// ready, the load balancer queueing. On failure the request comes back with the
/// error's text, to be answered 500, and nothing changes.
pub fn settle_provision<Q>(
    load_balancers: &mut KeyedMap<ServiceLoadBalancer<Q>>,
    awaited_containers: &mut KeyedMap<String>,
    docker_image_id: &String,
    item: Q,
    outcome: ProvisionOutcome,
) -> (r: Option<(Q, String)>)
    requires
        old(load_balancers)@.dom().contains(docker_image_id@),
    ensures
        outcome matches ProvisionOutcome::CreateFailed(e) ==> {
            &&& r == Some((item, e))
            &&& final(load_balancers)@ == old(load_balancers)@
            &&& final(awaited_containers)@ == old(awaited_containers)@
        },
        outcome matches ProvisionOutcome::StartFailed(e) ==> {
            &&& r == Some((item, e))
            &&& final(load_balancers)@ == old(load_balancers)@
            &&& final(awaited_containers)@ == old(awaited_containers)@
        },
        outcome matches ProvisionOutcome::Started(c) ==> {
            let lb = old(load_balancers)@[docker_image_id@];
            let after = final(load_balancers)@[docker_image_id@];
            &&& r is None
            &&& final(load_balancers)@ == old(load_balancers)@.insert(docker_image_id@, after)
            &&& provisioned(lb, after, c, item)
            &&& final(awaited_containers)@ == old(awaited_containers)@.insert(
                uuid_text(c.uuid),
                lb.docker_image_id,
            )
        },
{
    match outcome {
        ProvisionOutcome::CreateFailed(e) => Some((item, e)),
        ProvisionOutcome::StartFailed(e) => Some((item, e)),
        ProvisionOutcome::Started(c) => {
            let mut lb = load_balancers.remove(docker_image_id).unwrap();
            lb.mode = ELoadBalancerMode::QUEUE;
            lb.queue_request(item);
            lb.queue_container(c, awaited_containers);
            load_balancers.insert(docker_image_id.clone(), lb);
            assert(old(load_balancers)@.remove(docker_image_id@).insert(
                docker_image_id@,
                final(load_balancers)@[docker_image_id@],
            ) =~= old(load_balancers)@.insert(
                docker_image_id@,
                final(load_balancers)@[docker_image_id@],
            ));
            None
        },
    }
}

/// The requests a load balancer held, handed out one at a time once a container is
/// ready: forwarded while forwarding works, rejected once a forward has failed.
pub struct QueueDrain<Q> {
    pending: Vec<Q>,
    dropping: bool,
}

/// One request of a drained queue and what to do with it.
pub enum DrainStep<Q> {
    /// Forward it to the ready container, then call `QueueDrain::record_forward`.
    Forward(Q),
    /// Answer it 503 without forwarding it.
    Reject(Q),
}

/// `r` is what a drain in state `before` hands out, leaving it in state `after`:
/// nothing when no request is left; otherwise its first request, to be forwarded
/// while no forward has failed and rejected after one has.
pub open spec fn hands_out<Q>(before: QueueDrain<Q>, after: QueueDrain<Q>, r: Option<DrainStep<Q>>) -> bool {
    &&& before.pending().len() == 0 ==> r is None && after == before
    &&& before.pending().len() > 0 ==> {
        &&& after.pending() == before.pending().drop_first()
        &&& after.dropping() == before.dropping()
        &&& r == Some(
            if before.dropping() {
                DrainStep::Reject(before.pending()[0])
            } else {
                DrainStep::Forward(before.pending()[0])
            },
        )
    }
}

/// Once a forward of a drained queue has failed, no later request of it is forwarded:
/// each one handed out is rejected, and the drain stays that way.
pub proof fn lemma_rejection_is_final<Q>(
    before: QueueDrain<Q>,
    after: QueueDrain<Q>,
    r: Option<DrainStep<Q>>,
)
    requires
        before.dropping(),
        hands_out(before, after, r),
    ensures
        after.dropping(),
        !(r matches Some(DrainStep::Forward(_))),
{
}

impl<Q> QueueDrain<Q> {
    /// The requests not yet handed out, in queue order.
    pub closed spec fn pending(self) -> Seq<Q> {
        self.pending@
    }

    /// Whether a forward has failed.
    pub closed spec fn dropping(self) -> bool {
        self.dropping
    }

    /// Hands out the next request: to be forwarded while no forward has failed, to be
    /// rejected after one has.
    pub fn next_step(&mut self) -> (r: Option<DrainStep<Q>>)
        ensures
            hands_out(*old(self), *final(self), r),
    {
        if self.pending.len() == 0 {
            return None;
        }
        let item = self.pending.remove(0);
        assert(self.pending@ =~= old(self).pending@.drop_first());
        if self.dropping {
            Some(DrainStep::Reject(item))
        } else {
            Some(DrainStep::Forward(item))
        }
    }

    /// Records how a forward went: a failed forward takes the container out of its
    /// load balancer (see `settle_forward`) and makes every later request rejected.
    pub fn record_forward(
        &mut self,
        load_balancers: &mut KeyedMap<ServiceLoadBalancer<Q>>,
        docker_image_id: &String,
        container_id: i32,
        success: bool,
    )
        requires
            old(load_balancers)@.dom().contains(docker_image_id@),
        ensures
            final(self).pending() == old(self).pending(),
            final(self).dropping() == (old(self).dropping() || !success),
            forward_settled(
                old(load_balancers)@,
                final(load_balancers)@,
                docker_image_id@,
                container_id,
                success,
            ),
    {
        settle_forward(load_balancers, docker_image_id, container_id, success);
        if !success {
            self.dropping = true;
        }
    }
}

/// A container that announced itself ready, as its load balancer took it.
pub struct ReadyContainer<Q> {
    pub container_id: i32,
    pub container_port: i32,
    pub https: bool,
    /// The requests the load balancer held, when it was queueing.
    pub drain: Option<QueueDrain<Q>>,
}

/// `after` is `before` once the awaited container under `key` takes requests: the
/// load balancer forwards, and a queueing one has handed over its queue.
pub open spec fn readied<Q>(before: ServiceLoadBalancer<Q>, after: ServiceLoadBalancer<Q>, key: Seq<char>) -> bool {
    &&& after == (ServiceLoadBalancer {
        mode: ELoadBalancerMode::FORWARD,
        containers: after.containers,
        awaited_containers: after.awaited_containers,
        request_queue: after.request_queue,
        ..before
    })
    &&& after.containers@ == before.containers@.push(before.awaited_containers@[key])
    &&& after.awaited_containers@ == before.awaited_containers@.remove(key)
    &&& before.mode == ELoadBalancerMode::QUEUE ==> after.request_queue@ == Seq::<Q>::empty()
    &&& before.mode == ELoadBalancerMode::FORWARD ==> after.request_queue@ == before.request_queue@
}

/// A container provisioned for a request and then announced ready under the text of
/// its UUID takes requests: it is the last container of its load balancer, it is no
/// longer awaited, and the load balancer forwards, having handed over the requests
/// it held, the provisioned one last.
pub proof fn lemma_provisioned_container_takes_requests<Q>(
    lb0: ServiceLoadBalancer<Q>,
    lb1: ServiceLoadBalancer<Q>,
    lb2: ServiceLoadBalancer<Q>,
    c: ServiceContainer,
    item: Q,
)
    requires
        provisioned(lb0, lb1, c, item),
        readied(lb1, lb2, uuid_text(c.uuid)),
    ensures
        lb2.containers@ == lb0.containers@.push(c),
        lb2.awaited_containers@ == lb0.awaited_containers@.remove(uuid_text(c.uuid)),
        lb2.mode == ELoadBalancerMode::FORWARD,
        lb2.request_queue@ == Seq::<Q>::empty(),
        lb1.request_queue@ == lb0.request_queue@.push(item),
{
    assert(lb0.awaited_containers@.insert(uuid_text(c.uuid), c).remove(uuid_text(c.uuid))
        =~= lb0.awaited_containers@.remove(uuid_text(c.uuid)));
}

/// The shared register of awaited containers and the load balancers agree: each load
/// balancer is registered under its own image; each container a load balancer
/// awaits is registered under its key as awaited for that image; and each registered
/// key names a load balancer that awaits a container under it.
pub open spec fn registers_agree<Q>(
    load_balancers: Map<Seq<char>, ServiceLoadBalancer<Q>>,
    awaited_containers: Map<Seq<char>, String>,
) -> bool {
    &&& forall|image: Seq<char>|
        #[trigger] load_balancers.dom().contains(image) ==> load_balancers[image].docker_image_id@ == image
    &&& forall|image: Seq<char>, k: Seq<char>|
        #![trigger load_balancers[image].awaited_containers@.dom().contains(k)]
        load_balancers.dom().contains(image) && load_balancers[image].awaited_containers@.dom().contains(k)
            ==> awaited_containers.dom().contains(k) && awaited_containers[k]@ == image
    &&& forall|k: Seq<char>|
        #[trigger] awaited_containers.dom().contains(k) ==> load_balancers.dom().contains(
            awaited_containers[k]@,
        ) && load_balancers[awaited_containers[k]@].awaited_containers@.dom().contains(k)
}

/// When the registers agree, a readiness announcement under a registered key finds
/// its load balancer, and that load balancer awaits the container: taking the
/// container in (`ready_container`) cannot fail.
pub proof fn lemma_agreeing_registers_find_ready_containers<Q>(
    load_balancers: Map<Seq<char>, ServiceLoadBalancer<Q>>,
    awaited_containers: Map<Seq<char>, String>,
    uuid: Seq<char>,
)
    requires
        registers_agree(load_balancers, awaited_containers),
        awaited_containers.dom().contains(uuid),
    ensures
        load_balancers.dom().contains(awaited_containers[uuid]@),
        load_balancers[awaited_containers[uuid]@].awaited_containers@.dom().contains(uuid),
{
}

/// Provisioning keeps the registers in agreement, provided the new container's UUID
/// text is not awaited already.
pub proof fn lemma_provisioning_keeps_registers_agreed<Q>(
    lbs0: Map<Seq<char>, ServiceLoadBalancer<Q>>,
    awaited0: Map<Seq<char>, String>,
    key: Seq<char>,
    after: ServiceLoadBalancer<Q>,
    c: ServiceContainer,
    item: Q,
)
    requires
        registers_agree(lbs0, awaited0),
        lbs0.dom().contains(key),
        !awaited0.dom().contains(uuid_text(c.uuid)),
        provisioned(lbs0[key], after, c, item),
    ensures
        registers_agree(
            lbs0.insert(key, after),
            awaited0.insert(uuid_text(c.uuid), lbs0[key].docker_image_id),
        ),
{
    let lbs1 = lbs0.insert(key, after);
    let aw1 = awaited0.insert(uuid_text(c.uuid), lbs0[key].docker_image_id);
    let u = uuid_text(c.uuid);
    assert forall|image: Seq<char>, k: Seq<char>|
        lbs1.dom().contains(image) && #[trigger] lbs1[image].awaited_containers@.dom().contains(k) implies aw1.dom().contains(k)
            && aw1[k]@ == image by {
        if image == key {
            if k != u {
                assert(lbs0[key].awaited_containers@.dom().contains(k));
            }
        } else {
            assert(lbs0[image].awaited_containers@.dom().contains(k));
        }
    }
    assert forall|k: Seq<char>| #[trigger] aw1.dom().contains(k) implies lbs1.dom().contains(aw1[k]@)
        && lbs1[aw1[k]@].awaited_containers@.dom().contains(k) by {
        if k != u {
            assert(awaited0.dom().contains(k));
        }
    }
}

/// Taking in a ready container, after withdrawing its key from the awaited register,
/// keeps the registers in agreement.
pub proof fn lemma_readiness_keeps_registers_agreed<Q>(
    lbs0: Map<Seq<char>, ServiceLoadBalancer<Q>>,
    awaited0: Map<Seq<char>, String>,
    uuid: Seq<char>,
    after: ServiceLoadBalancer<Q>,
)
    requires
        registers_agree(lbs0, awaited0),
        awaited0.dom().contains(uuid),
        readied(lbs0[awaited0[uuid]@], after, uuid),
    ensures
        registers_agree(lbs0.insert(awaited0[uuid]@, after), awaited0.remove(uuid)),
{
    let key = awaited0[uuid]@;
    let lbs1 = lbs0.insert(key, after);
    let aw1 = awaited0.remove(uuid);
    assert forall|image: Seq<char>, k: Seq<char>|
        lbs1.dom().contains(image) && #[trigger] lbs1[image].awaited_containers@.dom().contains(k) implies aw1.dom().contains(k)
            && aw1[k]@ == image by {
        if image == key {
            assert(lbs0[key].awaited_containers@.dom().contains(k));
        } else {
            assert(lbs0[image].awaited_containers@.dom().contains(k));
            assert(awaited0[k]@ == image);
        }
    }
    assert forall|k: Seq<char>| #[trigger] aw1.dom().contains(k) implies lbs1.dom().contains(aw1[k]@)
        && lbs1[aw1[k]@].awaited_containers@.dom().contains(k) by {
        assert(awaited0.dom().contains(k));
    }
}

/// Steps that leave every load balancer's image and awaited containers as they were
/// (dispatching, settling a forward) keep the registers in agreement.
pub proof fn lemma_forwarding_keeps_registers_agreed<Q>(
    lbs0: Map<Seq<char>, ServiceLoadBalancer<Q>>,
    awaited: Map<Seq<char>, String>,
    key: Seq<char>,
    after: ServiceLoadBalancer<Q>,
)
    requires
        registers_agree(lbs0, awaited),
        lbs0.dom().contains(key),
        after.docker_image_id == lbs0[key].docker_image_id,
        after.awaited_containers@ == lbs0[key].awaited_containers@,
    ensures
        registers_agree(lbs0.insert(key, after), awaited),
{
    let lbs1 = lbs0.insert(key, after);
    assert forall|image: Seq<char>, k: Seq<char>|
        lbs1.dom().contains(image) && #[trigger] lbs1[image].awaited_containers@.dom().contains(k) implies awaited.dom().contains(k)
            && awaited[k]@ == image by {
        assert(lbs0[image].awaited_containers@.dom().contains(k));
    }
}

/// No container of `lb` is both awaited and taking requests: each awaited container
/// is kept under the text of its own UUID, and no container that takes requests
/// has the UUID of an awaited one.
pub open spec fn awaited_apart_from_active<Q>(lb: ServiceLoadBalancer<Q>) -> bool {
    &&& forall|k: Seq<char>|
        #[trigger] lb.awaited_containers@.dom().contains(k) ==> k == uuid_text(
            lb.awaited_containers@[k].uuid,
        )
    &&& forall|k: Seq<char>, i: int|
        #![trigger lb.awaited_containers@[k], lb.containers@[i]]
        lb.awaited_containers@.dom().contains(k) && 0 <= i < lb.containers@.len()
            ==> lb.containers@[i].uuid != lb.awaited_containers@[k].uuid
}

/// Provisioning keeps every container of a load balancer either awaited or taking
/// requests, not both, provided the started container's UUID is not one of a
/// container that takes requests.
pub proof fn lemma_provisioning_keeps_awaited_apart<Q>(
    before: ServiceLoadBalancer<Q>,
    after: ServiceLoadBalancer<Q>,
    c: ServiceContainer,
    item: Q,
)
    requires
        awaited_apart_from_active(before),
        provisioned(before, after, c, item),
        forall|i: int| 0 <= i < before.containers@.len() ==> before.containers@[i].uuid != c.uuid,
    ensures
        awaited_apart_from_active(after),
{
    let u = uuid_text(c.uuid);
    assert forall|k: Seq<char>|
        #[trigger] after.awaited_containers@.dom().contains(k) implies k == uuid_text(
            after.awaited_containers@[k].uuid,
        ) by {
        if k != u {
            assert(before.awaited_containers@.dom().contains(k));
        }
    }
    assert forall|k: Seq<char>, i: int|
        after.awaited_containers@.dom().contains(k) && 0 <= i < after.containers@.len()
            implies #[trigger] after.containers@[i].uuid != #[trigger] after.awaited_containers@[k].uuid by {
        if k != u {
            assert(before.awaited_containers@.dom().contains(k));
            assert(before.containers@[i].uuid != before.awaited_containers@[k].uuid);
        }
    }
}

/// Taking in a ready container keeps every container of its load balancer either
/// awaited or taking requests, not both: the container leaves the awaited ones as it
/// joins those that take requests.
pub proof fn lemma_readiness_keeps_awaited_apart<Q>(
    before: ServiceLoadBalancer<Q>,
    after: ServiceLoadBalancer<Q>,
    key: Seq<char>,
)
    requires
        awaited_apart_from_active(before),
        before.awaited_containers@.dom().contains(key),
        readied(before, after, key),
    ensures
        awaited_apart_from_active(after),
{
    let c = before.awaited_containers@[key];
    assert(key == uuid_text(c.uuid));
    assert forall|k: Seq<char>|
        #[trigger] after.awaited_containers@.dom().contains(k) implies k == uuid_text(
            after.awaited_containers@[k].uuid,
        ) by {
        assert(before.awaited_containers@.dom().contains(k));
    }
    assert forall|k: Seq<char>, i: int|
        after.awaited_containers@.dom().contains(k) && 0 <= i < after.containers@.len()
            implies #[trigger] after.containers@[i].uuid != #[trigger] after.awaited_containers@[k].uuid by {
        assert(before.awaited_containers@.dom().contains(k));
        assert(k == uuid_text(before.awaited_containers@[k].uuid));
        if i < before.containers@.len() {
            assert(before.containers@[i].uuid != before.awaited_containers@[k].uuid);
        } else {
            assert(after.containers@[i] == c);
        }
    }
}

/// Taking a container that could not be reached out of a load balancer keeps every
/// container of it either awaited or taking requests, not both.
pub proof fn lemma_removal_keeps_awaited_apart<Q>(
    before: ServiceLoadBalancer<Q>,
    after: ServiceLoadBalancer<Q>,
    container_id: i32,
)
    requires
        awaited_apart_from_active(before),
        after == (ServiceLoadBalancer { containers: after.containers, ..before }),
        removes_container(before.containers@, after.containers@, container_id),
    ensures
        awaited_apart_from_active(after),
{
    if exists|i: int|
        first_with_id(before.containers@, container_id, i) && after.containers@
            == before.containers@.remove(i) {
        let r = choose|i: int|
            first_with_id(before.containers@, container_id, i) && after.containers@
                == before.containers@.remove(i);
        assert forall|k: Seq<char>, i: int|
            after.awaited_containers@.dom().contains(k) && 0 <= i < after.containers@.len()
                implies #[trigger] after.containers@[i].uuid != #[trigger] after.awaited_containers@[k].uuid by {
            if i < r {
                assert(after.containers@[i] == before.containers@[i]);
                assert(before.containers@[i].uuid != before.awaited_containers@[k].uuid);
            } else {
                assert(after.containers@[i] == before.containers@[i + 1]);
                assert(before.containers@[i + 1].uuid != before.awaited_containers@[k].uuid);
            }
        }
    }
}

/// Validating the containers keeps every container of a load balancer either awaited
/// or taking requests, not both: those that take requests afterwards are among
/// those that took requests before.
pub proof fn lemma_validation_keeps_awaited_apart<Q>(
    before: ServiceLoadBalancer<Q>,
    after: ServiceLoadBalancer<Q>,
    listed: Seq<ContainerSummary>,
)
    requires
        awaited_apart_from_active(before),
        report_matches(keyed_by_docker_id(before.containers@), listed),
        after == (ServiceLoadBalancer { containers: after.containers, ..before }),
        after.containers@ == values_at(running_ids(listed), keyed_by_docker_id(before.containers@)),
    ensures
        awaited_apart_from_active(after),
{
    let m = keyed_by_docker_id(before.containers@);
    lemma_validation_partitions_containers(m, listed);
    lemma_keyed_by_docker_id_values(before.containers@);
    assert forall|k: Seq<char>, i: int|
        after.awaited_containers@.dom().contains(k) && 0 <= i < after.containers@.len()
            implies #[trigger] after.containers@[i].uuid != #[trigger] after.awaited_containers@[k].uuid by {
        let id = running_ids(listed)[i];
        assert(m.dom().contains(id));
        assert(after.containers@[i] == m[id]);
        let j = choose|j: int| 0 <= j < before.containers@.len() && before.containers@[j] == m[id];
        assert(before.containers@[j].uuid != before.awaited_containers@[k].uuid);
    }
}

/// In every load balancer, no container is both awaited and taking requests.
pub open spec fn all_awaited_apart<Q>(load_balancers: Map<Seq<char>, ServiceLoadBalancer<Q>>) -> bool {
    forall|image: Seq<char>|
        #[trigger] load_balancers.dom().contains(image) ==> awaited_apart_from_active(
            load_balancers[image],
        )
}

/// Taking in a container announced ready under a registered key keeps both the
/// agreement of the registers and, in every load balancer, no container both
/// awaited and taking requests.
pub proof fn lemma_readiness_keeps_registers_sound<Q>(
    lbs0: Map<Seq<char>, ServiceLoadBalancer<Q>>,
    awaited0: Map<Seq<char>, String>,
    uuid: Seq<char>,
    after: ServiceLoadBalancer<Q>,
)
    requires
        registers_agree(lbs0, awaited0),
        all_awaited_apart(lbs0),
        awaited0.dom().contains(uuid),
        readied(lbs0[awaited0[uuid]@], after, uuid),
    ensures
        registers_agree(lbs0.insert(awaited0[uuid]@, after), awaited0.remove(uuid)),
        all_awaited_apart(lbs0.insert(awaited0[uuid]@, after)),
{
    let key = awaited0[uuid]@;
    lemma_agreeing_registers_find_ready_containers(lbs0, awaited0, uuid);
    lemma_readiness_keeps_registers_agreed(lbs0, awaited0, uuid, after);
    lemma_readiness_keeps_awaited_apart(lbs0[key], after, uuid);
    let lbs1 = lbs0.insert(key, after);
    assert forall|image: Seq<char>| #[trigger] lbs1.dom().contains(image) implies awaited_apart_from_active(
        lbs1[image],
    ) by {
        if image != key {
            assert(lbs0.dom().contains(image));
        }
    }
}

/// Provisioning a container with a UUID that is neither awaited nor that of a
/// container taking requests keeps both the agreement of the registers and, in every
/// load balancer, no container both awaited and taking requests.
pub proof fn lemma_provisioning_keeps_registers_sound<Q>(
    lbs0: Map<Seq<char>, ServiceLoadBalancer<Q>>,
    awaited0: Map<Seq<char>, String>,
    key: Seq<char>,
    after: ServiceLoadBalancer<Q>,
    c: ServiceContainer,
    item: Q,
)
    requires
        registers_agree(lbs0, awaited0),
        all_awaited_apart(lbs0),
        lbs0.dom().contains(key),
        !awaited0.dom().contains(uuid_text(c.uuid)),
        forall|i: int| 0 <= i < lbs0[key].containers@.len() ==> lbs0[key].containers@[i].uuid != c.uuid,
        provisioned(lbs0[key], after, c, item),
    ensures
        registers_agree(
            lbs0.insert(key, after),
            awaited0.insert(uuid_text(c.uuid), lbs0[key].docker_image_id),
        ),
        all_awaited_apart(lbs0.insert(key, after)),
{
    lemma_provisioning_keeps_registers_agreed(lbs0, awaited0, key, after, c, item);
    lemma_provisioning_keeps_awaited_apart(lbs0[key], after, c, item);
    let lbs1 = lbs0.insert(key, after);
    assert forall|image: Seq<char>| #[trigger] lbs1.dom().contains(image) implies awaited_apart_from_active(
        lbs1[image],
    ) by {
        if image != key {
            assert(lbs0.dom().contains(image));
        }
    }
}

/// A forward as `settle_forward` or `QueueDrain::record_forward` settles it keeps
/// both the agreement of the registers and, in every load balancer, no container
/// both awaited and taking requests.
pub proof fn lemma_forward_keeps_registers_sound<Q>(
    before: Map<Seq<char>, ServiceLoadBalancer<Q>>,
    awaited: Map<Seq<char>, String>,
    after: Map<Seq<char>, ServiceLoadBalancer<Q>>,
    key: Seq<char>,
    container_id: i32,
    success: bool,
)
    requires
        registers_agree(before, awaited),
        all_awaited_apart(before),
        before.dom().contains(key),
        forward_settled(before, after, key, container_id, success),
    ensures
        registers_agree(after, awaited),
        all_awaited_apart(after),
        after.dom().contains(key),
{
    if !success {
        let a = after[key];
        lemma_forwarding_keeps_registers_agreed(before, awaited, key, a);
        lemma_removal_keeps_awaited_apart(before[key], a, container_id);
        assert forall|image: Seq<char>| #[trigger] after.dom().contains(image) implies awaited_apart_from_active(
            after[image],
        ) by {
            if image != key {
                assert(before.dom().contains(image));
            }
        }
    }
}

/// `states` are the load balancers before the first and after each forward of a
/// drained queue to the load balancer under `key`; `outcomes` gives, for each
/// forward, the container's row id and whether the forward went through.
pub open spec fn forwards_settled<Q>(
    states: Seq<Map<Seq<char>, ServiceLoadBalancer<Q>>>,
    key: Seq<char>,
    outcomes: Seq<(i32, bool)>,
) -> bool {
    &&& states.len() == outcomes.len() + 1
    &&& forall|i: int|
        #![trigger outcomes[i]]
        0 <= i < outcomes.len() ==> forward_settled(
            states[i],
            states[i + 1],
            key,
            outcomes[i].0,
            outcomes[i].1,
        )
}

proof fn lemma_forwards_keep_registers_sound<Q>(
    states: Seq<Map<Seq<char>, ServiceLoadBalancer<Q>>>,
    awaited: Map<Seq<char>, String>,
    key: Seq<char>,
    outcomes: Seq<(i32, bool)>,
    n: int,
)
    requires
        forwards_settled(states, key, outcomes),
        0 <= n < states.len(),
        registers_agree(states[0], awaited),
        all_awaited_apart(states[0]),
        states[0].dom().contains(key),
    ensures
        registers_agree(states[n], awaited),
        all_awaited_apart(states[n]),
        states[n].dom().contains(key),
    decreases n,
{
    if n > 0 {
        let i = n - 1;
        lemma_forwards_keep_registers_sound(states, awaited, key, outcomes, i);
        let step = outcomes[i];
        lemma_forward_keeps_registers_sound(states[i], awaited, states[n], key, step.0, step.1);
    }
}

/// A whole readiness announcement keeps the registers sound: once the announced
/// container is withdrawn from the awaited register and taken in by its load
/// balancer (`ready_container`), and after any number of forwards of the drained
/// queue, each going through or failing (`QueueDrain::record_forward`), the
/// registers still agree and no container of any load balancer is both awaited and
/// taking requests.
pub proof fn lemma_readiness_announcement_keeps_registers_sound<Q>(
    lbs0: Map<Seq<char>, ServiceLoadBalancer<Q>>,
    awaited0: Map<Seq<char>, String>,
    uuid: Seq<char>,
    states: Seq<Map<Seq<char>, ServiceLoadBalancer<Q>>>,
    outcomes: Seq<(i32, bool)>,
)
    requires
        registers_agree(lbs0, awaited0),
        all_awaited_apart(lbs0),
        awaited0.dom().contains(uuid),
        forwards_settled(states, awaited0[uuid]@, outcomes),
        states[0] == lbs0.insert(awaited0[uuid]@, states[0][awaited0[uuid]@]),
        readied(lbs0[awaited0[uuid]@], states[0][awaited0[uuid]@], uuid),
    ensures
        registers_agree(states.last(), awaited0.remove(uuid)),
        all_awaited_apart(states.last()),
{
    let key = awaited0[uuid]@;
    lemma_readiness_keeps_registers_sound(lbs0, awaited0, uuid, states[0][key]);
    lemma_forwards_keep_registers_sound(
        states,
        awaited0.remove(uuid),
        key,
        outcomes,
        states.len() - 1,
    );
}

/// Takes in a container that announced itself ready under the text `uuid`: it moves
/// from the awaited containers of its load balancer to those that take requests. A
/// queueing load balancer starts forwarding and hands over the requests it held.
pub fn ready_container<Q>(
    load_balancers: &mut KeyedMap<ServiceLoadBalancer<Q>>,
    docker_image_id: &String,
    uuid: &String,
) -> (r: ReadyContainer<Q>)
    requires
        old(load_balancers)@.dom().contains(docker_image_id@),
        old(load_balancers)@[docker_image_id@].awaited_containers@.dom().contains(uuid@),
    ensures
        ({
            let lb = old(load_balancers)@[docker_image_id@];
            let c = lb.awaited_containers@[uuid@];
            let after = final(load_balancers)@[docker_image_id@];
            &&& final(load_balancers)@ == old(load_balancers)@.insert(docker_image_id@, after)
            &&& readied(lb, after, uuid@)
            &&& r.container_id == c.id
            &&& r.container_port == c.public_port
            &&& r.https == lb.https
            &&& lb.mode == ELoadBalancerMode::QUEUE ==> {
                &&& r.drain matches Some(d)
                &&& d.pending() == lb.request_queue@
                &&& !d.dropping()
            }
            &&& lb.mode == ELoadBalancerMode::FORWARD ==> r.drain is None
        }),
{
    let mut lb = load_balancers.remove(docker_image_id).unwrap();
    let container = lb.awaited_containers.remove(uuid).unwrap();
    let container_ref = lb.add_container(container);
    let container_id = container_ref.id;
    let container_port = container_ref.public_port;
    let drain = match lb.mode {
        ELoadBalancerMode::QUEUE => {
            lb.mode = ELoadBalancerMode::FORWARD;
            let pending = lb.empty_queue();
            Some(QueueDrain { pending, dropping: false })
        },
        ELoadBalancerMode::FORWARD => None,
    };
    let https = lb.https;
    load_balancers.insert(docker_image_id.clone(), lb);
    assert(old(load_balancers)@.remove(docker_image_id@).insert(
        docker_image_id@,
        final(load_balancers)@[docker_image_id@],
    ) =~= old(load_balancers)@.insert(docker_image_id@, final(load_balancers)@[docker_image_id@]));
    ReadyContainer { container_id, container_port, https, drain }
}

} // verus!
