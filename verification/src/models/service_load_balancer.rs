use crate::controllers::load_balancer_controller::{ELoadBalancerBehavior, ELoadBalancerMode};
use crate::models::service_container_models::ServiceContainer;
use crate::utils::docker_utils::{container_state_name, container_state_text, ContainerState};
use crate::utils::keyed_map::{lists_keys_of, values_at, KeyedMap};
use crate::utils::uuid_text::{uuid_text, uuid_to_string};
use vstd::arithmetic::div_mod::{
    lemma_add_mod_noop, lemma_add_mod_noop_right, lemma_mod_equivalence, lemma_small_mod,
};
use vstd::prelude::*;

verus! {

/// The load balancer of one docker image. `Q` is what a queued request is
/// held as until a container can take it.
#[derive(Debug)]
pub struct ServiceLoadBalancer<Q> {
    /// Row id in the load balancers table.
    pub id: i32,
    pub docker_image_id: String,
    pub exposed_port: String,
    pub address: String,
    /// Position of the container that took the last request.
    pub head: i32,
    pub behavior: ELoadBalancerBehavior,
    pub mode: ELoadBalancerMode,
    /// Containers that take requests.
    pub containers: Vec<ServiceContainer>,
    /// Containers started but not yet ready, keyed by the text of their UUID.
    pub awaited_containers: KeyedMap<ServiceContainer>,
    pub validated: bool,
    /// Requests held until a container is ready.
    pub request_queue: Vec<Q>,
    /// Whether the image's service is reached over HTTPS.
    pub https: bool,
}

/// Docker's report on one container: its id and its state.
pub struct ContainerSummary {
    pub id: Option<String>,
    pub state: String,
}

/// The containers of a load balancer while docker is asked which of them still run,
/// keyed by their docker id.
pub struct PendingValidation {
    pub by_docker_id: KeyedMap<ServiceContainer>,
}

/// Advancing the round-robin head over `len` containers neither overflows nor
/// lands on a negative position.
pub open spec fn round_robin_defined(head: i32, len: int) -> bool {
    len > 0 ==> {
        &&& len <= i32::MAX
        &&& head < i32::MAX
        &&& (head + 1 >= 0 || (head + 1) % len == 0)
    }
}

/// The round-robin head can always advance from a position that is not negative
/// and not the largest `i32`, over any number of containers an `i32` can count,
/// whether or not the head lies past the end of the container list.
pub proof fn lemma_round_robin_defined_from_nonnegative_head(head: i32, len: int)
    requires
        0 <= head < i32::MAX,
        0 < len <= i32::MAX,
    ensures
        round_robin_defined(head, len),
        0 <= next_head(head, len) < len,
{
}

/// The head after one round-robin step over `len` containers.
pub open spec fn next_head(head: i32, len: int) -> int {
    (head + 1) % len
}

/// The position the round robin picks at its `i`-th step (from 1) over `len`
/// containers, starting from `head`.
pub open spec fn round_robin_pick(head: i32, len: int, i: nat) -> int
    decreases i,
{
    if i <= 1 {
        next_head(head, len)
    } else {
        next_head(round_robin_pick(head, len, (i - 1) as nat) as i32, len)
    }
}

/// One of the first `len` round-robin picks from `head` is position `j`.
pub open spec fn round_robin_reaches(head: i32, len: int, j: int) -> bool {
    exists|i: nat| 1 <= i <= len && #[trigger] round_robin_pick(head, len, i) == j
}

proof fn lemma_round_robin_pick_closed(head: i32, len: int, i: nat)
    requires
        0 < len <= i32::MAX,
        round_robin_defined(head, len),
        1 <= i,
    ensures
        round_robin_pick(head, len, i) == (head + i) % len,
        0 <= round_robin_pick(head, len, i) < len,
    decreases i,
{
    if i > 1 {
        lemma_round_robin_pick_closed(head, len, (i - 1) as nat);
        let prev = round_robin_pick(head, len, (i - 1) as nat);
        assert(prev as i32 as int == prev);
        lemma_add_mod_noop(head + i - 1, 1, len);
        if len == 1 {
            assert((prev + 1) % len == 0);
            assert((head + i) % len == 0);
        } else {
            lemma_small_mod(1, len as nat);
        }
    }
}

/// Round robin visits every container: the first `len` picks from a head that can
/// advance are `len` different positions among the `len` containers, so each
/// container is picked exactly once in any `len` consecutive requests; and after
/// each pick the head can advance again.
pub proof fn lemma_round_robin_visits_every_container(head: i32, len: int)
    requires
        0 < len <= i32::MAX,
        round_robin_defined(head, len),
    ensures
        forall|i: nat| 1 <= i <= len ==> 0 <= #[trigger] round_robin_pick(head, len, i) < len,
        forall|i: nat|
            1 <= i ==> round_robin_defined(#[trigger] round_robin_pick(head, len, i) as i32, len),
        forall|i1: nat, i2: nat|
            1 <= i1 < i2 <= len ==> #[trigger] round_robin_pick(head, len, i1)
                != #[trigger] round_robin_pick(head, len, i2),
        forall|j: int| 0 <= j < len ==> #[trigger] round_robin_reaches(head, len, j),
{
    assert forall|i: nat| 1 <= i <= len implies 0 <= #[trigger] round_robin_pick(head, len, i) < len by {
        lemma_round_robin_pick_closed(head, len, i);
    }
    assert forall|i: nat| 1 <= i implies round_robin_defined(
        #[trigger] round_robin_pick(head, len, i) as i32,
        len,
    ) by {
        lemma_round_robin_pick_closed(head, len, i);
    }
    assert forall|i1: nat, i2: nat| 1 <= i1 < i2 <= len implies #[trigger] round_robin_pick(head, len, i1)
        != #[trigger] round_robin_pick(head, len, i2) by {
        lemma_round_robin_pick_closed(head, len, i1);
        lemma_round_robin_pick_closed(head, len, i2);
        lemma_mod_equivalence(head + i2, head + i1, len);
        let d: int = i2 - i1;
        assert((head + i2) - (head + i1) == d);
        lemma_small_mod(d as nat, len as nat);
    }
    assert forall|j: int| 0 <= j < len implies #[trigger] round_robin_reaches(head, len, j) by {
        let i: nat = ((j - head - 1) % len + 1) as nat;
        lemma_round_robin_pick_closed(head, len, i);
        lemma_add_mod_noop_right(head + 1, j - head - 1, len);
        lemma_small_mod(j as nat, len as nat);
        assert(round_robin_pick(head, len, i) == j);
    }
}

/// `i` is the first position of `s` whose container has row id `id`.
pub open spec fn first_with_id(s: Seq<ServiceContainer>, id: i32, i: int) -> bool {
    &&& 0 <= i < s.len()
    &&& s[i].id == id
    &&& forall|j: int| 0 <= j < i ==> s[j].id != id
}

/// `after` is `before` less its first container with row id `id`, or `before`
/// itself when no container has that id.
pub open spec fn removes_container(before: Seq<ServiceContainer>, after: Seq<ServiceContainer>, id: i32) -> bool {
    ||| exists|i: int| first_with_id(before, id, i) && after == before.remove(i)
    ||| (forall|j: int| 0 <= j < before.len() ==> before[j].id != id) && after == before
}

/// The containers of `s` keyed by docker id; where two share an id the later one wins.
pub open spec fn keyed_by_docker_id(s: Seq<ServiceContainer>) -> Map<Seq<char>, ServiceContainer>
    decreases s.len(),
{
    if s.len() == 0 {
        Map::empty()
    } else {
        keyed_by_docker_id(s.drop_last()).insert(s.last().container_id@, s.last())
    }
}

/// Docker reports the container as running.
pub open spec fn is_running(s: ContainerSummary) -> bool {
    s.state@ == container_state_text(ContainerState::Running)
}

/// The docker ids of the running containers in a report, in report order.
pub open spec fn running_ids(listed: Seq<ContainerSummary>) -> Seq<Seq<char>> {
    listed.filter(|s: ContainerSummary| is_running(s)).map_values(
        |s: ContainerSummary| s.id.unwrap()@,
    )
}

/// Every running container in the report has an id among the keys of `m`, and no
/// two running containers share an id.
pub open spec fn report_matches(m: Map<Seq<char>, ServiceContainer>, listed: Seq<ContainerSummary>) -> bool {
    &&& forall|i: int|
        0 <= i < listed.len() && #[trigger] is_running(listed[i]) ==> listed[i].id is Some
            && m.dom().contains(listed[i].id.unwrap()@)
    &&& forall|i: int, j: int|
        0 <= i < listed.len() && 0 <= j < listed.len() && i != j && #[trigger] is_running(listed[i])
            && #[trigger] is_running(listed[j]) ==> listed[i].id.unwrap()@ != listed[j].id.unwrap()@
}

/// A report in which no container runs fits any containers taken for validation:
/// only the running entries of a report are checked against them.
pub proof fn lemma_report_without_running_matches(
    m: Map<Seq<char>, ServiceContainer>,
    listed: Seq<ContainerSummary>,
)
    requires
        forall|i: int| 0 <= i < listed.len() ==> !is_running(#[trigger] listed[i]),
    ensures
        report_matches(m, listed),
{
}

/// Whether a report fits depends on its running entries alone: adding an entry that
/// does not run to a report changes nothing.
pub proof fn lemma_report_matches_ignores_stopped_entries(
    m: Map<Seq<char>, ServiceContainer>,
    listed: Seq<ContainerSummary>,
    extra: ContainerSummary,
)
    requires
        !is_running(extra),
    ensures
        report_matches(m, listed.push(extra)) == report_matches(m, listed),
{
    let longer = listed.push(extra);
    if report_matches(m, listed) {
        assert forall|i: int, j: int|
            0 <= i < longer.len() && 0 <= j < longer.len() && i != j && #[trigger] is_running(longer[i])
                && #[trigger] is_running(longer[j]) implies longer[i].id.unwrap()@ != longer[j].id.unwrap()@ by {
            assert(longer[i] == listed[i]);
            assert(longer[j] == listed[j]);
        }
        assert forall|i: int| 0 <= i < longer.len() && #[trigger] is_running(longer[i]) implies longer[i].id is Some
            && m.dom().contains(longer[i].id.unwrap()@) by {
            assert(longer[i] == listed[i]);
        }
    }
    if report_matches(m, longer) {
        assert forall|i: int, j: int|
            0 <= i < listed.len() && 0 <= j < listed.len() && i != j && #[trigger] is_running(listed[i])
                && #[trigger] is_running(listed[j]) implies listed[i].id.unwrap()@ != listed[j].id.unwrap()@ by {
            assert(longer[i] == listed[i]);
            assert(longer[j] == listed[j]);
            assert(is_running(longer[i]) && is_running(longer[j]));
        }
        assert forall|i: int| 0 <= i < listed.len() && #[trigger] is_running(listed[i]) implies listed[i].id is Some
            && m.dom().contains(listed[i].id.unwrap()@) by {
            assert(longer[i] == listed[i]);
            assert(is_running(longer[i]));
        }
    }
}

/// `m` without the keys that `ks` lists.
pub open spec fn without_keys(
    m: Map<Seq<char>, ServiceContainer>,
    ks: Seq<Seq<char>>,
) -> Map<Seq<char>, ServiceContainer> {
    Map::new(|k: Seq<char>| m.dom().contains(k) && !ks.contains(k), |k: Seq<char>| m[k])
}

/// The containers of `m` that the report does not show running.
pub open spec fn stale_containers(
    m: Map<Seq<char>, ServiceContainer>,
    listed: Seq<ContainerSummary>,
) -> Map<Seq<char>, ServiceContainer> {
    without_keys(m, running_ids(listed))
}

/// The row ids of the containers that `ks` lists from `m`, in the order of `ks`.
pub open spec fn row_ids_at(ks: Seq<Seq<char>>, m: Map<Seq<char>, ServiceContainer>) -> Seq<i32> {
    values_at(ks, m).map_values(|c: ServiceContainer| c.id)
}

/// The stale containers of a validation, to be pruned: their row ids (to remove from
/// the containers table and from the table that ties them to load balancers) and
/// their port reservations (to release), entry by entry for the same containers.
#[derive(Debug, Clone, PartialEq, Eq)]
pub struct StaleContainers {
    pub container_ids: Vec<i32>,
    pub reservations: Vec<i32>,
}

/// `s` gives, in the order `ks` lists them, the row ids and port reservations of the
/// containers of `stale`, each once.
pub open spec fn describes_stale(
    ks: Seq<Seq<char>>,
    stale: Map<Seq<char>, ServiceContainer>,
    s: StaleContainers,
) -> bool {
    &&& lists_keys_of(ks, stale)
    &&& s.container_ids@ == row_ids_at(ks, stale)
    &&& s.reservations@ == reservations_at(ks, stale)
}

/// `s` gives the row ids and port reservations of the containers of `stale`, each
/// once, in some order.
pub open spec fn prunes_stale(stale: Map<Seq<char>, ServiceContainer>, s: StaleContainers) -> bool {
    exists|ks: Seq<Seq<char>>| #[trigger] describes_stale(ks, stale, s)
}

/// The port reservations of the containers that `ks` lists from `m`, in the order of `ks`.
pub open spec fn reservations_at(ks: Seq<Seq<char>>, m: Map<Seq<char>, ServiceContainer>) -> Seq<i32> {
    values_at(ks, m).map_values(|c: ServiceContainer| c.cippj_fk)
}

proof fn lemma_running_ids_prefix(m: Map<Seq<char>, ServiceContainer>, listed: Seq<ContainerSummary>, n: int)
    requires
        report_matches(m, listed),
        0 <= n <= listed.len(),
    ensures
        running_ids(listed.take(n)).no_duplicates(),
        forall|a: int|
            #![trigger running_ids(listed.take(n))[a]]
            0 <= a < running_ids(listed.take(n)).len() ==> exists|j: int|
                0 <= j < n && #[trigger] is_running(listed[j]) && listed[j].id.unwrap()@ == running_ids(
                    listed.take(n),
                )[a],
    decreases n,
{
    let pred = |s: ContainerSummary| is_running(s);
    if n == 0 {
        listed.take(0).lemma_filter_len(pred);
    } else {
        lemma_running_ids_prefix(m, listed, n - 1);
        lemma_running_ids_push(listed, n - 1);
        let prev = running_ids(listed.take(n - 1));
        let cur = running_ids(listed.take(n));
        if is_running(listed[n - 1]) {
            assert forall|a: int| #![trigger prev[a]] 0 <= a < prev.len() implies prev[a] != listed[n - 1].id.unwrap()@ by {
                let j = choose|j: int|
                    0 <= j < n - 1 && #[trigger] is_running(listed[j]) && listed[j].id.unwrap()@ == prev[a];
                assert(is_running(listed[n - 1]));
            }
        }
        assert forall|a: int| #![trigger cur[a]] 0 <= a < cur.len() implies exists|j: int|
            0 <= j < n && #[trigger] is_running(listed[j]) && listed[j].id.unwrap()@ == cur[a] by {
            if a < prev.len() {
                assert(cur[a] == prev[a]);
                let j = choose|j: int|
                    0 <= j < n - 1 && #[trigger] is_running(listed[j]) && listed[j].id.unwrap()@ == prev[a];
                assert(0 <= j < n && is_running(listed[j]) && listed[j].id.unwrap()@ == cur[a]);
            } else {
                assert(is_running(listed[n - 1]) && listed[n - 1].id.unwrap()@ == cur[a]);
            }
        }
    }
}

/// Each container that `keyed_by_docker_id` keeps is one of the containers it was
/// given.
pub proof fn lemma_keyed_by_docker_id_values(s: Seq<ServiceContainer>)
    ensures
        forall|k: Seq<char>|
            #[trigger] keyed_by_docker_id(s).dom().contains(k) ==> exists|j: int|
                0 <= j < s.len() && s[j] == keyed_by_docker_id(s)[k],
    decreases s.len(),
{
    if s.len() > 0 {
        let init = s.drop_last();
        lemma_keyed_by_docker_id_values(init);
        assert forall|k: Seq<char>| #[trigger] keyed_by_docker_id(s).dom().contains(k) implies exists|j: int|
            0 <= j < s.len() && s[j] == keyed_by_docker_id(s)[k] by {
            if k == s.last().container_id@ {
                assert(s[s.len() - 1] == keyed_by_docker_id(s)[k]);
            } else {
                assert(keyed_by_docker_id(init).dom().contains(k));
                let j = choose|j: int| 0 <= j < init.len() && init[j] == keyed_by_docker_id(init)[k];
                assert(s[j] == init[j]);
            }
        }
    }
}

/// Validation splits the containers it took: each one either takes requests again,
/// docker showing it running, or is stale and has its reservation released, never
/// both; each is taken again at most once, and stale ones are the containers taken.
pub proof fn lemma_validation_partitions_containers(
    m: Map<Seq<char>, ServiceContainer>,
    listed: Seq<ContainerSummary>,
)
    requires
        report_matches(m, listed),
    ensures
        running_ids(listed).no_duplicates(),
        forall|a: int| 0 <= a < running_ids(listed).len() ==> m.dom().contains(#[trigger] running_ids(listed)[a]),
        forall|k: Seq<char>|
            #[trigger] m.dom().contains(k) ==> (running_ids(listed).contains(k) <==> !stale_containers(
                m,
                listed,
            ).dom().contains(k)),
        forall|k: Seq<char>|
            #[trigger] stale_containers(m, listed).dom().contains(k) ==> m.dom().contains(k)
                && stale_containers(m, listed)[k] == m[k],
{
    lemma_running_ids_prefix(m, listed, listed.len() as int);
    assert(listed.take(listed.len() as int) =~= listed);
    assert forall|a: int| 0 <= a < running_ids(listed).len() implies m.dom().contains(
        #[trigger] running_ids(listed)[a],
    ) by {
        let j = choose|j: int|
            0 <= j < listed.len() && #[trigger] is_running(listed[j]) && listed[j].id.unwrap()@
                == running_ids(listed.take(listed.len() as int))[a];
    }
}

proof fn lemma_running_ids_push(listed: Seq<ContainerSummary>, i: int)
    requires
        0 <= i < listed.len(),
    ensures
        running_ids(listed.take(i + 1)) == if is_running(listed[i]) {
            running_ids(listed.take(i)).push(listed[i].id.unwrap()@)
        } else {
            running_ids(listed.take(i))
        },
{
    let pred = |s: ContainerSummary| is_running(s);
    let f = |s: ContainerSummary| s.id.unwrap()@;
    assert(listed.take(i + 1) =~= listed.take(i).push(listed[i]));
    listed.take(i).lemma_filter_push(listed[i], pred);
    if is_running(listed[i]) {
        assert(listed.take(i).filter(pred).push(listed[i]).map_values(f) =~= listed.take(i).filter(
            pred,
        ).map_values(f).push(f(listed[i])));
    }
}

/// The text of the statement that stores a new load balancer and gives back its row id.
pub open spec fn new_load_balancer_text() -> Seq<char> {
    "INSERT INTO load_balancers (image_fk, head, behavior) VALUES ($1, $2, $3) RETURNING id"@
}

/// The statement that stores a new load balancer and gives back its row id.
pub fn new_load_balancer_sql() -> (sql: String)
    ensures
        sql@ == new_load_balancer_text(),
{
    "INSERT INTO load_balancers (image_fk, head, behavior) VALUES ($1, $2, $3) RETURNING id".to_owned()
}

impl PendingValidation {
    /// Whether docker's report fits the containers taken for validation (see
    /// `report_matches`), so that validation can use it.
    pub fn accepts_report(&self, listed: &Vec<ContainerSummary>) -> (r: bool)
        ensures
            r == report_matches(self.by_docker_id@, listed@),
    {
        let running = container_state_name(ContainerState::Running);
        let mut i: usize = 0;
        while i < listed.len()
            invariant
                0 <= i <= listed@.len(),
                running@ == container_state_text(ContainerState::Running),
                forall|a: int|
                    0 <= a < i && #[trigger] is_running(listed@[a]) ==> listed@[a].id is Some
                        && self.by_docker_id@.dom().contains(listed@[a].id.unwrap()@),
                forall|a: int, b: int|
                    0 <= a < i && 0 <= b < i && a != b && #[trigger] is_running(listed@[a])
                        && #[trigger] is_running(listed@[b]) ==> listed@[a].id.unwrap()@
                        != listed@[b].id.unwrap()@,
            decreases listed@.len() - i,
        {
            if listed[i].state == running {
                assert(is_running(listed@[i as int]));
                match &listed[i].id {
                    None => return false,
                    Some(id) => {
                        if !self.by_docker_id.contains_key(id) {
                            return false;
                        }
                        let mut j: usize = 0;
                        while j < i
                            invariant
                                0 <= j <= i < listed@.len(),
                                running@ == container_state_text(ContainerState::Running),
                                listed@[i as int].id == Some(*id),
                                is_running(listed@[i as int]),
                                forall|a: int|
                                    0 <= a < i && #[trigger] is_running(listed@[a]) ==> listed@[a].id is Some,
                                forall|b: int|
                                    0 <= b < j && #[trigger] is_running(listed@[b]) ==> listed@[b].id.unwrap()@
                                        != id@,
                            decreases i - j,
                        {
                            if listed[j].state == running {
                                assert(is_running(listed@[j as int]));
                                if let Some(other) = &listed[j].id {
                                    if *other == *id {
                                        assert(is_running(listed@[i as int]) && is_running(listed@[j as int]));
                                        assert(listed@[j as int].id.unwrap()@ == listed@[i as int].id.unwrap()@);
                                        return false;
                                    }
                                }
                            }
                            j = j + 1;
                        }
                    },
                }
            }
            i = i + 1;
        }
        true
    }
}

impl<Q> ServiceLoadBalancer<Q> {
    /// A fresh load balancer for the row `id` just stored: round robin from position 0,
    /// holding requests until a container is ready, with no containers yet.
    pub fn new(
        id: i32,
        docker_image_id: String,
        exposed_port: String,
        address: String,
        https: bool,
    ) -> (lb: Self)
        ensures
            lb.id == id,
            lb.docker_image_id == docker_image_id,
            lb.exposed_port == exposed_port,
            lb.address == address,
            lb.head == 0,
            lb.behavior == ELoadBalancerBehavior::RoundRobin,
            lb.mode == ELoadBalancerMode::QUEUE,
            lb.containers@ == Seq::<ServiceContainer>::empty(),
            lb.awaited_containers@ == Map::<Seq<char>, ServiceContainer>::empty(),
            !lb.validated,
            lb.request_queue@ == Seq::<Q>::empty(),
            lb.https == https,
    {
        ServiceLoadBalancer {
            id,
            docker_image_id,
            exposed_port,
            address,
            head: 0,
            behavior: ELoadBalancerBehavior::RoundRobin,
            mode: ELoadBalancerMode::QUEUE,
            containers: Vec::new(),
            awaited_containers: KeyedMap::new(),
            validated: false,
            request_queue: Vec::new(),
            https,
        }
    }

    /// Whether the round-robin head can advance over the containers (see
    /// `round_robin_defined`).
    pub fn can_advance(&self) -> (r: bool)
        ensures
            r == round_robin_defined(self.head, self.containers@.len() as int),
    {
        let len = self.containers.len();
        if len == 0 {
            return true;
        }
        if len > 2147483647 || self.head == 2147483647 {
            return false;
        }
        let h: i64 = self.head as i64 + 1;
        if h >= 0 {
            return true;
        }
        let magnitude: u64 = (-h) as u64;
        proof { lemma_mod_equivalence(0, magnitude as int, len as int); }
        magnitude % (len as u64) == 0
    }

    /// Picks the next container round robin: moves the head one step on (wrapping
    /// around) and gives the public port and row id of the container there. With no
    /// containers it gives nothing and changes nothing.
    pub fn next_container(&mut self) -> (r: Option<(i32, i32)>)
        requires
            round_robin_defined(old(self).head, old(self).containers@.len() as int),
        ensures
            old(self).containers@.len() == 0 ==> r is None && *final(self) == *old(self),
            old(self).containers@.len() > 0 ==> {
                let h = next_head(old(self).head, old(self).containers@.len() as int);
                &&& *final(self) == (ServiceLoadBalancer { head: h as i32, ..*old(self) })
                &&& r == Some((old(self).containers@[h].public_port, old(self).containers@[h].id))
            },
    {
        let len = self.containers.len();
        if len == 0 {
            return None;
        }
        let n: u64 = len as u64;
        let h: i64 = self.head as i64 + 1;
        let position: u64 = if h >= 0 {
            (h as u64) % n
        } else {
            0
        };
        self.head = position as i32;
        let container = &self.containers[position as usize];
        Some((container.public_port, container.id))
    }

    /// Holds a request until a container is ready.
    pub fn queue_request(&mut self, item: Q)
        ensures
            *final(self) == (ServiceLoadBalancer {
                request_queue: final(self).request_queue,
                ..*old(self)
            }),
            final(self).request_queue@ == old(self).request_queue@.push(item),
    {
        self.request_queue.push(item);
    }

    /// Appends a container to those that take requests and gives a reference to it.
    pub fn add_container(&mut self, container: ServiceContainer) -> (r: &ServiceContainer)
        ensures
            *final(self) == (ServiceLoadBalancer { containers: final(self).containers, ..*old(self) }),
            final(self).containers@ == old(self).containers@.push(container),
            *r == container,
    {
        self.containers.push(container);
        let last = self.containers.len() - 1;
        &self.containers[last]
    }

    /// Takes out the first container with row id `container_id`, if any, keeping the
    /// others in order.
    pub fn remove_container(&mut self, container_id: i32) -> (r: Option<ServiceContainer>)
        ensures
            *final(self) == (ServiceLoadBalancer { containers: final(self).containers, ..*old(self) }),
            removes_container(old(self).containers@, final(self).containers@, container_id),
            match r {
                Some(c) => exists|i: int|
                    first_with_id(old(self).containers@, container_id, i) && c
                        == old(self).containers@[i] && final(self).containers@
                        == old(self).containers@.remove(i),
                None => (forall|j: int|
                    0 <= j < old(self).containers@.len() ==> old(self).containers@[j].id
                        != container_id) && final(self).containers@ == old(self).containers@,
            },
    {
        let mut i: usize = 0;
        while i < self.containers.len()
            invariant
                self == old(self),
                0 <= i <= self.containers@.len(),
                forall|j: int| 0 <= j < i ==> self.containers@[j].id != container_id,
            decreases self.containers@.len() - i,
        {
            if self.containers[i].id == container_id {
                let c = self.containers.remove(i);
                assert(first_with_id(old(self).containers@, container_id, i as int));
                return Some(c);
            }
            i = i + 1;
        }
        None
    }

    /// Holds a started container until it announces that it is ready: it is kept
    /// under the text of its UUID, and the shared register of awaited containers
    /// maps that text to this load balancer's image.
    pub fn queue_container(
        &mut self,
        container: ServiceContainer,
        awaited_containers: &mut KeyedMap<String>,
    )
        ensures
            final(awaited_containers)@ == old(awaited_containers)@.insert(
                uuid_text(container.uuid),
                old(self).docker_image_id,
            ),
            *final(self) == (ServiceLoadBalancer {
                awaited_containers: final(self).awaited_containers,
                ..*old(self)
            }),
            final(self).awaited_containers@ == old(self).awaited_containers@.insert(
                uuid_text(container.uuid),
                container,
            ),
    {
        let key = uuid_to_string(container.uuid);
        awaited_containers.insert(key.clone(), self.docker_image_id.clone());
        self.awaited_containers.insert(key, container);
    }

    /// Hands over the held requests, in the order they came, and holds none.
    pub fn empty_queue(&mut self) -> (r: Vec<Q>)
        ensures
            r@ == old(self).request_queue@,
            *final(self) == (ServiceLoadBalancer {
                request_queue: final(self).request_queue,
                ..*old(self)
            }),
            final(self).request_queue@ == Seq::<Q>::empty(),
    {
        let mut queue = Vec::new();
        std::mem::swap(&mut self.request_queue, &mut queue);
        queue
    }

    /// First half of validating the containers: takes them all out, keyed by docker
    /// id, and gives the ids to ask docker about.
    pub fn begin_validation(&mut self) -> (r: (PendingValidation, Vec<String>))
        ensures
            *final(self) == (ServiceLoadBalancer { containers: final(self).containers, ..*old(self) }),
            final(self).containers@ == Seq::<ServiceContainer>::empty(),
            r.0.by_docker_id@ == keyed_by_docker_id(old(self).containers@),
            lists_keys_of(r.1@.map_values(|k: String| k@), r.0.by_docker_id@),
    {
        let mut containers = Vec::new();
        std::mem::swap(&mut self.containers, &mut containers);
        let ghost all = containers@;
        let mut by_docker_id: KeyedMap<ServiceContainer> = KeyedMap::new();
        let count = containers.len();
        let mut taken: usize = 0;
        while containers.len() > 0
            invariant
                containers@ == all.skip(taken as int),
                taken + containers@.len() == all.len(),
                all.len() == count,
                by_docker_id@ == keyed_by_docker_id(all.take(taken as int)),
            decreases containers@.len(),
        {
            let c = containers.remove(0);
            let key = c.container_id.clone();
            by_docker_id.insert(key, c);
            proof {
                assert(all.take(taken + 1).drop_last() =~= all.take(taken as int));
                assert(all.take(taken + 1).last() == c);
            }
            taken = taken + 1;
            assert(containers@ =~= all.skip(taken as int));
        }
        assert(all.take(taken as int) =~= all);
        let ids = by_docker_id.keys();
        (PendingValidation { by_docker_id }, ids)
    }

    /// Second half of validating the containers, given docker's report on them (or
    /// the error text of the listing). The containers docker shows running take
    /// requests again, in report order; the others are stale and are handed back to be
    /// pruned: their row ids and their port reservations (`None` when there are none).
    /// An error leaves the load balancer as it is and is passed on.
    pub fn finish_validation(
        &mut self,
        pending: PendingValidation,
        listed: Result<Vec<ContainerSummary>, String>,
    ) -> (r: Result<Option<StaleContainers>, String>)
        requires
            listed matches Ok(l) ==> report_matches(pending.by_docker_id@, l@),
        ensures
            listed matches Err(e) ==> r == Err::<Option<StaleContainers>, String>(e) && *final(self) == *old(self),
            listed matches Ok(l) ==> {
                let m = pending.by_docker_id@;
                let stale = stale_containers(m, l@);
                &&& *final(self) == (ServiceLoadBalancer {
                    containers: final(self).containers,
                    ..*old(self)
                })
                &&& final(self).containers@ == old(self).containers@ + values_at(running_ids(l@), m)
            },
            listed matches Ok(l) ==> {
                let stale = stale_containers(pending.by_docker_id@, l@);
                &&& r is Ok
                &&& (r matches Ok(None) <==> stale == Map::<Seq<char>, ServiceContainer>::empty())
            },
            listed matches Ok(l) ==> {
                let stale = stale_containers(pending.by_docker_id@, l@);
                r matches Ok(Some(v)) ==> prunes_stale(stale, v)
            },
    {
        let report = match listed {
            Err(e) => return Err(e),
            Ok(l) => l,
        };
        let ghost m = pending.by_docker_id@;
        let ghost base = self.containers@;
        let mut remaining = pending.by_docker_id;
        let running = container_state_name(ContainerState::Running);
        let ghost mut ids: Seq<Seq<char>> = Seq::empty();
        let ghost mut origin: Seq<int> = Seq::empty();
        let mut i: usize = 0;
        while i < report.len()
            invariant
                0 <= i <= report@.len(),
                running@ == container_state_text(ContainerState::Running),
                report_matches(m, report@),
                ids == running_ids(report@.take(i as int)),
                origin.len() == ids.len(),
                forall|a: int|
                    0 <= a < ids.len() ==> 0 <= #[trigger] origin[a] < i && is_running(
                        report@[origin[a]],
                    ) && ids[a] == report@[origin[a]].id.unwrap()@,
                remaining@ == without_keys(m, ids),
                *self == (ServiceLoadBalancer { containers: self.containers, ..*old(self) }),
                self.containers@ == base + values_at(ids, m),
            decreases report@.len() - i,
        {
            proof { lemma_running_ids_push(report@, i as int); }
            let summary = &report[i];
            if summary.state == running {
                assert(is_running(report@[i as int]));
                let id = summary.id.as_ref().unwrap();
                proof {
                    if ids.contains(id@) {
                        let a = choose|a: int| 0 <= a < ids.len() && ids[a] == id@;
                        assert(is_running(report@[origin[a]]));
                        assert(false);
                    }
                }
                let c = remaining.remove(id).unwrap();
                self.containers.push(c);
                proof {
                    let old_ids = ids;
                    ids = ids.push(id@);
                    origin = origin.push(i as int);
                    assert forall|k: Seq<char>| #[trigger] ids.contains(k) <==> (old_ids.contains(k) || k == id@) by {
                        if ids.contains(k) {
                            let a = choose|a: int| 0 <= a < ids.len() && ids[a] == k;
                            if a < old_ids.len() {
                                assert(old_ids[a] == k);
                            }
                        }
                        if old_ids.contains(k) {
                            let a = choose|a: int| 0 <= a < old_ids.len() && old_ids[a] == k;
                            assert(ids[a] == k);
                        }
                        if k == id@ {
                            assert(ids[old_ids.len() as int] == k);
                        }
                    }
                    assert(without_keys(m, old_ids).remove(id@) =~= without_keys(m, ids));
                    assert(values_at(ids, m) =~= values_at(old_ids, m).push(m[id@]));
                    assert(self.containers@ =~= base + values_at(ids, m));
                }
            }
            i = i + 1;
        }
        assert(report@.take(report@.len() as int) =~= report@);
        if remaining.is_empty() {
            return Ok(None);
        }
        let ghost stale = remaining@;
        let values = remaining.into_values();
        let ghost ks = choose|ks: Seq<Seq<char>>|
            lists_keys_of(ks, stale) && values@ == #[trigger] values_at(ks, stale);
        let mut released: Vec<i32> = Vec::new();
        let mut pruned: Vec<i32> = Vec::new();
        let mut j: usize = 0;
        while j < values.len()
            invariant
                0 <= j <= values@.len(),
                released@ =~= values@.take(j as int).map_values(|c: ServiceContainer| c.cippj_fk),
                pruned@ =~= values@.take(j as int).map_values(|c: ServiceContainer| c.id),
            decreases values@.len() - j,
        {
            released.push(values[j].cippj_fk);
            pruned.push(values[j].id);
            j = j + 1;
            assert(released@ =~= values@.take(j as int).map_values(
                |c: ServiceContainer| c.cippj_fk,
            ));
            assert(pruned@ =~= values@.take(j as int).map_values(|c: ServiceContainer| c.id));
        }
        assert(values@.take(j as int) =~= values@);
        assert(released@ == reservations_at(ks, stale));
        assert(pruned@ == row_ids_at(ks, stale));
        let result = StaleContainers { container_ids: pruned, reservations: released };
        assert(ids =~= running_ids(report@));
        assert(stale == stale_containers(m, report@));
        assert(describes_stale(ks, stale_containers(m, report@), result));
        assert(prunes_stale(stale_containers(m, report@), result));
        Ok(Some(result))
    }
}

} // verus!
