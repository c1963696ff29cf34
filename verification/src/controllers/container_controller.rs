use crate::models::service_container_models::ServiceContainer;
use crate::utils::decimal::{decimal, decimal_text};
use crate::utils::orchestrator_utils::service_unavailable_code;
use crate::utils::uuid_text::{uuid_text, uuid_to_string};
use vstd::prelude::*;

verus! {

/// A port reserved for a new container, with the UUID it will announce itself with.
pub struct PortAllocation {
    /// Row id of the reservation (container instance port pool junction).
    pub cippj_id: i32,
    pub port: i32,
    pub uuid: u128,
}

/// What docker is asked to create for a new container.
pub struct DockerContainerPlan {
    pub image: String,
    /// The container port to publish, as docker names it ("<port>/tcp").
    pub port_binding: String,
    pub host_port: String,
    pub host_ip: String,
    /// The container's environment: its UUID and where the orchestrator listens.
    pub env: Vec<String>,
}

/// What creating a container does next.
pub enum ContainerCreation {
    /// It is over, with this outcome.
    Finished(Result<ServiceContainer, String>),
    /// Ask docker to create the container, then call `settle_docker_create`.
    CreateDocker { allocation: PortAllocation, plan: DockerContainerPlan },
    /// Store the container docker created, then call `settle_container_insert`.
    Insert { allocation: PortAllocation, docker_container_id: String },
}

/// The docker name of a published container port.
pub open spec fn port_binding_text(exposed_port: Seq<char>) -> Seq<char> {
    exposed_port + "/tcp"@
}

/// The environment a container is created with.
pub open spec fn container_env(uuid: u128, orchestrator_uri: Seq<char>) -> Seq<Seq<char>> {
    seq!["uuid="@ + uuid_text(uuid), "orchestrator_uri="@ + orchestrator_uri]
}

/// First step of creating a container for an image, given the port reservation (or
/// the text of its error): docker is to create the image's container publishing
/// `exposed_port` on the reserved port of every host address, with the
/// container's UUID and the orchestrator's address in its environment.
pub fn plan_container(
    docker_image_id: &String,
    exposed_port: &String,
    orchestrator_uri: &String,
    allocation: Result<PortAllocation, String>,
) -> (r: ContainerCreation)
    ensures
        allocation matches Err(e) ==> {
            &&& r matches ContainerCreation::Finished(Err(message))
            &&& message@ == "Postgres Port Allocation Error: "@ + e@
        },
        allocation matches Ok(a) ==> {
            &&& r matches ContainerCreation::CreateDocker { allocation: a2, plan }
            &&& a2 == a
            &&& plan.image == docker_image_id
            &&& plan.port_binding@ == port_binding_text(exposed_port@)
            &&& plan.host_port@ == decimal(a.port as int)
            &&& plan.host_ip@ == "0.0.0.0"@
            &&& plan.env@.map_values(|s: String| s@) == container_env(a.uuid, orchestrator_uri@)
        },
{
    match allocation {
        Err(e) => {
            let message = "Postgres Port Allocation Error: ".to_owned().concat(e.as_str());
            ContainerCreation::Finished(Err(message))
        },
        Ok(a) => {
            let port_binding = exposed_port.clone().concat("/tcp");
            let host_port = decimal_text(a.port);
            let uuid_entry = "uuid=".to_owned().concat(uuid_to_string(a.uuid).as_str());
            let uri_entry = "orchestrator_uri=".to_owned().concat(orchestrator_uri.as_str());
            let mut env: Vec<String> = Vec::new();
            env.push(uuid_entry);
            env.push(uri_entry);
            assert(env@.map_values(|s: String| s@) =~= container_env(a.uuid, orchestrator_uri@));
            let plan = DockerContainerPlan {
                image: docker_image_id.clone(),
                port_binding,
                host_port,
                host_ip: "0.0.0.0".to_owned(),
                env,
            };
            ContainerCreation::CreateDocker { allocation: a, plan }
        },
    }
}

/// Second step, given docker's id for the created container (or the text of
/// docker's error): the container is to be stored.
pub fn settle_docker_create(allocation: PortAllocation, created: Result<String, String>) -> (r:
    ContainerCreation)
    ensures
        created matches Err(e) ==> {
            &&& r matches ContainerCreation::Finished(Err(message))
            &&& message@ == "Docker Create Container Error: "@ + e@
        },
        created matches Ok(id) ==> r == (ContainerCreation::Insert {
            allocation,
            docker_container_id: id,
        }),
{
    match created {
        Err(e) => {
            let message = "Docker Create Container Error: ".to_owned().concat(e.as_str());
            ContainerCreation::Finished(Err(message))
        },
        Ok(docker_container_id) => ContainerCreation::Insert { allocation, docker_container_id },
    }
}

/// Last step, given the row id the container was stored under (or the error's
/// text): the container, or the error with the port reservation to release.
pub fn settle_container_insert(
    allocation: PortAllocation,
    docker_container_id: String,
    inserted: Result<i32, String>,
) -> (r: (Result<ServiceContainer, String>, Option<Vec<i32>>))
    ensures
        inserted matches Ok(id) ==> r.0 == Ok::<ServiceContainer, String>(
            ServiceContainer {
                id,
                container_id: docker_container_id,
                public_port: allocation.port,
                uuid: allocation.uuid,
                cippj_fk: allocation.cippj_id,
            },
        ) && r.1 is None,
        inserted matches Err(e) ==> {
            &&& r.0 == Err::<ServiceContainer, String>(e)
            &&& r.1 matches Some(release)
            &&& release@ == seq![allocation.cippj_id]
        },
{
    match inserted {
        Ok(id) => (
            Ok(
                ServiceContainer {
                    id,
                    container_id: docker_container_id,
                    public_port: allocation.port,
                    uuid: allocation.uuid,
                    cippj_fk: allocation.cippj_id,
                },
            ),
            None,
        ),
        Err(e) => {
            let mut release: Vec<i32> = Vec::new();
            release.push(allocation.cippj_id);
            assert(release@ =~= seq![allocation.cippj_id]);
            (Err(e), Some(release))
        },
    }
}

/// The address a request is forwarded to: its path on the container's port of
/// this host, over HTTPS or HTTP.
pub open spec fn forward_address(https: bool, container_port: i32, request_path: Seq<char>) -> Seq<char> {
    (if https {
        "https"@
    } else {
        "http"@
    }) + "://localhost:"@ + decimal(container_port as int) + request_path
}

/// The address a request is forwarded to.
pub fn forward_url(https: bool, container_port: i32, request_path: &String) -> (url: String)
    ensures
        url@ == forward_address(https, container_port, request_path@),
{
    let scheme = if https {
        "https"
    } else {
        "http"
    };
    scheme.to_owned().concat("://localhost:").concat(decimal_text(container_port).as_str()).concat(
        request_path.as_str(),
    )
}

/// How a forwarded request ended, for its trace.
pub enum ForwardReport {
    /// The container answered with this status; the answer went back to the client.
    Returned { status: i32 },
    /// The container could not be reached; the client got this status (503).
    Failed { status: i32 },
}

impl ForwardReport {
    /// Whether the request reached its container.
    pub open spec fn reached(self) -> bool {
        self is Returned
    }

    /// Whether the request reached its container.
    pub fn success(&self) -> (r: bool)
        ensures
            r == self.reached(),
    {
        match self {
            ForwardReport::Returned { .. } => true,
            ForwardReport::Failed { .. } => false,
        }
    }
}

/// The report on a forward, given the status the container answered with, or
/// nothing when it could not be reached: a reached container's status is recorded
/// as it is; an unreachable one is recorded as 503 Service Unavailable.
pub fn forward_report(response_status: Option<u16>) -> (r: ForwardReport)
    ensures
        response_status matches Some(s) ==> r == (ForwardReport::Returned { status: s as i32 }),
        response_status is None ==> r == (ForwardReport::Failed { status: 503 }),
{
    match response_status {
        Some(s) => ForwardReport::Returned { status: s as i32 },
        None => ForwardReport::Failed { status: service_unavailable_code() as i32 },
    }
}

} // verus!
