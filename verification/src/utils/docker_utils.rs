use bollard::secret::ContainerStateStatusEnum;
use crate::models::service_load_balancer::ContainerSummary;
use vstd::prelude::*;

verus! {

/// The states that docker reports for a container.
#[derive(Clone, Copy, Debug, PartialEq, Eq, Structural)]
pub enum ContainerState {
    Empty,
    Created,
    Running,
    Paused,
    Restarting,
    Removing,
    Exited,
    Dead,
}

/// The text docker uses for each container state.
pub open spec fn container_state_text(state: ContainerState) -> Seq<char> {
    match state {
        ContainerState::Empty => ""@,
        ContainerState::Created => "created"@,
        ContainerState::Running => "running"@,
        ContainerState::Paused => "paused"@,
        ContainerState::Restarting => "restarting"@,
        ContainerState::Removing => "removing"@,
        ContainerState::Exited => "exited"@,
        ContainerState::Dead => "dead"@,
    }
}

/// Formats a container state through the `Display` impl of bollard's
/// `ContainerStateStatusEnum` (bollard-stubs' `models.rs`), which writes
/// "", "created", "running", "paused", "restarting", "removing", "exited" or
/// "dead", one per variant; the contract claims that text.
#[verifier::external_body]
pub fn container_state_name(state: ContainerState) -> (text: String)
    ensures
        text@ == container_state_text(state),
{
    let outside = match state {
        ContainerState::Empty => ContainerStateStatusEnum::EMPTY,
        ContainerState::Created => ContainerStateStatusEnum::CREATED,
        ContainerState::Running => ContainerStateStatusEnum::RUNNING,
        ContainerState::Paused => ContainerStateStatusEnum::PAUSED,
        ContainerState::Restarting => ContainerStateStatusEnum::RESTARTING,
        ContainerState::Removing => ContainerStateStatusEnum::REMOVING,
        ContainerState::Exited => ContainerStateStatusEnum::EXITED,
        ContainerState::Dead => ContainerStateStatusEnum::DEAD,
    };
    outside.to_string()
}

/// The states whose containers the clean-up sweep removes: created, exited and dead,
/// in that order.
pub fn non_running_status_filter() -> (filter: Vec<String>)
    ensures
        filter@.map_values(|s: String| s@) == seq![
            container_state_text(ContainerState::Created),
            container_state_text(ContainerState::Exited),
            container_state_text(ContainerState::Dead),
        ],
{
    let mut filter: Vec<String> = Vec::new();
    filter.push(container_state_name(ContainerState::Created));
    filter.push(container_state_name(ContainerState::Exited));
    filter.push(container_state_name(ContainerState::Dead));
    assert(filter@.map_values(|s: String| s@) =~= seq![
        container_state_text(ContainerState::Created),
        container_state_text(ContainerState::Exited),
        container_state_text(ContainerState::Dead),
    ]);
    filter
}

/// The docker ids of the listed containers, in list order: those the clean-up sweep
/// removes and whose port reservations it releases.
pub fn non_running_container_ids(listed: Vec<ContainerSummary>) -> (ids: Vec<String>)
    requires
        forall|i: int| 0 <= i < listed@.len() ==> (#[trigger] listed@[i]).id is Some,
    ensures
        ids@.map_values(|s: String| s@) == listed@.map_values(|c: ContainerSummary| c.id.unwrap()@),
{
    let ghost all = listed@;
    let count = listed.len();
    let mut rest = listed;
    let mut ids: Vec<String> = Vec::new();
    while rest.len() > 0
        invariant
            ids@.len() + rest@.len() == all.len(),
            all.len() == count,
            rest@ == all.skip(ids@.len() as int),
            forall|i: int| 0 <= i < all.len() ==> (#[trigger] all[i]).id is Some,
            forall|i: int| 0 <= i < ids@.len() ==> #[trigger] ids@[i]@ == all[i].id.unwrap()@,
        decreases rest@.len(),
    {
        let summary = rest.remove(0);
        let ghost at = ids@.len() as int;
        assert(summary == all[at]);
        match summary.id {
            Some(id) => ids.push(id),
            None => {
                assert(false);
            },
        }
        assert(rest@ =~= all.skip(ids@.len() as int));
    }
    assert(ids@.map_values(|s: String| s@) =~= all.map_values(|c: ContainerSummary| c.id.unwrap()@));
    ids
}

} // verus!
