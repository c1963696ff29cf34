use crate::db::tables::ETables;
use vstd::prelude::*;

verus! {

/// Columns of the table that ties load balancers to containers.
#[allow(non_camel_case_types)]
#[derive(Debug, Clone, Copy, PartialEq, Eq, Structural)]
pub enum ELoadBalancerContainerJunctionColumns {
    ID,
    LOAD_BALANCER_FK,
    CONTAINER_FK,
}

impl ELoadBalancerContainerJunctionColumns {
    /// The name it stands for in the database.
    pub open spec fn name(self) -> Seq<char> {
        match self {
            ELoadBalancerContainerJunctionColumns::ID => "id"@,
            ELoadBalancerContainerJunctionColumns::LOAD_BALANCER_FK => "load_balancer_fk"@,
            ELoadBalancerContainerJunctionColumns::CONTAINER_FK => "container_fk"@,
        }
    }

    /// The name it stands for in the database.
    pub fn as_str(&self) -> (r: &'static str)
        ensures
            r@ == self.name(),
    {
        match self {
            ELoadBalancerContainerJunctionColumns::ID => "id",
            ELoadBalancerContainerJunctionColumns::LOAD_BALANCER_FK => "load_balancer_fk",
            ELoadBalancerContainerJunctionColumns::CONTAINER_FK => "container_fk",
        }
    }

    /// The name it stands for in the database, as a `String`.
    pub fn to_string(&self) -> (r: String)
        ensures
            r@ == self.name(),
    {
        self.as_str().to_owned()
    }
}

/// The text of the statement that ties a container to a load balancer.
pub open spec fn insert_lbcj_text() -> Seq<char> {
    "INSERT INTO "@
        + ETables::LOAD_BALANCER_CONTAINER_JUNCTION.name()
        + " ("@
        + ELoadBalancerContainerJunctionColumns::LOAD_BALANCER_FK.name()
        + ", "@
        + ELoadBalancerContainerJunctionColumns::CONTAINER_FK.name()
        + ")
        VALUES
        ($1, $2)"@
}

/// The statement that ties a container to a load balancer.
pub fn insert_lbcj_sql() -> (sql: String)
    ensures
        sql@ == insert_lbcj_text(),
{
    let mut sql = String::new();
    sql.append("INSERT INTO ");
    sql.append(ETables::LOAD_BALANCER_CONTAINER_JUNCTION.as_str());
    sql.append(" (");
    sql.append(ELoadBalancerContainerJunctionColumns::LOAD_BALANCER_FK.as_str());
    sql.append(", ");
    sql.append(ELoadBalancerContainerJunctionColumns::CONTAINER_FK.as_str());
    sql.append(")
        VALUES
        ($1, $2)");
    sql
}

/// The text of the statement that unties the containers with given row ids from
/// their load balancers.
pub open spec fn delete_lbcj_by_containers_text() -> Seq<char> {
    "DELETE FROM "@
        + ETables::LOAD_BALANCER_CONTAINER_JUNCTION.name()
        + " WHERE "@
        + ELoadBalancerContainerJunctionColumns::CONTAINER_FK.name()
        + " = ANY($1)"@
}

/// The statement that unties the containers with given row ids from their load
/// balancers.
pub fn delete_lbcj_by_containers_sql() -> (sql: String)
    ensures
        sql@ == delete_lbcj_by_containers_text(),
{
    let mut sql = String::new();
    sql.append("DELETE FROM ");
    sql.append(ETables::LOAD_BALANCER_CONTAINER_JUNCTION.as_str());
    sql.append(" WHERE ");
    sql.append(ELoadBalancerContainerJunctionColumns::CONTAINER_FK.as_str());
    sql.append(" = ANY($1)");
    sql
}

} // verus!
