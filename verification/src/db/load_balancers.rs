use crate::db::container_instance_port_pool_junction::ContainerInstancePortPoolJunctionColumns;
use crate::db::load_balancer_container_junctions::ELoadBalancerContainerJunctionColumns;
use crate::db::tables::ETables;
use crate::db::port_pool::PortPoolColumns;
use crate::db::containers::ServiceContainerColumns;
use vstd::prelude::*;

verus! {

/// Columns of the load balancers table.
#[allow(non_camel_case_types)]
#[derive(Debug, Clone, Copy, PartialEq, Eq, Structural)]
pub enum ServiceLoadBalancersColumns {
    ID,
    IMAGE_FK,
    HEAD,
    BEHAVIOR,
}

impl ServiceLoadBalancersColumns {
    /// The name it stands for in the database.
    pub open spec fn name(self) -> Seq<char> {
        match self {
            ServiceLoadBalancersColumns::ID => "id"@,
            ServiceLoadBalancersColumns::IMAGE_FK => "image_fk"@,
            ServiceLoadBalancersColumns::HEAD => "head"@,
            ServiceLoadBalancersColumns::BEHAVIOR => "behavior"@,
        }
    }

    /// The name it stands for in the database.
    pub fn as_str(&self) -> (r: &'static str)
        ensures
            r@ == self.name(),
    {
        match self {
            ServiceLoadBalancersColumns::ID => "id",
            ServiceLoadBalancersColumns::IMAGE_FK => "image_fk",
            ServiceLoadBalancersColumns::HEAD => "head",
            ServiceLoadBalancersColumns::BEHAVIOR => "behavior",
        }
    }

    /// The name it stands for in the database, as a `String`.
    pub fn to_string(&self) -> (r: String)
        ensures
            r@ == self.name(),
    {
        self.as_str().to_owned()
    }
}

/// The text of the query for an image's load balancer with its containers in use.
pub open spec fn existing_load_balancer_text() -> Seq<char> {
    "
            SELECT
                lb."@
        + ServiceLoadBalancersColumns::ID.name()
        + " as lb_id,    
                lb."@
        + ServiceLoadBalancersColumns::HEAD.name()
        + " as lb_head,
                c."@
        + ServiceContainerColumns::ID.name()
        + " as c_id,
                c."@
        + ServiceContainerColumns::DOCKER_CONTAINER_ID.name()
        + ",
                c."@
        + ServiceContainerColumns::CONTAINER_INSTANCE_PORT_POOL_JUNCTION_FK.name()
        + ",
                pp."@
        + PortPoolColumns::PORT.name()
        + ",
                cippj."@
        + ContainerInstancePortPoolJunctionColumns::UUID.name()
        + "
            FROM
                "@
        + ETables::SERVICE_LOADBALANCERS.name()
        + " lb
            LEFT JOIN
                "@
        + ETables::LOAD_BALANCER_CONTAINER_JUNCTION.name()
        + " lbcj ON lb."@
        + ServiceLoadBalancersColumns::ID.name()
        + " = lbcj."@
        + ELoadBalancerContainerJunctionColumns::LOAD_BALANCER_FK.name()
        + "
            LEFT JOIN
                "@
        + ETables::SERVICE_CONTAINER.name()
        + " c ON lbcj."@
        + ELoadBalancerContainerJunctionColumns::CONTAINER_FK.name()
        + " = c."@
        + ServiceContainerColumns::ID.name()
        + "
            LEFT JOIN
                "@
        + ETables::CONTAINER_INSTANCE_PORT_POOL_JUNCTION.name()
        + " cippj ON c."@
        + ServiceContainerColumns::CONTAINER_INSTANCE_PORT_POOL_JUNCTION_FK.name()
        + " = cippj."@
        + ContainerInstancePortPoolJunctionColumns::ID.name()
        + "
            LEFT JOIN
                "@
        + ETables::PORT_POOL.name()
        + " pp ON cippj."@
        + ContainerInstancePortPoolJunctionColumns::PORT_POOL_FK.name()
        + " = pp."@
        + PortPoolColumns::ID.name()
        + "
            WHERE
                lb."@
        + ServiceLoadBalancersColumns::IMAGE_FK.name()
        + " = $1 AND
                cippj."@
        + ContainerInstancePortPoolJunctionColumns::IN_USE.name()
        + " = true
        "@
}

/// The query for an image's load balancer with its containers in use.
pub fn existing_load_balancer_sql() -> (sql: String)
    ensures
        sql@ == existing_load_balancer_text(),
{
    let mut sql = String::new();
    sql.append("
            SELECT
                lb.");
    sql.append(ServiceLoadBalancersColumns::ID.as_str());
    sql.append(" as lb_id,    
                lb.");
    sql.append(ServiceLoadBalancersColumns::HEAD.as_str());
    sql.append(" as lb_head,
                c.");
    sql.append(ServiceContainerColumns::ID.as_str());
    sql.append(" as c_id,
                c.");
    sql.append(ServiceContainerColumns::DOCKER_CONTAINER_ID.as_str());
    sql.append(",
                c.");
    sql.append(ServiceContainerColumns::CONTAINER_INSTANCE_PORT_POOL_JUNCTION_FK.as_str());
    sql.append(",
                pp.");
    sql.append(PortPoolColumns::PORT.as_str());
    sql.append(",
                cippj.");
    sql.append(ContainerInstancePortPoolJunctionColumns::UUID.as_str());
    sql.append("
            FROM
                ");
    sql.append(ETables::SERVICE_LOADBALANCERS.as_str());
    sql.append(" lb
            LEFT JOIN
                ");
    sql.append(ETables::LOAD_BALANCER_CONTAINER_JUNCTION.as_str());
    sql.append(" lbcj ON lb.");
    sql.append(ServiceLoadBalancersColumns::ID.as_str());
    sql.append(" = lbcj.");
    sql.append(ELoadBalancerContainerJunctionColumns::LOAD_BALANCER_FK.as_str());
    sql.append("
            LEFT JOIN
                ");
    sql.append(ETables::SERVICE_CONTAINER.as_str());
    sql.append(" c ON lbcj.");
    sql.append(ELoadBalancerContainerJunctionColumns::CONTAINER_FK.as_str());
    sql.append(" = c.");
    sql.append(ServiceContainerColumns::ID.as_str());
    sql.append("
            LEFT JOIN
                ");
    sql.append(ETables::CONTAINER_INSTANCE_PORT_POOL_JUNCTION.as_str());
    sql.append(" cippj ON c.");
    sql.append(ServiceContainerColumns::CONTAINER_INSTANCE_PORT_POOL_JUNCTION_FK.as_str());
    sql.append(" = cippj.");
    sql.append(ContainerInstancePortPoolJunctionColumns::ID.as_str());
    sql.append("
            LEFT JOIN
                ");
    sql.append(ETables::PORT_POOL.as_str());
    sql.append(" pp ON cippj.");
    sql.append(ContainerInstancePortPoolJunctionColumns::PORT_POOL_FK.as_str());
    sql.append(" = pp.");
    sql.append(PortPoolColumns::ID.as_str());
    sql.append("
            WHERE
                lb.");
    sql.append(ServiceLoadBalancersColumns::IMAGE_FK.as_str());
    sql.append(" = $1 AND
                cippj.");
    sql.append(ContainerInstancePortPoolJunctionColumns::IN_USE.as_str());
    sql.append(" = true
        ");
    sql
}

} // verus!
