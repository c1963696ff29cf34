use crate::db::tables::ETables;
use crate::db::orchestrators::OrchestratorColumns;
use crate::db::port_pool::PortPoolColumns;
use crate::db::containers::ServiceContainerColumns;
use vstd::prelude::*;

verus! {

/// Columns of the port reservations (container instance port pool junction) table.
#[allow(non_camel_case_types)]
#[derive(Debug, Clone, Copy, PartialEq, Eq, Structural)]
pub enum ContainerInstancePortPoolJunctionColumns {
    ID,
    PORT_POOL_FK,
    IN_USE,
    UUID,
}

impl ContainerInstancePortPoolJunctionColumns {
    /// The name it stands for in the database.
    pub open spec fn name(self) -> Seq<char> {
        match self {
            ContainerInstancePortPoolJunctionColumns::ID => "id"@,
            ContainerInstancePortPoolJunctionColumns::PORT_POOL_FK => "port_pool_fk"@,
            ContainerInstancePortPoolJunctionColumns::IN_USE => "in_use"@,
            ContainerInstancePortPoolJunctionColumns::UUID => "uuid"@,
        }
    }

    /// The name it stands for in the database.
    pub fn as_str(&self) -> (r: &'static str)
        ensures
            r@ == self.name(),
    {
        match self {
            ContainerInstancePortPoolJunctionColumns::ID => "id",
            ContainerInstancePortPoolJunctionColumns::PORT_POOL_FK => "port_pool_fk",
            ContainerInstancePortPoolJunctionColumns::IN_USE => "in_use",
            ContainerInstancePortPoolJunctionColumns::UUID => "uuid",
        }
    }

    /// The name it stands for in the database, as a `String`.
    pub fn to_string(&self) -> (r: String)
        ensures
            r@ == self.name(),
    {
        self.as_str().to_owned()
    }
}

/// The text of the statement that reserves a free port of an orchestrator for a new container.
pub open spec fn allocate_port_text() -> Seq<char> {
    "
        INSERT INTO "@
        + ETables::CONTAINER_INSTANCE_PORT_POOL_JUNCTION.name()
        + " ("@
        + ContainerInstancePortPoolJunctionColumns::PORT_POOL_FK.name()
        + ", "@
        + ContainerInstancePortPoolJunctionColumns::IN_USE.name()
        + ") values (
            (SELECT pp."@
        + PortPoolColumns::ID.name()
        + "
            FROM "@
        + ETables::PORT_POOL.name()
        + " pp
            LEFT JOIN "@
        + ETables::ORCHESTRATORS.name()
        + " on pp."@
        + PortPoolColumns::ORCHESTRATOR_FK.name()
        + " = "@
        + ETables::ORCHESTRATORS.name()
        + "."@
        + OrchestratorColumns::ID.name()
        + "
            WHERE
                "@
        + ETables::ORCHESTRATORS.name()
        + "."@
        + OrchestratorColumns::PUBLIC_UUID.name()
        + " = $1
                AND
                NOT EXISTS(
                    SELECT 1 FROM "@
        + ETables::CONTAINER_INSTANCE_PORT_POOL_JUNCTION.name()
        + " cippj
                    WHERE pp."@
        + PortPoolColumns::ID.name()
        + " = cippj."@
        + ContainerInstancePortPoolJunctionColumns::PORT_POOL_FK.name()
        + "
                    AND
                    cippj."@
        + ContainerInstancePortPoolJunctionColumns::IN_USE.name()
        + "
                    LIMIT 1 FOR UPDATE
                )
            LIMIT 1 FOR UPDATE),
            TRUE)
        RETURNING *
    "@
}

/// The statement that reserves a free port of an orchestrator for a new container.
pub fn allocate_port_sql() -> (sql: String)
    ensures
        sql@ == allocate_port_text(),
{
    let mut sql = String::new();
    sql.append("
        INSERT INTO ");
    sql.append(ETables::CONTAINER_INSTANCE_PORT_POOL_JUNCTION.as_str());
    sql.append(" (");
    sql.append(ContainerInstancePortPoolJunctionColumns::PORT_POOL_FK.as_str());
    sql.append(", ");
    sql.append(ContainerInstancePortPoolJunctionColumns::IN_USE.as_str());
    sql.append(") values (
            (SELECT pp.");
    sql.append(PortPoolColumns::ID.as_str());
    sql.append("
            FROM ");
    sql.append(ETables::PORT_POOL.as_str());
    sql.append(" pp
            LEFT JOIN ");
    sql.append(ETables::ORCHESTRATORS.as_str());
    sql.append(" on pp.");
    sql.append(PortPoolColumns::ORCHESTRATOR_FK.as_str());
    sql.append(" = ");
    sql.append(ETables::ORCHESTRATORS.as_str());
    sql.append(".");
    sql.append(OrchestratorColumns::ID.as_str());
    sql.append("
            WHERE
                ");
    sql.append(ETables::ORCHESTRATORS.as_str());
    sql.append(".");
    sql.append(OrchestratorColumns::PUBLIC_UUID.as_str());
    sql.append(" = $1
                AND
                NOT EXISTS(
                    SELECT 1 FROM ");
    sql.append(ETables::CONTAINER_INSTANCE_PORT_POOL_JUNCTION.as_str());
    sql.append(" cippj
                    WHERE pp.");
    sql.append(PortPoolColumns::ID.as_str());
    sql.append(" = cippj.");
    sql.append(ContainerInstancePortPoolJunctionColumns::PORT_POOL_FK.as_str());
    sql.append("
                    AND
                    cippj.");
    sql.append(ContainerInstancePortPoolJunctionColumns::IN_USE.as_str());
    sql.append("
                    LIMIT 1 FOR UPDATE
                )
            LIMIT 1 FOR UPDATE),
            TRUE)
        RETURNING *
    ");
    sql
}

/// The text of the statement that releases the port reservations with given ids.
pub open spec fn deallocate_port_text() -> Seq<char> {
    "
                UPDATE "@
        + ETables::CONTAINER_INSTANCE_PORT_POOL_JUNCTION.name()
        + " SET "@
        + ContainerInstancePortPoolJunctionColumns::IN_USE.name()
        + " = false
                WHERE "@
        + ContainerInstancePortPoolJunctionColumns::ID.name()
        + " = ANY($1)
            "@
}

/// The statement that releases the port reservations with given ids.
pub fn deallocate_port_sql() -> (sql: String)
    ensures
        sql@ == deallocate_port_text(),
{
    let mut sql = String::new();
    sql.append("
                UPDATE ");
    sql.append(ETables::CONTAINER_INSTANCE_PORT_POOL_JUNCTION.as_str());
    sql.append(" SET ");
    sql.append(ContainerInstancePortPoolJunctionColumns::IN_USE.as_str());
    sql.append(" = false
                WHERE ");
    sql.append(ContainerInstancePortPoolJunctionColumns::ID.as_str());
    sql.append(" = ANY($1)
            ");
    sql
}

/// The text of the statement that releases the port reservations of containers with given docker ids.
pub open spec fn deallocate_port_by_container_id_text() -> Seq<char> {
    "
                UPDATE "@
        + ETables::CONTAINER_INSTANCE_PORT_POOL_JUNCTION.name()
        + " set "@
        + ContainerInstancePortPoolJunctionColumns::IN_USE.name()
        + " = false
                WHERE "@
        + ContainerInstancePortPoolJunctionColumns::ID.name()
        + " IN (SELECT "@
        + ServiceContainerColumns::CONTAINER_INSTANCE_PORT_POOL_JUNCTION_FK.name()
        + " FROM "@
        + ETables::SERVICE_CONTAINER.name()
        + " WHERE "@
        + ServiceContainerColumns::DOCKER_CONTAINER_ID.name()
        + " = ANY($1)) 
            "@
}

/// The statement that releases the port reservations of containers with given docker ids.
pub fn deallocate_port_by_container_id_sql() -> (sql: String)
    ensures
        sql@ == deallocate_port_by_container_id_text(),
{
    let mut sql = String::new();
    sql.append("
                UPDATE ");
    sql.append(ETables::CONTAINER_INSTANCE_PORT_POOL_JUNCTION.as_str());
    sql.append(" set ");
    sql.append(ContainerInstancePortPoolJunctionColumns::IN_USE.as_str());
    sql.append(" = false
                WHERE ");
    sql.append(ContainerInstancePortPoolJunctionColumns::ID.as_str());
    sql.append(" IN (SELECT ");
    sql.append(ServiceContainerColumns::CONTAINER_INSTANCE_PORT_POOL_JUNCTION_FK.as_str());
    sql.append(" FROM ");
    sql.append(ETables::SERVICE_CONTAINER.as_str());
    sql.append(" WHERE ");
    sql.append(ServiceContainerColumns::DOCKER_CONTAINER_ID.as_str());
    sql.append(" = ANY($1)) 
            ");
    sql
}

} // verus!
