use crate::db::tables::ETables;
use vstd::prelude::*;

verus! {

/// Columns of the containers table.
#[allow(non_camel_case_types)]
#[derive(Debug, Clone, Copy, PartialEq, Eq, Structural)]
pub enum ServiceContainerColumns {
    ID,
    DOCKER_CONTAINER_ID,
    CONTAINER_INSTANCE_PORT_POOL_JUNCTION_FK,
}

impl ServiceContainerColumns {
    /// The name it stands for in the database.
    pub open spec fn name(self) -> Seq<char> {
        match self {
            ServiceContainerColumns::ID => "id"@,
            ServiceContainerColumns::DOCKER_CONTAINER_ID => "docker_container_id"@,
            ServiceContainerColumns::CONTAINER_INSTANCE_PORT_POOL_JUNCTION_FK => "container_instance_port_pool_junction_fk"@,
        }
    }

    /// The name it stands for in the database.
    pub fn as_str(&self) -> (r: &'static str)
        ensures
            r@ == self.name(),
    {
        match self {
            ServiceContainerColumns::ID => "id",
            ServiceContainerColumns::DOCKER_CONTAINER_ID => "docker_container_id",
            ServiceContainerColumns::CONTAINER_INSTANCE_PORT_POOL_JUNCTION_FK => "container_instance_port_pool_junction_fk",
        }
    }

    /// The name it stands for in the database, as a `String`.
    pub fn to_string(&self) -> (r: String)
        ensures
            r@ == self.name(),
    {
        self.as_str().to_owned()
    }
}

/// The text of the statement that stores a new container.
pub open spec fn container_insert_text() -> Seq<char> {
    "INSERT INTO "@
        + ETables::SERVICE_CONTAINER.name()
        + " ("@
        + ServiceContainerColumns::DOCKER_CONTAINER_ID.name()
        + ", "@
        + ServiceContainerColumns::CONTAINER_INSTANCE_PORT_POOL_JUNCTION_FK.name()
        + ")
                VALUES ($1, $2)
                RETURNING *
            "@
}

/// The statement that stores a new container.
pub fn container_insert_sql() -> (sql: String)
    ensures
        sql@ == container_insert_text(),
{
    let mut sql = String::new();
    sql.append("INSERT INTO ");
    sql.append(ETables::SERVICE_CONTAINER.as_str());
    sql.append(" (");
    sql.append(ServiceContainerColumns::DOCKER_CONTAINER_ID.as_str());
    sql.append(", ");
    sql.append(ServiceContainerColumns::CONTAINER_INSTANCE_PORT_POOL_JUNCTION_FK.as_str());
    sql.append(")
                VALUES ($1, $2)
                RETURNING *
            ");
    sql
}

/// The text of the statement that deletes the containers with given row ids.
pub open spec fn delete_containers_text() -> Seq<char> {
    "DELETE FROM "@
        + ETables::SERVICE_CONTAINER.name()
        + " WHERE "@
        + ServiceContainerColumns::ID.name()
        + " = ANY($1)"@
}

/// The statement that deletes the containers with given row ids.
pub fn delete_containers_sql() -> (sql: String)
    ensures
        sql@ == delete_containers_text(),
{
    let mut sql = String::new();
    sql.append("DELETE FROM ");
    sql.append(ETables::SERVICE_CONTAINER.as_str());
    sql.append(" WHERE ");
    sql.append(ServiceContainerColumns::ID.as_str());
    sql.append(" = ANY($1)");
    sql
}

} // verus!
