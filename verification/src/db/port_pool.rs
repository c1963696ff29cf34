use crate::db::container_instance_port_pool_junction::ContainerInstancePortPoolJunctionColumns;
use crate::db::tables::ETables;
use vstd::prelude::*;

verus! {

/// Columns of the port pool table.
#[allow(non_camel_case_types)]
#[derive(Debug, Clone, Copy, PartialEq, Eq, Structural)]
pub enum PortPoolColumns {
    ID,
    PORT,
    ORCHESTRATOR_FK,
}

impl PortPoolColumns {
    /// The name it stands for in the database.
    pub open spec fn name(self) -> Seq<char> {
        match self {
            PortPoolColumns::ID => "id"@,
            PortPoolColumns::PORT => "port"@,
            PortPoolColumns::ORCHESTRATOR_FK => "orchestrator_fk"@,
        }
    }

    /// The name it stands for in the database.
    pub fn as_str(&self) -> (r: &'static str)
        ensures
            r@ == self.name(),
    {
        match self {
            PortPoolColumns::ID => "id",
            PortPoolColumns::PORT => "port",
            PortPoolColumns::ORCHESTRATOR_FK => "orchestrator_fk",
        }
    }

    /// The name it stands for in the database, as a `String`.
    pub fn to_string(&self) -> (r: String)
        ensures
            r@ == self.name(),
    {
        self.as_str().to_owned()
    }
}

/// The text of the query for a pooled port and its reservations.
pub open spec fn port_pool_text() -> Seq<char> {
    "
        SELECT pp."@
        + PortPoolColumns::PORT.name()
        + " as pp_port, cippj."@
        + ContainerInstancePortPoolJunctionColumns::ID.name()
        + " as cippj_id
        FROM "@
        + ETables::PORT_POOL.name()
        + " pp
        LEFT JOIN "@
        + ETables::CONTAINER_INSTANCE_PORT_POOL_JUNCTION.name()
        + " cippj on pp."@
        + PortPoolColumns::ID.name()
        + " = cippj."@
        + ContainerInstancePortPoolJunctionColumns::PORT_POOL_FK.name()
        + "
        WHERE
            pp."@
        + PortPoolColumns::ID.name()
        + " = $1    
        "@
}

/// The query for a pooled port and its reservations.
pub fn port_pool_sql() -> (sql: String)
    ensures
        sql@ == port_pool_text(),
{
    let mut sql = String::new();
    sql.append("
        SELECT pp.");
    sql.append(PortPoolColumns::PORT.as_str());
    sql.append(" as pp_port, cippj.");
    sql.append(ContainerInstancePortPoolJunctionColumns::ID.as_str());
    sql.append(" as cippj_id
        FROM ");
    sql.append(ETables::PORT_POOL.as_str());
    sql.append(" pp
        LEFT JOIN ");
    sql.append(ETables::CONTAINER_INSTANCE_PORT_POOL_JUNCTION.as_str());
    sql.append(" cippj on pp.");
    sql.append(PortPoolColumns::ID.as_str());
    sql.append(" = cippj.");
    sql.append(ContainerInstancePortPoolJunctionColumns::PORT_POOL_FK.as_str());
    sql.append("
        WHERE
            pp.");
    sql.append(PortPoolColumns::ID.as_str());
    sql.append(" = $1    
        ");
    sql
}

} // verus!
