use crate::db::tables::ETables;
use crate::db::orchestrators::OrchestratorColumns;
use vstd::prelude::*;

verus! {

/// Columns of the orchestrator instances table.
#[allow(non_camel_case_types)]
#[derive(Debug, Clone, Copy, PartialEq, Eq, Structural)]
pub enum OrchestratorInstanceColumns {
    ID,
    ORCHESTRATOR_FK,
    UUID_INSTANCE,
}

impl OrchestratorInstanceColumns {
    /// The name it stands for in the database.
    pub open spec fn name(self) -> Seq<char> {
        match self {
            OrchestratorInstanceColumns::ID => "id"@,
            OrchestratorInstanceColumns::ORCHESTRATOR_FK => "orchestrator_fk"@,
            OrchestratorInstanceColumns::UUID_INSTANCE => "uuid_instance"@,
        }
    }

    /// The name it stands for in the database.
    pub fn as_str(&self) -> (r: &'static str)
        ensures
            r@ == self.name(),
    {
        match self {
            OrchestratorInstanceColumns::ID => "id",
            OrchestratorInstanceColumns::ORCHESTRATOR_FK => "orchestrator_fk",
            OrchestratorInstanceColumns::UUID_INSTANCE => "uuid_instance",
        }
    }

    /// The name it stands for in the database, as a `String`.
    pub fn to_string(&self) -> (r: String)
        ensures
            r@ == self.name(),
    {
        self.as_str().to_owned()
    }
}

/// The text of the statement that records a running instance of an orchestrator.
pub open spec fn create_orchestrator_instance_text() -> Seq<char> {
    "INSERT INTO "@
        + ETables::ORCHESTRATOR_INSTANCE.name()
        + " ("@
        + OrchestratorInstanceColumns::ORCHESTRATOR_FK.name()
        + ") VALUES ((SELECT "@
        + OrchestratorColumns::ID.name()
        + " from "@
        + ETables::ORCHESTRATORS.name()
        + " where "@
        + OrchestratorColumns::PUBLIC_UUID.name()
        + " = $1)) RETURNING "@
        + OrchestratorInstanceColumns::ID.name()
}

/// The statement that records a running instance of an orchestrator.
pub fn create_orchestrator_instance_sql() -> (sql: String)
    ensures
        sql@ == create_orchestrator_instance_text(),
{
    let mut sql = String::new();
    sql.append("INSERT INTO ");
    sql.append(ETables::ORCHESTRATOR_INSTANCE.as_str());
    sql.append(" (");
    sql.append(OrchestratorInstanceColumns::ORCHESTRATOR_FK.as_str());
    sql.append(") VALUES ((SELECT ");
    sql.append(OrchestratorColumns::ID.as_str());
    sql.append(" from ");
    sql.append(ETables::ORCHESTRATORS.as_str());
    sql.append(" where ");
    sql.append(OrchestratorColumns::PUBLIC_UUID.as_str());
    sql.append(" = $1)) RETURNING ");
    sql.append(OrchestratorInstanceColumns::ID.as_str());
    sql
}

} // verus!
