use crate::db::requests::EServiceRequestColumns;
use crate::db::tables::ETables;
use vstd::prelude::*;

verus! {

/// Columns of the request traces table.
#[allow(non_camel_case_types)]
#[derive(Debug, Clone, Copy, PartialEq, Eq, Structural)]
pub enum ERequestTracesColumns {
    ID,
    REQUEST_UUID,
    REQUEST_TRACE_TYPES_FK,
    CONTAINER_ID_FK,
    TIMESTAMP,
}

impl ERequestTracesColumns {
    /// The name it stands for in the database.
    pub open spec fn name(self) -> Seq<char> {
        match self {
            ERequestTracesColumns::ID => "id"@,
            ERequestTracesColumns::REQUEST_UUID => "request_uuid"@,
            ERequestTracesColumns::REQUEST_TRACE_TYPES_FK => "request_trace_types_fk"@,
            ERequestTracesColumns::CONTAINER_ID_FK => "container_id_fk"@,
            ERequestTracesColumns::TIMESTAMP => "timestamp"@,
        }
    }

    /// The name it stands for in the database.
    pub fn as_str(&self) -> (r: &'static str)
        ensures
            r@ == self.name(),
    {
        match self {
            ERequestTracesColumns::ID => "id",
            ERequestTracesColumns::REQUEST_UUID => "request_uuid",
            ERequestTracesColumns::REQUEST_TRACE_TYPES_FK => "request_trace_types_fk",
            ERequestTracesColumns::CONTAINER_ID_FK => "container_id_fk",
            ERequestTracesColumns::TIMESTAMP => "timestamp",
        }
    }

    /// The name it stands for in the database, as a `String`.
    pub fn to_string(&self) -> (r: String)
        ensures
            r@ == self.name(),
    {
        self.as_str().to_owned()
    }
}

/// The text of the statement that records an accepted request.
pub open spec fn request_acceptance_text() -> Seq<char> {
    "
                INSERT INTO "@
        + ETables::SERVICE_REQUEST.name()
        + "
                ("@
        + EServiceRequestColumns::PATH.name()
        + ", "@
        + EServiceRequestColumns::UUID.name()
        + ", "@
        + EServiceRequestColumns::METHOD.name()
        + ", "@
        + EServiceRequestColumns::ORCHESTRATOR_INSTANCE_FK.name()
        + ")
                VALUES ($1, $2, $3, $4);
            "@
}

/// The statement that records an accepted request.
pub fn request_acceptance_sql() -> (sql: String)
    ensures
        sql@ == request_acceptance_text(),
{
    let mut sql = String::new();
    sql.append("
                INSERT INTO ");
    sql.append(ETables::SERVICE_REQUEST.as_str());
    sql.append("
                (");
    sql.append(EServiceRequestColumns::PATH.as_str());
    sql.append(", ");
    sql.append(EServiceRequestColumns::UUID.as_str());
    sql.append(", ");
    sql.append(EServiceRequestColumns::METHOD.as_str());
    sql.append(", ");
    sql.append(EServiceRequestColumns::ORCHESTRATOR_INSTANCE_FK.as_str());
    sql.append(")
                VALUES ($1, $2, $3, $4);
            ");
    sql
}

/// The text of the statement that records a step in the life of a request.
pub open spec fn request_trace_text() -> Seq<char> {
    "
                INSERT INTO "@
        + ETables::REQUEST_TRACES.name()
        + " (
                    "@
        + ERequestTracesColumns::REQUEST_UUID.name()
        + ",
                    "@
        + ERequestTracesColumns::REQUEST_TRACE_TYPES_FK.name()
        + ",
                    "@
        + ERequestTracesColumns::TIMESTAMP.name()
        + ",
                    "@
        + ERequestTracesColumns::CONTAINER_ID_FK.name()
        + "
                    ) VALUES ($1, $2, $3, $4)
            "@
}

/// The statement that records a step in the life of a request.
pub fn request_trace_sql() -> (sql: String)
    ensures
        sql@ == request_trace_text(),
{
    let mut sql = String::new();
    sql.append("
                INSERT INTO ");
    sql.append(ETables::REQUEST_TRACES.as_str());
    sql.append(" (
                    ");
    sql.append(ERequestTracesColumns::REQUEST_UUID.as_str());
    sql.append(",
                    ");
    sql.append(ERequestTracesColumns::REQUEST_TRACE_TYPES_FK.as_str());
    sql.append(",
                    ");
    sql.append(ERequestTracesColumns::TIMESTAMP.as_str());
    sql.append(",
                    ");
    sql.append(ERequestTracesColumns::CONTAINER_ID_FK.as_str());
    sql.append("
                    ) VALUES ($1, $2, $3, $4)
            ");
    sql
}

/// The text of the statement that records the status a request was answered with.
pub open spec fn finalized_request_text() -> Seq<char> {
    "
            UPDATE "@
        + ETables::SERVICE_REQUEST.name()
        + "
            SET "@
        + EServiceRequestColumns::STATUS_CODE.name()
        + " = $1
            WHERE "@
        + EServiceRequestColumns::UUID.name()
        + " = $2
        "@
}

/// The statement that records the status a request was answered with.
pub fn finalized_request_sql() -> (sql: String)
    ensures
        sql@ == finalized_request_text(),
{
    let mut sql = String::new();
    sql.append("
            UPDATE ");
    sql.append(ETables::SERVICE_REQUEST.as_str());
    sql.append("
            SET ");
    sql.append(EServiceRequestColumns::STATUS_CODE.as_str());
    sql.append(" = $1
            WHERE ");
    sql.append(EServiceRequestColumns::UUID.as_str());
    sql.append(" = $2
        ");
    sql
}

} // verus!
