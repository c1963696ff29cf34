use crate::db::load_balancer_container_junctions::{insert_lbcj_sql, insert_lbcj_text};
use std::sync::Arc;
use vstd::prelude::*;

verus! {

/// The statement that ties a container to a load balancer, with its parameters.
pub struct JunctionInsert {
    pub sql: String,
    pub load_balancer_id: i32,
    pub container_id: i32,
}

/// Ties the container `container_id` to the load balancer `load_balancer_id`: the
/// statement to run, with the two row ids as its parameters in that order.
pub fn create(load_balancer_id: Arc<i32>, container_id: Arc<i32>) -> (r: JunctionInsert)
    ensures
        r.sql@ == insert_lbcj_text(),
        r.load_balancer_id == *load_balancer_id,
        r.container_id == *container_id,
{
    JunctionInsert { sql: insert_lbcj_sql(), load_balancer_id: *load_balancer_id, container_id: *container_id }
}

} // verus!
