use orchestrator::controllers::image_controller::image_sql;
use orchestrator::controllers::load_balancer_container_junction_controller::create;
use orchestrator::controllers::load_balancer_controller::{ELoadBalancerBehavior, ELoadBalancerMode};
use orchestrator::data::request_traces_types::ERequestTraceTypes;
use orchestrator::db::container_instance_port_pool_junction::{
    allocate_port_sql, deallocate_port_by_container_id_sql, deallocate_port_sql,
    ContainerInstancePortPoolJunctionColumns,
};
use orchestrator::db::container_instances::ContainerInstances;
use orchestrator::db::containers::{container_insert_sql, delete_containers_sql, ServiceContainerColumns};
use orchestrator::db::images::ServiceImageColumns;
use orchestrator::db::load_balancer_container_junctions::{
    delete_lbcj_by_containers_sql, insert_lbcj_sql, ELoadBalancerContainerJunctionColumns,
};
use orchestrator::db::load_balancers::{existing_load_balancer_sql, ServiceLoadBalancersColumns};
use orchestrator::db::orchestrator_instances::{
    create_orchestrator_instance_sql, OrchestratorInstanceColumns,
};
use orchestrator::db::orchestrators::OrchestratorColumns;
use orchestrator::db::port_pool::{port_pool_sql, PortPoolColumns};
use orchestrator::db::request_trace_types::ERequestTraceTypesColumns;
use orchestrator::db::request_traces::{
    finalized_request_sql, request_acceptance_sql, request_trace_sql, ERequestTracesColumns,
};
use orchestrator::db::requests::EServiceRequestColumns;
use orchestrator::db::routes::{route_resolution_sql, ServiceRouteColumns};
use orchestrator::db::tables::ETables;
use orchestrator::models::service_load_balancer::new_load_balancer_sql;
use orchestrator::utils::mongodb_utils::MongoCollections;
use std::sync::Arc;

#[test]
fn column_names_as_str() {
    assert_eq!(ContainerInstancePortPoolJunctionColumns::ID.as_str(), "id");
    assert_eq!(ContainerInstancePortPoolJunctionColumns::PORT_POOL_FK.as_str(), "port_pool_fk");
    assert_eq!(ContainerInstancePortPoolJunctionColumns::IN_USE.as_str(), "in_use");
    assert_eq!(ContainerInstancePortPoolJunctionColumns::UUID.as_str(), "uuid");
    assert_eq!(ServiceContainerColumns::ID.as_str(), "id");
    assert_eq!(ServiceContainerColumns::DOCKER_CONTAINER_ID.as_str(), "docker_container_id");
    assert_eq!(
        ServiceContainerColumns::CONTAINER_INSTANCE_PORT_POOL_JUNCTION_FK.as_str(),
        "container_instance_port_pool_junction_fk"
    );
    assert_eq!(ServiceImageColumns::ID.as_str(), "id");
    assert_eq!(ServiceImageColumns::DOCKER_IMAGE_ID.as_str(), "docker_image_id");
    assert_eq!(PortPoolColumns::ID.as_str(), "id");
    assert_eq!(PortPoolColumns::PORT.as_str(), "port");
    assert_eq!(PortPoolColumns::ORCHESTRATOR_FK.as_str(), "orchestrator_fk");
}

#[test]
fn column_names_to_string() {
    assert_eq!(ContainerInstances::ID.to_string(), "id");
    assert_eq!(ContainerInstances::CONTAINER_FK.to_string(), "container_fk");
    assert_eq!(ContainerInstances::UUID.to_string(), "uuid");
    assert_eq!(ELoadBalancerContainerJunctionColumns::LOAD_BALANCER_FK.to_string(), "load_balancer_fk");
    assert_eq!(ELoadBalancerContainerJunctionColumns::CONTAINER_FK.to_string(), "container_fk");
    assert_eq!(ServiceLoadBalancersColumns::IMAGE_FK.to_string(), "image_fk");
    assert_eq!(ServiceLoadBalancersColumns::HEAD.to_string(), "head");
    assert_eq!(ServiceLoadBalancersColumns::BEHAVIOR.to_string(), "behavior");
    assert_eq!(OrchestratorInstanceColumns::ORCHESTRATOR_FK.to_string(), "orchestrator_fk");
    assert_eq!(OrchestratorInstanceColumns::UUID_INSTANCE.to_string(), "uuid_instance");
    assert_eq!(OrchestratorColumns::NAME.to_string(), "name");
    assert_eq!(OrchestratorColumns::PUBLIC_UUID.to_string(), "public_uuid");
    assert_eq!(ERequestTraceTypesColumns::DESCRIPTION.to_string(), "description");
    assert_eq!(ERequestTracesColumns::REQUEST_UUID.to_string(), "request_uuid");
    assert_eq!(ERequestTracesColumns::REQUEST_TRACE_TYPES_FK.to_string(), "request_trace_types_fk");
    assert_eq!(ERequestTracesColumns::CONTAINER_ID_FK.to_string(), "container_id_fk");
    assert_eq!(ERequestTracesColumns::TIMESTAMP.to_string(), "timestamp");
    assert_eq!(EServiceRequestColumns::ORCHESTRATOR_INSTANCE_FK.to_string(), "orchestrator_instance_fk");
    assert_eq!(EServiceRequestColumns::STATUS_CODE.to_string(), "status_code");
    assert_eq!(EServiceRequestColumns::IMAGE_FK.to_string(), "image_fk");
    assert_eq!(ServiceRouteColumns::EXPOSED_PORT.to_string(), "exposed_port");
    assert_eq!(ServiceRouteColumns::SEGMENTS.to_string(), "segments");
    assert_eq!(ServiceRouteColumns::HTTPS.to_string(), "https");
}

#[test]
fn table_names() {
    assert_eq!(ETables::CONTAINER_INSTANCE_PORT_POOL_JUNCTION.to_string(), "container_instance_port_pool_junction");
    assert_eq!(ETables::LOAD_BALANCER_CONTAINER_JUNCTION.to_string(), "load_balancer_container_junction");
    assert_eq!(ETables::ORCHESTRATORS.to_string(), "orchestrators");
    assert_eq!(ETables::ORCHESTRATOR_INSTANCE.to_string(), "orchestrator_instances");
    assert_eq!(ETables::SERVICE_ROUTE.to_string(), "routes");
    assert_eq!(ETables::PORT_POOL.to_string(), "port_pool");
    assert_eq!(ETables::SERVICE_CONTAINER.to_string(), "containers");
    assert_eq!(ETables::SERVICE_LOADBALANCERS.to_string(), "load_balancers");
    assert_eq!(ETables::SERVICE_REQUEST.to_string(), "requests");
    assert_eq!(ETables::REQUEST_TRACES.to_string(), "request_traces");
}

#[test]
fn modes_behaviors_collections_and_trace_ids() {
    assert_eq!(ELoadBalancerBehavior::RoundRobin.to_string(), "round_robin");
    assert_eq!(ELoadBalancerMode::FORWARD.to_string(), "forward");
    assert_eq!(ELoadBalancerMode::QUEUE.to_string(), "queue");
    assert_eq!(MongoCollections::Images.to_string(), "images");
    assert_eq!(MongoCollections::Containers.to_string(), "containers");
    assert_eq!(MongoCollections::LoadBalancers.to_string(), "load_balancers");
    assert_eq!(MongoCollections::Routes.to_string(), "routes");
    assert_eq!(ERequestTraceTypes::INTERCEPTED.id(), 1);
    assert_eq!(ERequestTraceTypes::FORWARDED.id(), 2);
    assert_eq!(ERequestTraceTypes::FAILED.id(), 3);
    assert_eq!(ERequestTraceTypes::RETURNED.id(), 4);
    assert_eq!(ERequestTraceTypes::FINALIZED.id(), 5);
}

#[test]
fn allocate_port_statement() {
    let expected = format!(
        "
        INSERT INTO {cippj} ({cippj_ppfk}, {cippj_in_use}) values (
            (SELECT pp.{pp_id}
            FROM {pp} pp
            LEFT JOIN {o_table} on pp.{pp_o_fk} = {o_table}.{o_table_id}
            WHERE
                {o_table}.{o_table_pub_uuid} = $1
                AND
                NOT EXISTS(
                    SELECT 1 FROM {cippj} cippj
                    WHERE pp.{pp_id} = cippj.{cippj_ppfk}
                    AND
                    cippj.{cippj_in_use}
                    LIMIT 1 FOR UPDATE
                )
            LIMIT 1 FOR UPDATE),
            TRUE)
        RETURNING *
    ",
        cippj = "container_instance_port_pool_junction",
        cippj_ppfk = "port_pool_fk",
        cippj_in_use = "in_use",
        pp = "port_pool",
        pp_id = "id",
        pp_o_fk = "orchestrator_fk",
        o_table = "orchestrators",
        o_table_id = "id",
        o_table_pub_uuid = "public_uuid",
    );
    assert_eq!(allocate_port_sql(), expected);
}

#[test]
fn deallocate_port_statements() {
    let expected = format!(
        "
                UPDATE {cippj_table} SET {cippj_in_use} = false
                WHERE {cippj_ids} = ANY($1)
            ",
        cippj_table = "container_instance_port_pool_junction",
        cippj_in_use = "in_use",
        cippj_ids = "id",
    );
    assert_eq!(deallocate_port_sql(), expected);
    let expected = format!("
                UPDATE {cippj_table} set {cippj_in_use} = false
                WHERE {cippj_id} IN (SELECT {c_cippjfk} FROM {containers_table} WHERE {c_dci} = ANY($1)) 
            ",
        cippj_table = "container_instance_port_pool_junction",
        cippj_in_use = "in_use",
        cippj_id = "id",
        c_cippjfk = "container_instance_port_pool_junction_fk",
        containers_table = "containers",
        c_dci = "docker_container_id"
    );
    assert_eq!(deallocate_port_by_container_id_sql(), expected);
}

#[test]
fn container_and_junction_statements() {
    let expected = format!(
        "INSERT INTO {containers_table} ({dcid}, {cippj_fk})
                VALUES ($1, $2)
                RETURNING *
            ",
        containers_table = "containers",
        dcid = "docker_container_id",
        cippj_fk = "container_instance_port_pool_junction_fk"
    );
    assert_eq!(container_insert_sql(), expected);
    let expected = format!(
        "INSERT INTO {lbcj_table} ({lbcj_lbfk}, {lbcj_cfk})
        VALUES
        ($1, $2)",
        lbcj_table = "load_balancer_container_junction",
        lbcj_lbfk = "load_balancer_fk",
        lbcj_cfk = "container_fk"
    );
    assert_eq!(insert_lbcj_sql(), expected);
    let junction = create(Arc::new(4), Arc::new(9));
    assert_eq!(junction.sql, expected);
    assert_eq!(junction.load_balancer_id, 4);
    assert_eq!(junction.container_id, 9);
}

#[test]
fn load_balancer_statements() {
    let expected = format!(
        "
            SELECT
                lb.{lb_id} as lb_id,    
                lb.{lb_head} as lb_head,
                c.{c_id} as c_id,
                c.{c_docker_container_id},
                c.{c_cippj_fk},
                pp.{pp_port},
                cippj.{cippj_uuid}
            FROM
                {lb_table} lb
            LEFT JOIN
                {lbcj_table} lbcj ON lb.{lb_id} = lbcj.{lbcj_lbfk}
            LEFT JOIN
                {c_table} c ON lbcj.{lbcj_cfk} = c.{c_id}
            LEFT JOIN
                {cippj_table} cippj ON c.{c_cippjfk} = cippj.{cippj_id}
            LEFT JOIN
                {pp_table} pp ON cippj.{cippj_ppfk} = pp.{pp_id}
            WHERE
                lb.{lb_image_fk} = $1 AND
                cippj.{cippj_inuse} = true
        ",
        lb_id = "id",
        lb_head = "head",
        c_id = "id",
        c_docker_container_id = "docker_container_id",
        c_cippj_fk = "container_instance_port_pool_junction_fk",
        pp_port = "port",
        cippj_uuid = "uuid",
        lb_table = "load_balancers",
        lbcj_table = "load_balancer_container_junction",
        lbcj_lbfk = "load_balancer_fk",
        c_table = "containers",
        lbcj_cfk = "container_fk",
        cippj_table = "container_instance_port_pool_junction",
        c_cippjfk = "container_instance_port_pool_junction_fk",
        cippj_id = "id",
        pp_table = "port_pool",
        cippj_ppfk = "port_pool_fk",
        pp_id = "id",
        lb_image_fk = "image_fk",
        cippj_inuse = "in_use",
    );
    assert_eq!(existing_load_balancer_sql(), expected);
    assert_eq!(
        new_load_balancer_sql(),
        "INSERT INTO load_balancers (image_fk, head, behavior) VALUES ($1, $2, $3) RETURNING id"
    );
}

#[test]
fn orchestrator_and_port_pool_statements() {
    let expected = format!(
        "INSERT INTO {orchestrator_instance_table_name} ({col_orchestrator_fk}) VALUES ((SELECT {orchestrator_id} from {orchestrator_table} where {public_uuid} = $1)) RETURNING {orchestrator_instance_id}",
        orchestrator_instance_table_name = "orchestrator_instances",
        col_orchestrator_fk = "orchestrator_fk",
        orchestrator_id = "id",
        orchestrator_table = "orchestrators",
        public_uuid = "public_uuid",
        orchestrator_instance_id = "id"
    );
    assert_eq!(create_orchestrator_instance_sql(), expected);
    let expected = format!(
        "
        SELECT pp.{pp_port} as pp_port, cippj.{cippj_id} as cippj_id
        FROM {pp} pp
        LEFT JOIN {cippj} cippj on pp.{pp_id} = cippj.{cippj_ppfk}
        WHERE
            pp.{id} = $1    
        ",
        pp_port = "port",
        cippj_id = "id",
        pp = "port_pool",
        cippj = "container_instance_port_pool_junction",
        pp_id = "id",
        cippj_ppfk = "port_pool_fk",
        id = "id",
    );
    assert_eq!(port_pool_sql(), expected);
}

#[test]
fn request_trace_statements() {
    let expected = format!(
        "
                INSERT INTO {sr_table}
                ({sr_path}, {sr_uuid}, {sr_method}, {sr_orchestrator_instance})
                VALUES ($1, $2, $3, $4);
            ",
        sr_table = "requests",
        sr_path = "path",
        sr_uuid = "uuid",
        sr_method = "method",
        sr_orchestrator_instance = "orchestrator_instance_fk",
    );
    assert_eq!(request_acceptance_sql(), expected);
    let expected = format!(
        "
                INSERT INTO {rt_table} (
                    {rt_uuid},
                    {rt_ttfk},
                    {rt_timestamp},
                    {rt_container_id_fk}
                    ) VALUES ($1, $2, $3, $4)
            ",
        rt_table = "request_traces",
        rt_uuid = "request_uuid",
        rt_ttfk = "request_trace_types_fk",
        rt_timestamp = "timestamp",
        rt_container_id_fk = "container_id_fk"
    );
    assert_eq!(request_trace_sql(), expected);
    let expected = format!(
        "
            UPDATE {sr_table}
            SET {sr_status_code} = $1
            WHERE {sr_uuid} = $2
        ",
        sr_table = "requests",
        sr_status_code = "status_code",
        sr_uuid = "uuid"
    );
    assert_eq!(finalized_request_sql(), expected);
}

#[test]
fn route_and_image_queries() {
    assert_eq!(
        route_resolution_sql(),
        "SELECT r.id as r_id, image_fk, prefix, exposed_port, exposed_port, segments, img.docker_image_id, r.https  FROM routes r LEFT JOIN images img on r.image_fk = img.id where $1 LIKE prefix || '%' ORDER BY segments DESC LIMIT 1"
    );
    assert_eq!(image_sql(), "SELECT id, docker_image_id FROM images where id = $1");
}

#[test]
fn prune_statements_delete_by_row_id() {
    assert_eq!(delete_containers_sql(), "DELETE FROM containers WHERE id = ANY($1)");
    assert_eq!(
        delete_lbcj_by_containers_sql(),
        "DELETE FROM load_balancer_container_junction WHERE container_fk = ANY($1)"
    );
}

#[test]
fn document_models_hold_plain_ids() {
    let c = orchestrator::models::docker_container_models::DockerContainer {
        _id: [1; 12],
        mongo_image_reference: [2; 12],
        container_id: "abc".to_string(),
        public_port: 8080,
    };
    assert_eq!((c._id[0], c.mongo_image_reference[11], c.container_id.as_str(), c.public_port), (1, 2, "abc", 8080));
    let body = orchestrator::models::service_load_balancer_container_junction_model::ServiceLoadBalancerContainerJunctionInsertBody {
        load_balancer_id: [3; 12],
        container_id: [4; 12],
    };
    let j = orchestrator::models::service_load_balancer_container_junction_model::ServiceLoadBalancerContainerJunction {
        _id: [5; 12],
        load_balancer_id: body.load_balancer_id,
        container_id: body.container_id,
    };
    assert_eq!((j._id[0], j.load_balancer_id[0], j.container_id[0]), (5, 3, 4));
}
