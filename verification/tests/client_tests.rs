use paperclip::apis::Uuid;
use paperclip::clients::tower::{
    failure_response, reads_output, response_of, success_response, ResponseBody, AppNodesClient, ApiClient, BlockDevicesClient, BodyRead,
    Error, NodesClient, ReplicasClient, RequestError, ResponseError, VolumesClient,
};
use paperclip::clients::{is_success, Configuration};
use paperclip::models::HttpMethod;
use std::sync::Arc;

fn config() -> Configuration {
    Configuration { base_path: String::from("http://localhost:8080/v0"), user_agent: Some(String::from("agent")) }
}

fn uuid() -> Uuid {
    Uuid { value: 0xa1a2a3a4b1b2c1c2d1d2d3d4d5d6d7d8 }
}

#[test]
fn get_volumes_request_lists_present_query_parameters() {
    let c = VolumesClient::new(Arc::new(config()));
    let u = uuid();
    let r = c.get_volumes_request(Some(&u), 10, None);
    assert_eq!(r.method, HttpMethod::Get);
    assert_eq!(
        r.uri,
        "http://localhost:8080/v0/volumes?volume_id=a1a2a3a4-b1b2-c1c2-d1d2-d3d4d5d6d7d8&max_entries=10"
    );
    assert_eq!(r.user_agent, Some(String::from("agent")));
    let r = c.get_volumes_request(None, -1, Some(5));
    assert_eq!(r.uri, "http://localhost:8080/v0/volumes?max_entries=-1&starting_token=5");
}

#[test]
fn volume_requests_put_the_identifier_in_the_path() {
    let c = VolumesClient::new(Arc::new(config()));
    let u = uuid();
    let r = c.put_volume_replica_count_request(&u, 3);
    assert_eq!(r.method, HttpMethod::Put);
    assert_eq!(r.uri, "http://localhost:8080/v0/volumes/a1a2a3a4-b1b2-c1c2-d1d2-d3d4d5d6d7d8/replica_count/3");
    let r = c.del_volume_target_request(Some(true), &u);
    assert_eq!(r.method, HttpMethod::Delete);
    assert_eq!(r.uri, "http://localhost:8080/v0/volumes/a1a2a3a4-b1b2-c1c2-d1d2-d3d4d5d6d7d8/target?force=true");
    let r = c.put_volume_share_request(None, &u, "nvmf tcp");
    assert_eq!(r.uri, "http://localhost:8080/v0/volumes/a1a2a3a4-b1b2-c1c2-d1d2-d3d4d5d6d7d8/share/nvmf+tcp");
}

#[test]
fn del_share_request_has_no_slash_before_the_identifier() {
    let c = VolumesClient::new(Arc::new(config()));
    let r = c.del_share_request(&uuid());
    assert_eq!(r.uri, "http://localhost:8080/v0/volumesa1a2a3a4-b1b2-c1c2-d1d2-d3d4d5d6d7d8/share");
}

#[test]
fn node_requests_encode_path_segments() {
    let c = NodesClient::new(Arc::new(Configuration { base_path: String::from("http://h"), user_agent: None }));
    let r = c.put_node_label_request(Some(false), "node 1", "k", "v/x");
    assert_eq!(r.method, HttpMethod::Put);
    assert_eq!(r.uri, "http://h/nodes/node+1/label/k=v%2Fx?overwrite=false");
    assert_eq!(r.user_agent, None);
    let r = c.get_nodes_request(Some("n&1"));
    assert_eq!(r.uri, "http://h/nodes?node_id=n&1");
    let r = c.get_nodes_request(None);
    assert_eq!(r.uri, "http://h/nodes");
}

#[test]
fn replica_share_request_joins_allowed_hosts() {
    let c = ReplicasClient::new(Arc::new(Configuration { base_path: String::from("http://h"), user_agent: None }));
    let u = uuid();
    let r = c.put_pool_replica_share_request(Some(vec![String::from("h1"), String::from("h2")]), "p1", &u);
    assert_eq!(r.uri, "http://h/pools/p1/replicas/a1a2a3a4-b1b2-c1c2-d1d2-d3d4d5d6d7d8/share/nvmf?allowed-hosts=h1,h2");
    let r = c.get_replicas_request();
    assert_eq!(r.uri, "http://h/replicas");
}

#[test]
fn other_client_requests() {
    let c = Arc::new(Configuration { base_path: String::from("http://h"), user_agent: None });
    let a = AppNodesClient::new(c.clone());
    assert_eq!(a.get_app_nodes_request(2, Some(-3)).uri, "http://h/app-nodes?max_entries=2&starting_token=-3");
    assert_eq!(a.deregister_app_node_request("x y").method, HttpMethod::Delete);
    let b = BlockDevicesClient::new(c);
    assert_eq!(b.get_node_block_devices_request(None, "n").uri, "http://h/nodes/n/block_devices");
}

#[test]
fn api_client_shares_its_configuration() {
    let api = ApiClient::new(config());
    let r = api.volumes_api().get_volume_request(&uuid());
    assert_eq!(r.uri, "http://localhost:8080/v0/volumes/a1a2a3a4-b1b2-c1c2-d1d2-d3d4d5d6d7d8");
    let r = api.nodes_api().get_node_request("n");
    assert_eq!(r.uri, "http://localhost:8080/v0/nodes/n");
    let r = api.replicas_api().get_replicas_request();
    assert_eq!(r.user_agent, Some(String::from("agent")));
}

#[test]
fn direct_api_client_shares_its_configuration() {
    let api = paperclip::clients::tower::direct::ApiClient::new(config());
    let r = api.children_api().get_nexus_children_request(&uuid());
    assert_eq!(r.uri, "http://localhost:8080/v0/nexuses/a1a2a3a4-b1b2-c1c2-d1d2-d3d4d5d6d7d8/children");
}

#[test]
fn success_statuses() {
    assert!(is_success(200));
    assert!(is_success(204));
    assert!(is_success(299));
    assert!(!is_success(199));
    assert!(!is_success(300));
    assert!(!is_success(404));
}

#[test]
fn success_response_gives_the_decoded_body() {
    match success_response::<u32, String>(200, BodyRead::Decoded(5)) {
        Ok(c) => {
            assert_eq!(c.status(), 200);
            assert_eq!(*c.body(), 5);
            assert_eq!(c.into_body(), 5);
        },
        Err(_) => panic!("expected a body"),
    }
}

#[test]
fn success_response_reports_decoding_and_payload_errors() {
    match success_response::<u32, String>(201, BodyRead::Undecodable { error: String::from("bad json"), text: String::from("x") }) {
        Err(Error::Response(ResponseError::Unexpected(u))) => {
            assert_eq!(u.status(), 201);
            assert_eq!(u.text(), "bad json");
        },
        _ => panic!("expected an unexpected response"),
    }
    match success_response::<u32, String>(200, BodyRead::Failed(String::from("closed"))) {
        Err(Error::Response(e)) => assert_eq!(e.status(), 200),
        _ => panic!("expected a payload error"),
    }
}

#[test]
fn failure_response_gives_the_expected_error() {
    match failure_response::<u32, String>(404, BodyRead::Decoded(String::from("missing"))) {
        Err(Error::Response(ResponseError::Expected(c))) => {
            assert_eq!(c.status(), 404);
            assert_eq!(c.body(), "missing");
        },
        _ => panic!("expected the error content"),
    }
    match failure_response::<u32, String>(500, BodyRead::Undecodable { error: String::from("e"), text: String::from("oops") }) {
        Err(Error::Response(ResponseError::Unexpected(u))) => {
            assert_eq!(u.status(), 500);
            assert_eq!(u.text(), "oops");
        },
        _ => panic!("expected an unexpected response"),
    }
}

#[test]
fn request_error_messages() {
    assert_eq!(RequestError::BuildRequest(String::from("bad uri")).message(), "error in build_request: bad uri");
    assert_eq!(RequestError::NotReady(String::from("busy")).message(), "error in not_ready: busy");
    assert_eq!(RequestError::SerdeEncoded(String::from("x")).message(), "error in serde_encoding: x");
}

#[test]
fn requests_carry_json_content_type_and_an_empty_body() {
    let c = VolumesClient::new(Arc::new(config()));
    let r = c.get_volumes_request(None, 10, Some(5));
    assert_eq!(r.uri, "http://localhost:8080/v0/volumes?max_entries=10&starting_token=5");
    assert_eq!(r.content_type, "application/json");
    assert!(r.body.is_empty());
}

#[test]
fn response_of_follows_the_status() {
    assert!(reads_output(204));
    assert!(!reads_output(404));
    assert!(!reads_output(199));
    match response_of::<u32, String>(200, ResponseBody::Success(BodyRead::Decoded(7))) {
        Ok(c) => assert_eq!((c.status(), *c.body()), (200, 7)),
        Err(_) => panic!("expected the output"),
    }
    match response_of::<u32, String>(404, ResponseBody::Failure(BodyRead::Decoded(String::from("missing")))) {
        Err(Error::Response(ResponseError::Expected(c))) => assert_eq!((c.status(), c.body().as_str()), (404, "missing")),
        _ => panic!("expected the error content"),
    }
}
