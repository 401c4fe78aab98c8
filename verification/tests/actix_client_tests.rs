use paperclip::apis::Uuid;
use paperclip::clients::actix::{NodesClient, ReplicasClient, SnapshotsClient};
use paperclip::clients::Configuration;
use paperclip::models::HttpMethod;
use std::rc::Rc;

fn config() -> Configuration {
    Configuration { base_path: String::from("http://localhost:8080/v0"), user_agent: None }
}

fn uuid() -> Uuid {
    Uuid { value: 0xa1a2a3a4b1b2c1c2d1d2d3d4d5d6d7d8 }
}

fn pairs(v: &[(&str, &str)]) -> Vec<(String, String)> {
    v.iter().map(|(a, b)| (a.to_string(), b.to_string())).collect()
}

#[test]
fn snapshot_requests_put_both_identifiers_in_the_path() {
    let c = SnapshotsClient::new(Rc::new(config()));
    let u = uuid();
    let r = c.put_volume_snapshot_request(&u, &u);
    assert_eq!(r.method, HttpMethod::Put);
    assert_eq!(
        r.uri,
        "http://localhost:8080/v0/volumes/a1a2a3a4-b1b2-c1c2-d1d2-d3d4d5d6d7d8/snapshots/a1a2a3a4-b1b2-c1c2-d1d2-d3d4d5d6d7d8"
    );
    assert_eq!(r.query, None);
    assert_eq!(r.user_agent, None);
    let r = c.del_snapshot_request(&u);
    assert_eq!(r.method, HttpMethod::Delete);
    assert_eq!(r.uri, "http://localhost:8080/v0/volumes/snapshots/a1a2a3a4-b1b2-c1c2-d1d2-d3d4d5d6d7d8");
}

#[test]
fn snapshot_listing_hands_over_the_present_parameters() {
    let c = SnapshotsClient::new(Rc::new(config()));
    let u = uuid();
    let r = c.get_volumes_snapshots_request(None, Some(&u), 20, None);
    assert_eq!(r.method, HttpMethod::Get);
    assert_eq!(r.uri, "http://localhost:8080/v0/volumes/snapshots");
    assert_eq!(
        r.query,
        Some(pairs(&[("volume_id", "a1a2a3a4-b1b2-c1c2-d1d2-d3d4d5d6d7d8"), ("max_entries", "20")]))
    );
    let r = c.get_volume_snapshots_request(-3, Some(7), &u);
    assert_eq!(r.query, Some(pairs(&[("max_entries", "-3"), ("starting_token", "7")])));
}

#[test]
fn optional_query_absent_leaves_an_empty_query() {
    let c = NodesClient::new(Rc::new(Configuration {
        base_path: String::from("http://h"),
        user_agent: Some(String::from("ua")),
    }));
    let r = c.get_nodes_request(None);
    assert_eq!(r.uri, "http://h/nodes");
    assert_eq!(r.query, Some(Vec::new()));
    assert_eq!(r.user_agent, Some(String::from("ua")));
    let r = c.put_node_label_request(Some(false), "n 1", "k", "v/x");
    assert_eq!(r.uri, "http://h/nodes/n+1/label/k=v%2Fx");
    assert_eq!(r.query, Some(pairs(&[("overwrite", "false")])));
}

#[test]
fn replica_share_joins_the_allowed_hosts() {
    let c = ReplicasClient::new(Rc::new(config()));
    let u = uuid();
    let hosts = vec![String::from("a"), String::from("b")];
    let r = c.put_pool_replica_share_request(Some(hosts), "p", &u);
    assert_eq!(
        r.uri,
        "http://localhost:8080/v0/pools/p/replicas/a1a2a3a4-b1b2-c1c2-d1d2-d3d4d5d6d7d8/share/nvmf"
    );
    assert_eq!(r.query, Some(pairs(&[("allowed-hosts", "a,b")])));
    let r = c.get_replicas_request();
    assert_eq!(r.query, None);
    assert_eq!(r.uri, "http://localhost:8080/v0/replicas");
}
