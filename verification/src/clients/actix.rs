//! Clients of the APIs over `actix-web`'s client: the clients and the
//! requests of their operations, as handed to the HTTP client.

use vstd::prelude::*;
use std::rc::Rc;
use crate::apis::{encoded, param_views, signed_decimal, signed_text, urlencode, Uuid};
use crate::clients::{
    opt_bool_string, opt_bool_text, opt_joined_string, opt_joined_text, opt_signed_string, opt_signed_text, opt_str_string, opt_uuid_string,
    opt_uuid_text, Configuration,
};
use crate::models::HttpMethod;
use crate::object::{opt_str_view, opt_string_view};
use crate::text::push_str;

verus! {

/// A request of a client operation as it is handed to the HTTP client: the
/// URI without query, and, for an operation with query parameters, the
/// name and value of each one that is present (the HTTP client encodes
/// them into the query).
#[derive(Debug, Clone)]
pub struct PreparedRequest {
    /// The HTTP method.
    pub method: HttpMethod,
    /// The URI: base path and operation path.
    pub uri: String,
    /// The query parameters that are present, in order, for an operation
    /// that has query parameters.
    pub query: Option<Vec<(String, String)>>,
    /// The user agent header, if any.
    pub user_agent: Option<String>,
}

/// The parameters that have a value, with that value.
pub open spec fn present_params(ps: Seq<(Seq<char>, Option<Seq<char>>)>) -> Seq<(Seq<char>, Seq<char>)>
    decreases ps.len(),
{
    if ps.len() == 0 {
        Seq::empty()
    } else {
        let prev = present_params(ps.drop_last());
        match ps.last().1 {
            Some(v) => prev.push((ps.last().0, v)),
            None => prev,
        }
    }
}

/// The views of name and value pairs.
pub open spec fn pair_views(v: Seq<(String, String)>) -> Seq<(Seq<char>, Seq<char>)> {
    Seq::new(v.len(), |i: int| (v[i].0@, v[i].1@))
}

/// Whether `r` is the request with the given method, path and query
/// parameters (none for an operation without them) under configuration `c`.
pub open spec fn is_prepared(
    r: PreparedRequest,
    c: Configuration,
    method: HttpMethod,
    path: Seq<char>,
    params: Option<Seq<(Seq<char>, Option<Seq<char>>)>>,
) -> bool {
    &&& r.method == method
    &&& r.uri@ == c.base_path@ + path
    &&& match params {
        None => r.query is None,
        Some(ps) => r.query matches Some(q) && pair_views(q@) == present_params(ps),
    }
    &&& opt_string_view(r.user_agent) == opt_string_view(c.user_agent)
}

/// The parameters that have a value, as name and value pairs.
fn present_pairs(params: &Vec<(&str, Option<String>)>) -> (r: Vec<(String, String)>)
    ensures
        pair_views(r@) == present_params(param_views(params@)),
{
    let mut out: Vec<(String, String)> = Vec::new();
    let mut i: usize = 0;
    while i < params.len()
        invariant
            i <= params@.len(),
            pair_views(out@) == present_params(param_views(params@.take(i as int))),
        decreases params.len() - i,
    {
        assert(param_views(params@.take(i + 1)).drop_last() =~= param_views(params@.take(i as int)));
        assert(param_views(params@.take(i + 1)).last() == crate::apis::param_view(params@[i as int]));
        match &params[i].1 {
            Some(v) => {
                let ghost before = out@;
                out.push((params[i].0.to_owned(), v.clone()));
                assert(pair_views(out@) =~= pair_views(before).push((params@[i as int].0@, v@)));
            },
            None => {},
        }
        i = i + 1;
    }
    assert(params@.take(params@.len() as int) =~= params@);
    out
}

/// Prepares the request of an operation from its method, path and, for an
/// operation with query parameters, those parameters.
pub fn prepare(
    configuration: &Configuration,
    method: HttpMethod,
    path: &str,
    params: Option<&Vec<(&str, Option<String>)>>,
) -> (r: PreparedRequest)
    ensures
        is_prepared(
            r,
            *configuration,
            method,
            path@,
            match params {
                Some(p) => Some(param_views(p@)),
                None => None,
            },
        ),
{
    let mut uri = String::new();
    push_str(&mut uri, configuration.base_path.as_str());
    push_str(&mut uri, path);
    let query = match params {
        Some(p) => Some(present_pairs(p)),
        None => None,
    };
    let user_agent = match &configuration.user_agent {
        Some(s) => Some(s.clone()),
        None => None,
    };
    PreparedRequest { method, uri, query, user_agent }
}

/// Client of the children API.
pub struct ChildrenClient {
    configuration: Rc<Configuration>,
}

impl ChildrenClient {
    /// The configuration the client was made with.
    pub closed spec fn spec_configuration(self) -> Configuration {
        *self.configuration
    }

    pub fn new(configuration: Rc<Configuration>) -> (r: Self)
        ensures
            r.spec_configuration() == *configuration,
    {
        Self { configuration }
    }

    /// The request of `get_nexus_children`.
    pub fn get_nexus_children_request(&self, nexus_id: &Uuid) -> (r: PreparedRequest)
        ensures
            is_prepared(
                r,
                self.spec_configuration(),
                HttpMethod::Get,
                "/nexuses/"@ + nexus_id.spec_text() + "/children"@,
                None,
            ),
    {
        let mut path = String::new();
        push_str(&mut path, "/nexuses/");
        let t = nexus_id.to_string();
        push_str(&mut path, t.as_str());
        push_str(&mut path, "/children");
        assert(path@ =~= "/nexuses/"@ + nexus_id.spec_text() + "/children"@);
        prepare(&self.configuration, HttpMethod::Get, path.as_str(), None)
    }

    /// The request of `get_nexus_child`.
    pub fn get_nexus_child_request(&self, nexus_id: &Uuid, child_id: &str) -> (r: PreparedRequest)
        ensures
            is_prepared(
                r,
                self.spec_configuration(),
                HttpMethod::Get,
                "/nexuses/"@ + nexus_id.spec_text() + "/children/"@ + encoded(child_id@),
                None,
            ),
    {
        let mut path = String::new();
        push_str(&mut path, "/nexuses/");
        let t = nexus_id.to_string();
        push_str(&mut path, t.as_str());
        push_str(&mut path, "/children/");
        let t = urlencode(child_id);
        push_str(&mut path, t.as_str());
        assert(path@ =~= "/nexuses/"@ + nexus_id.spec_text() + "/children/"@ + encoded(child_id@));
        prepare(&self.configuration, HttpMethod::Get, path.as_str(), None)
    }

    /// The request of `put_nexus_child`.
    pub fn put_nexus_child_request(&self, nexus_id: &Uuid, child_id: &str) -> (r: PreparedRequest)
        ensures
            is_prepared(
                r,
                self.spec_configuration(),
                HttpMethod::Put,
                "/nexuses/"@ + nexus_id.spec_text() + "/children/"@ + encoded(child_id@),
                None,
            ),
    {
        let mut path = String::new();
        push_str(&mut path, "/nexuses/");
        let t = nexus_id.to_string();
        push_str(&mut path, t.as_str());
        push_str(&mut path, "/children/");
        let t = urlencode(child_id);
        push_str(&mut path, t.as_str());
        assert(path@ =~= "/nexuses/"@ + nexus_id.spec_text() + "/children/"@ + encoded(child_id@));
        prepare(&self.configuration, HttpMethod::Put, path.as_str(), None)
    }

    /// The request of `del_nexus_child`.
    pub fn del_nexus_child_request(&self, nexus_id: &Uuid, child_id: &str) -> (r: PreparedRequest)
        ensures
            is_prepared(
                r,
                self.spec_configuration(),
                HttpMethod::Delete,
                "/nexuses/"@ + nexus_id.spec_text() + "/children/"@ + encoded(child_id@),
                None,
            ),
    {
        let mut path = String::new();
        push_str(&mut path, "/nexuses/");
        let t = nexus_id.to_string();
        push_str(&mut path, t.as_str());
        push_str(&mut path, "/children/");
        let t = urlencode(child_id);
        push_str(&mut path, t.as_str());
        assert(path@ =~= "/nexuses/"@ + nexus_id.spec_text() + "/children/"@ + encoded(child_id@));
        prepare(&self.configuration, HttpMethod::Delete, path.as_str(), None)
    }

    /// The request of `get_node_nexus_children`.
    pub fn get_node_nexus_children_request(&self, node_id: &str, nexus_id: &Uuid) -> (r: PreparedRequest)
        ensures
            is_prepared(
                r,
                self.spec_configuration(),
                HttpMethod::Get,
                "/nodes/"@ + encoded(node_id@) + "/nexuses/"@ + nexus_id.spec_text() + "/children"@,
                None,
            ),
    {
        let mut path = String::new();
        push_str(&mut path, "/nodes/");
        let t = urlencode(node_id);
        push_str(&mut path, t.as_str());
        push_str(&mut path, "/nexuses/");
        let t = nexus_id.to_string();
        push_str(&mut path, t.as_str());
        push_str(&mut path, "/children");
        assert(path@ =~= "/nodes/"@ + encoded(node_id@) + "/nexuses/"@ + nexus_id.spec_text() + "/children"@);
        prepare(&self.configuration, HttpMethod::Get, path.as_str(), None)
    }

    /// The request of `get_node_nexus_child`.
    pub fn get_node_nexus_child_request(&self, node_id: &str, nexus_id: &Uuid, child_id: &str) -> (r: PreparedRequest)
        ensures
            is_prepared(
                r,
                self.spec_configuration(),
                HttpMethod::Get,
                "/nodes/"@ + encoded(node_id@) + "/nexuses/"@ + nexus_id.spec_text() + "/children/"@ + encoded(child_id@),
                None,
            ),
    {
        let mut path = String::new();
        push_str(&mut path, "/nodes/");
        let t = urlencode(node_id);
        push_str(&mut path, t.as_str());
        push_str(&mut path, "/nexuses/");
        let t = nexus_id.to_string();
        push_str(&mut path, t.as_str());
        push_str(&mut path, "/children/");
        let t = urlencode(child_id);
        push_str(&mut path, t.as_str());
        assert(path@ =~= "/nodes/"@ + encoded(node_id@) + "/nexuses/"@ + nexus_id.spec_text() + "/children/"@ + encoded(child_id@));
        prepare(&self.configuration, HttpMethod::Get, path.as_str(), None)
    }

    /// The request of `put_node_nexus_child`.
    pub fn put_node_nexus_child_request(&self, node_id: &str, nexus_id: &Uuid, child_id: &str) -> (r: PreparedRequest)
        ensures
            is_prepared(
                r,
                self.spec_configuration(),
                HttpMethod::Put,
                "/nodes/"@ + encoded(node_id@) + "/nexuses/"@ + nexus_id.spec_text() + "/children/"@ + encoded(child_id@),
                None,
            ),
    {
        let mut path = String::new();
        push_str(&mut path, "/nodes/");
        let t = urlencode(node_id);
        push_str(&mut path, t.as_str());
        push_str(&mut path, "/nexuses/");
        let t = nexus_id.to_string();
        push_str(&mut path, t.as_str());
        push_str(&mut path, "/children/");
        let t = urlencode(child_id);
        push_str(&mut path, t.as_str());
        assert(path@ =~= "/nodes/"@ + encoded(node_id@) + "/nexuses/"@ + nexus_id.spec_text() + "/children/"@ + encoded(child_id@));
        prepare(&self.configuration, HttpMethod::Put, path.as_str(), None)
    }

    /// The request of `del_node_nexus_child`.
    pub fn del_node_nexus_child_request(&self, node_id: &str, nexus_id: &Uuid, child_id: &str) -> (r: PreparedRequest)
        ensures
            is_prepared(
                r,
                self.spec_configuration(),
                HttpMethod::Delete,
                "/nodes/"@ + encoded(node_id@) + "/nexuses/"@ + nexus_id.spec_text() + "/children/"@ + encoded(child_id@),
                None,
            ),
    {
        let mut path = String::new();
        push_str(&mut path, "/nodes/");
        let t = urlencode(node_id);
        push_str(&mut path, t.as_str());
        push_str(&mut path, "/nexuses/");
        let t = nexus_id.to_string();
        push_str(&mut path, t.as_str());
        push_str(&mut path, "/children/");
        let t = urlencode(child_id);
        push_str(&mut path, t.as_str());
        assert(path@ =~= "/nodes/"@ + encoded(node_id@) + "/nexuses/"@ + nexus_id.spec_text() + "/children/"@ + encoded(child_id@));
        prepare(&self.configuration, HttpMethod::Delete, path.as_str(), None)
    }
}

/// Client of the nodes API.
pub struct NodesClient {
    configuration: Rc<Configuration>,
}

impl NodesClient {
    /// The configuration the client was made with.
    pub closed spec fn spec_configuration(self) -> Configuration {
        *self.configuration
    }

    pub fn new(configuration: Rc<Configuration>) -> (r: Self)
        ensures
            r.spec_configuration() == *configuration,
    {
        Self { configuration }
    }

    /// The request of `get_nodes`.
    pub fn get_nodes_request(&self, node_id: Option<&str>) -> (r: PreparedRequest)
        ensures
            is_prepared(
                r,
                self.spec_configuration(),
                HttpMethod::Get,
                "/nodes"@,
                Some(seq![("node_id"@, opt_str_view(node_id))]),
            ),
    {
        let mut path = String::new();
        push_str(&mut path, "/nodes");
        assert(path@ =~= "/nodes"@);
        let mut params: Vec<(&str, Option<String>)> = Vec::new();
        params.push(("node_id", opt_str_string(node_id)));
        assert(param_views(params@) =~= seq![("node_id"@, opt_str_view(node_id))]);
        prepare(&self.configuration, HttpMethod::Get, path.as_str(), Some(&params))
    }

    /// The request of `get_node`.
    pub fn get_node_request(&self, id: &str) -> (r: PreparedRequest)
        ensures
            is_prepared(
                r,
                self.spec_configuration(),
                HttpMethod::Get,
                "/nodes/"@ + encoded(id@),
                None,
            ),
    {
        let mut path = String::new();
        push_str(&mut path, "/nodes/");
        let t = urlencode(id);
        push_str(&mut path, t.as_str());
        assert(path@ =~= "/nodes/"@ + encoded(id@));
        prepare(&self.configuration, HttpMethod::Get, path.as_str(), None)
    }

    /// The request of `put_node_cordon`.
    pub fn put_node_cordon_request(&self, id: &str, label: &str) -> (r: PreparedRequest)
        ensures
            is_prepared(
                r,
                self.spec_configuration(),
                HttpMethod::Put,
                "/nodes/"@ + encoded(id@) + "/cordon/"@ + encoded(label@),
                None,
            ),
    {
        let mut path = String::new();
        push_str(&mut path, "/nodes/");
        let t = urlencode(id);
        push_str(&mut path, t.as_str());
        push_str(&mut path, "/cordon/");
        let t = urlencode(label);
        push_str(&mut path, t.as_str());
        assert(path@ =~= "/nodes/"@ + encoded(id@) + "/cordon/"@ + encoded(label@));
        prepare(&self.configuration, HttpMethod::Put, path.as_str(), None)
    }

    /// The request of `delete_node_cordon`.
    pub fn delete_node_cordon_request(&self, id: &str, label: &str) -> (r: PreparedRequest)
        ensures
            is_prepared(
                r,
                self.spec_configuration(),
                HttpMethod::Delete,
                "/nodes/"@ + encoded(id@) + "/cordon/"@ + encoded(label@),
                None,
            ),
    {
        let mut path = String::new();
        push_str(&mut path, "/nodes/");
        let t = urlencode(id);
        push_str(&mut path, t.as_str());
        push_str(&mut path, "/cordon/");
        let t = urlencode(label);
        push_str(&mut path, t.as_str());
        assert(path@ =~= "/nodes/"@ + encoded(id@) + "/cordon/"@ + encoded(label@));
        prepare(&self.configuration, HttpMethod::Delete, path.as_str(), None)
    }

    /// The request of `put_node_drain`.
    pub fn put_node_drain_request(&self, id: &str, label: &str) -> (r: PreparedRequest)
        ensures
            is_prepared(
                r,
                self.spec_configuration(),
                HttpMethod::Put,
                "/nodes/"@ + encoded(id@) + "/drain/"@ + encoded(label@),
                None,
            ),
    {
        let mut path = String::new();
        push_str(&mut path, "/nodes/");
        let t = urlencode(id);
        push_str(&mut path, t.as_str());
        push_str(&mut path, "/drain/");
        let t = urlencode(label);
        push_str(&mut path, t.as_str());
        assert(path@ =~= "/nodes/"@ + encoded(id@) + "/drain/"@ + encoded(label@));
        prepare(&self.configuration, HttpMethod::Put, path.as_str(), None)
    }

    /// The request of `put_node_label`.
    pub fn put_node_label_request(&self, overwrite: Option<bool>, id: &str, key: &str, value: &str) -> (r: PreparedRequest)
        ensures
            is_prepared(
                r,
                self.spec_configuration(),
                HttpMethod::Put,
                "/nodes/"@ + encoded(id@) + "/label/"@ + encoded(key@) + "="@ + encoded(value@),
                Some(seq![("overwrite"@, opt_bool_text(overwrite))]),
            ),
    {
        let mut path = String::new();
        push_str(&mut path, "/nodes/");
        let t = urlencode(id);
        push_str(&mut path, t.as_str());
        push_str(&mut path, "/label/");
        let t = urlencode(key);
        push_str(&mut path, t.as_str());
        push_str(&mut path, "=");
        let t = urlencode(value);
        push_str(&mut path, t.as_str());
        assert(path@ =~= "/nodes/"@ + encoded(id@) + "/label/"@ + encoded(key@) + "="@ + encoded(value@));
        let mut params: Vec<(&str, Option<String>)> = Vec::new();
        params.push(("overwrite", opt_bool_string(overwrite)));
        assert(param_views(params@) =~= seq![("overwrite"@, opt_bool_text(overwrite))]);
        prepare(&self.configuration, HttpMethod::Put, path.as_str(), Some(&params))
    }

    /// The request of `delete_node_label`.
    pub fn delete_node_label_request(&self, id: &str, key: &str) -> (r: PreparedRequest)
        ensures
            is_prepared(
                r,
                self.spec_configuration(),
                HttpMethod::Delete,
                "/nodes/"@ + encoded(id@) + "/label/"@ + encoded(key@),
                None,
            ),
    {
        let mut path = String::new();
        push_str(&mut path, "/nodes/");
        let t = urlencode(id);
        push_str(&mut path, t.as_str());
        push_str(&mut path, "/label/");
        let t = urlencode(key);
        push_str(&mut path, t.as_str());
        assert(path@ =~= "/nodes/"@ + encoded(id@) + "/label/"@ + encoded(key@));
        prepare(&self.configuration, HttpMethod::Delete, path.as_str(), None)
    }
}

/// Client of the replicas API.
pub struct ReplicasClient {
    configuration: Rc<Configuration>,
}

impl ReplicasClient {
    /// The configuration the client was made with.
    pub closed spec fn spec_configuration(self) -> Configuration {
        *self.configuration
    }

    pub fn new(configuration: Rc<Configuration>) -> (r: Self)
        ensures
            r.spec_configuration() == *configuration,
    {
        Self { configuration }
    }

    /// The request of `get_node_replicas`.
    pub fn get_node_replicas_request(&self, id: &str) -> (r: PreparedRequest)
        ensures
            is_prepared(
                r,
                self.spec_configuration(),
                HttpMethod::Get,
                "/nodes/"@ + encoded(id@) + "/replicas"@,
                None,
            ),
    {
        let mut path = String::new();
        push_str(&mut path, "/nodes/");
        let t = urlencode(id);
        push_str(&mut path, t.as_str());
        push_str(&mut path, "/replicas");
        assert(path@ =~= "/nodes/"@ + encoded(id@) + "/replicas"@);
        prepare(&self.configuration, HttpMethod::Get, path.as_str(), None)
    }

    /// The request of `get_node_pool_replicas`.
    pub fn get_node_pool_replicas_request(&self, node_id: &str, pool_id: &str) -> (r: PreparedRequest)
        ensures
            is_prepared(
                r,
                self.spec_configuration(),
                HttpMethod::Get,
                "/nodes/"@ + encoded(node_id@) + "/pools/"@ + encoded(pool_id@) + "/replicas"@,
                None,
            ),
    {
        let mut path = String::new();
        push_str(&mut path, "/nodes/");
        let t = urlencode(node_id);
        push_str(&mut path, t.as_str());
        push_str(&mut path, "/pools/");
        let t = urlencode(pool_id);
        push_str(&mut path, t.as_str());
        push_str(&mut path, "/replicas");
        assert(path@ =~= "/nodes/"@ + encoded(node_id@) + "/pools/"@ + encoded(pool_id@) + "/replicas"@);
        prepare(&self.configuration, HttpMethod::Get, path.as_str(), None)
    }

    /// The request of `get_node_pool_replica`.
    pub fn get_node_pool_replica_request(&self, node_id: &str, pool_id: &str, replica_id: &Uuid) -> (r: PreparedRequest)
        ensures
            is_prepared(
                r,
                self.spec_configuration(),
                HttpMethod::Get,
                "/nodes/"@ + encoded(node_id@) + "/pools/"@ + encoded(pool_id@) + "/replicas/"@ + replica_id.spec_text(),
                None,
            ),
    {
        let mut path = String::new();
        push_str(&mut path, "/nodes/");
        let t = urlencode(node_id);
        push_str(&mut path, t.as_str());
        push_str(&mut path, "/pools/");
        let t = urlencode(pool_id);
        push_str(&mut path, t.as_str());
        push_str(&mut path, "/replicas/");
        let t = replica_id.to_string();
        push_str(&mut path, t.as_str());
        assert(path@ =~= "/nodes/"@ + encoded(node_id@) + "/pools/"@ + encoded(pool_id@) + "/replicas/"@ + replica_id.spec_text());
        prepare(&self.configuration, HttpMethod::Get, path.as_str(), None)
    }

    /// The request of `put_node_pool_replica`.
    pub fn put_node_pool_replica_request(&self, node_id: &str, pool_id: &str, replica_id: &Uuid) -> (r: PreparedRequest)
        ensures
            is_prepared(
                r,
                self.spec_configuration(),
                HttpMethod::Put,
                "/nodes/"@ + encoded(node_id@) + "/pools/"@ + encoded(pool_id@) + "/replicas/"@ + replica_id.spec_text(),
                None,
            ),
    {
        let mut path = String::new();
        push_str(&mut path, "/nodes/");
        let t = urlencode(node_id);
        push_str(&mut path, t.as_str());
        push_str(&mut path, "/pools/");
        let t = urlencode(pool_id);
        push_str(&mut path, t.as_str());
        push_str(&mut path, "/replicas/");
        let t = replica_id.to_string();
        push_str(&mut path, t.as_str());
        assert(path@ =~= "/nodes/"@ + encoded(node_id@) + "/pools/"@ + encoded(pool_id@) + "/replicas/"@ + replica_id.spec_text());
        prepare(&self.configuration, HttpMethod::Put, path.as_str(), None)
    }

    /// The request of `del_node_pool_replica`.
    pub fn del_node_pool_replica_request(&self, node_id: &str, pool_id: &str, replica_id: &Uuid) -> (r: PreparedRequest)
        ensures
            is_prepared(
                r,
                self.spec_configuration(),
                HttpMethod::Delete,
                "/nodes/"@ + encoded(node_id@) + "/pools/"@ + encoded(pool_id@) + "/replicas/"@ + replica_id.spec_text(),
                None,
            ),
    {
        let mut path = String::new();
        push_str(&mut path, "/nodes/");
        let t = urlencode(node_id);
        push_str(&mut path, t.as_str());
        push_str(&mut path, "/pools/");
        let t = urlencode(pool_id);
        push_str(&mut path, t.as_str());
        push_str(&mut path, "/replicas/");
        let t = replica_id.to_string();
        push_str(&mut path, t.as_str());
        assert(path@ =~= "/nodes/"@ + encoded(node_id@) + "/pools/"@ + encoded(pool_id@) + "/replicas/"@ + replica_id.spec_text());
        prepare(&self.configuration, HttpMethod::Delete, path.as_str(), None)
    }

    /// The request of `del_node_pool_replica_share`.
    pub fn del_node_pool_replica_share_request(&self, node_id: &str, pool_id: &str, replica_id: &Uuid) -> (r: PreparedRequest)
        ensures
            is_prepared(
                r,
                self.spec_configuration(),
                HttpMethod::Delete,
                "/nodes/"@ + encoded(node_id@) + "/pools/"@ + encoded(pool_id@) + "/replicas/"@ + replica_id.spec_text() + "/share"@,
                None,
            ),
    {
        let mut path = String::new();
        push_str(&mut path, "/nodes/");
        let t = urlencode(node_id);
        push_str(&mut path, t.as_str());
        push_str(&mut path, "/pools/");
        let t = urlencode(pool_id);
        push_str(&mut path, t.as_str());
        push_str(&mut path, "/replicas/");
        let t = replica_id.to_string();
        push_str(&mut path, t.as_str());
        push_str(&mut path, "/share");
        assert(path@ =~= "/nodes/"@ + encoded(node_id@) + "/pools/"@ + encoded(pool_id@) + "/replicas/"@ + replica_id.spec_text() + "/share"@);
        prepare(&self.configuration, HttpMethod::Delete, path.as_str(), None)
    }

    /// The request of `put_node_pool_replica_share`.
    pub fn put_node_pool_replica_share_request(&self, allowed_hosts: Option<Vec<String>>, node_id: &str, pool_id: &str, replica_id: &Uuid) -> (r: PreparedRequest)
        ensures
            is_prepared(
                r,
                self.spec_configuration(),
                HttpMethod::Put,
                "/nodes/"@ + encoded(node_id@) + "/pools/"@ + encoded(pool_id@) + "/replicas/"@ + replica_id.spec_text() + "/share/nvmf"@,
                Some(seq![("allowed-hosts"@, opt_joined_text(allowed_hosts))]),
            ),
    {
        let mut path = String::new();
        push_str(&mut path, "/nodes/");
        let t = urlencode(node_id);
        push_str(&mut path, t.as_str());
        push_str(&mut path, "/pools/");
        let t = urlencode(pool_id);
        push_str(&mut path, t.as_str());
        push_str(&mut path, "/replicas/");
        let t = replica_id.to_string();
        push_str(&mut path, t.as_str());
        push_str(&mut path, "/share/nvmf");
        assert(path@ =~= "/nodes/"@ + encoded(node_id@) + "/pools/"@ + encoded(pool_id@) + "/replicas/"@ + replica_id.spec_text() + "/share/nvmf"@);
        let mut params: Vec<(&str, Option<String>)> = Vec::new();
        params.push(("allowed-hosts", opt_joined_string(&allowed_hosts)));
        assert(param_views(params@) =~= seq![("allowed-hosts"@, opt_joined_text(allowed_hosts))]);
        prepare(&self.configuration, HttpMethod::Put, path.as_str(), Some(&params))
    }

    /// The request of `put_pool_replica`.
    pub fn put_pool_replica_request(&self, pool_id: &str, replica_id: &Uuid) -> (r: PreparedRequest)
        ensures
            is_prepared(
                r,
                self.spec_configuration(),
                HttpMethod::Put,
                "/pools/"@ + encoded(pool_id@) + "/replicas/"@ + replica_id.spec_text(),
                None,
            ),
    {
        let mut path = String::new();
        push_str(&mut path, "/pools/");
        let t = urlencode(pool_id);
        push_str(&mut path, t.as_str());
        push_str(&mut path, "/replicas/");
        let t = replica_id.to_string();
        push_str(&mut path, t.as_str());
        assert(path@ =~= "/pools/"@ + encoded(pool_id@) + "/replicas/"@ + replica_id.spec_text());
        prepare(&self.configuration, HttpMethod::Put, path.as_str(), None)
    }

    /// The request of `del_pool_replica`.
    pub fn del_pool_replica_request(&self, pool_id: &str, replica_id: &Uuid) -> (r: PreparedRequest)
        ensures
            is_prepared(
                r,
                self.spec_configuration(),
                HttpMethod::Delete,
                "/pools/"@ + encoded(pool_id@) + "/replicas/"@ + replica_id.spec_text(),
                None,
            ),
    {
        let mut path = String::new();
        push_str(&mut path, "/pools/");
        let t = urlencode(pool_id);
        push_str(&mut path, t.as_str());
        push_str(&mut path, "/replicas/");
        let t = replica_id.to_string();
        push_str(&mut path, t.as_str());
        assert(path@ =~= "/pools/"@ + encoded(pool_id@) + "/replicas/"@ + replica_id.spec_text());
        prepare(&self.configuration, HttpMethod::Delete, path.as_str(), None)
    }

    /// The request of `del_pool_replica_share`.
    pub fn del_pool_replica_share_request(&self, pool_id: &str, replica_id: &Uuid) -> (r: PreparedRequest)
        ensures
            is_prepared(
                r,
                self.spec_configuration(),
                HttpMethod::Delete,
                "/pools/"@ + encoded(pool_id@) + "/replicas/"@ + replica_id.spec_text() + "/share"@,
                None,
            ),
    {
        let mut path = String::new();
        push_str(&mut path, "/pools/");
        let t = urlencode(pool_id);
        push_str(&mut path, t.as_str());
        push_str(&mut path, "/replicas/");
        let t = replica_id.to_string();
        push_str(&mut path, t.as_str());
        push_str(&mut path, "/share");
        assert(path@ =~= "/pools/"@ + encoded(pool_id@) + "/replicas/"@ + replica_id.spec_text() + "/share"@);
        prepare(&self.configuration, HttpMethod::Delete, path.as_str(), None)
    }

    /// The request of `put_pool_replica_share`.
    pub fn put_pool_replica_share_request(&self, allowed_hosts: Option<Vec<String>>, pool_id: &str, replica_id: &Uuid) -> (r: PreparedRequest)
        ensures
            is_prepared(
                r,
                self.spec_configuration(),
                HttpMethod::Put,
                "/pools/"@ + encoded(pool_id@) + "/replicas/"@ + replica_id.spec_text() + "/share/nvmf"@,
                Some(seq![("allowed-hosts"@, opt_joined_text(allowed_hosts))]),
            ),
    {
        let mut path = String::new();
        push_str(&mut path, "/pools/");
        let t = urlencode(pool_id);
        push_str(&mut path, t.as_str());
        push_str(&mut path, "/replicas/");
        let t = replica_id.to_string();
        push_str(&mut path, t.as_str());
        push_str(&mut path, "/share/nvmf");
        assert(path@ =~= "/pools/"@ + encoded(pool_id@) + "/replicas/"@ + replica_id.spec_text() + "/share/nvmf"@);
        let mut params: Vec<(&str, Option<String>)> = Vec::new();
        params.push(("allowed-hosts", opt_joined_string(&allowed_hosts)));
        assert(param_views(params@) =~= seq![("allowed-hosts"@, opt_joined_text(allowed_hosts))]);
        prepare(&self.configuration, HttpMethod::Put, path.as_str(), Some(&params))
    }

    /// The request of `get_replicas`.
    pub fn get_replicas_request(&self) -> (r: PreparedRequest)
        ensures
            is_prepared(
                r,
                self.spec_configuration(),
                HttpMethod::Get,
                "/replicas"@,
                None,
            ),
    {
        let mut path = String::new();
        push_str(&mut path, "/replicas");
        assert(path@ =~= "/replicas"@);
        prepare(&self.configuration, HttpMethod::Get, path.as_str(), None)
    }

    /// The request of `get_replica`.
    pub fn get_replica_request(&self, id: &Uuid) -> (r: PreparedRequest)
        ensures
            is_prepared(
                r,
                self.spec_configuration(),
                HttpMethod::Get,
                "/replicas/"@ + id.spec_text(),
                None,
            ),
    {
        let mut path = String::new();
        push_str(&mut path, "/replicas/");
        let t = id.to_string();
        push_str(&mut path, t.as_str());
        assert(path@ =~= "/replicas/"@ + id.spec_text());
        prepare(&self.configuration, HttpMethod::Get, path.as_str(), None)
    }
}

/// Client of the snapshots API.
pub struct SnapshotsClient {
    configuration: Rc<Configuration>,
}

impl SnapshotsClient {
    /// The configuration the client was made with.
    pub closed spec fn spec_configuration(self) -> Configuration {
        *self.configuration
    }

    pub fn new(configuration: Rc<Configuration>) -> (r: Self)
        ensures
            r.spec_configuration() == *configuration,
    {
        Self { configuration }
    }

    /// The request of `get_volume_snapshot`.
    pub fn get_volume_snapshot_request(&self, volume_id: &Uuid, snapshot_id: &Uuid) -> (r: PreparedRequest)
        ensures
            is_prepared(
                r,
                self.spec_configuration(),
                HttpMethod::Get,
                "/volumes/"@ + volume_id.spec_text() + "/snapshots/"@ + snapshot_id.spec_text(),
                None,
            ),
    {
        let mut path = String::new();
        push_str(&mut path, "/volumes/");
        let t = volume_id.to_string();
        push_str(&mut path, t.as_str());
        push_str(&mut path, "/snapshots/");
        let t = snapshot_id.to_string();
        push_str(&mut path, t.as_str());
        assert(path@ =~= "/volumes/"@ + volume_id.spec_text() + "/snapshots/"@ + snapshot_id.spec_text());
        prepare(&self.configuration, HttpMethod::Get, path.as_str(), None)
    }

    /// The request of `put_volume_snapshot`.
    pub fn put_volume_snapshot_request(&self, volume_id: &Uuid, snapshot_id: &Uuid) -> (r: PreparedRequest)
        ensures
            is_prepared(
                r,
                self.spec_configuration(),
                HttpMethod::Put,
                "/volumes/"@ + volume_id.spec_text() + "/snapshots/"@ + snapshot_id.spec_text(),
                None,
            ),
    {
        let mut path = String::new();
        push_str(&mut path, "/volumes/");
        let t = volume_id.to_string();
        push_str(&mut path, t.as_str());
        push_str(&mut path, "/snapshots/");
        let t = snapshot_id.to_string();
        push_str(&mut path, t.as_str());
        assert(path@ =~= "/volumes/"@ + volume_id.spec_text() + "/snapshots/"@ + snapshot_id.spec_text());
        prepare(&self.configuration, HttpMethod::Put, path.as_str(), None)
    }

    /// The request of `del_volume_snapshot`.
    pub fn del_volume_snapshot_request(&self, volume_id: &Uuid, snapshot_id: &Uuid) -> (r: PreparedRequest)
        ensures
            is_prepared(
                r,
                self.spec_configuration(),
                HttpMethod::Delete,
                "/volumes/"@ + volume_id.spec_text() + "/snapshots/"@ + snapshot_id.spec_text(),
                None,
            ),
    {
        let mut path = String::new();
        push_str(&mut path, "/volumes/");
        let t = volume_id.to_string();
        push_str(&mut path, t.as_str());
        push_str(&mut path, "/snapshots/");
        let t = snapshot_id.to_string();
        push_str(&mut path, t.as_str());
        assert(path@ =~= "/volumes/"@ + volume_id.spec_text() + "/snapshots/"@ + snapshot_id.spec_text());
        prepare(&self.configuration, HttpMethod::Delete, path.as_str(), None)
    }

    /// The request of `get_volume_snapshots`.
    pub fn get_volume_snapshots_request(&self, max_entries: isize, starting_token: Option<isize>, volume_id: &Uuid) -> (r: PreparedRequest)
        ensures
            is_prepared(
                r,
                self.spec_configuration(),
                HttpMethod::Get,
                "/volumes/"@ + volume_id.spec_text() + "/snapshots"@,
                Some(seq![("max_entries"@, Some(signed_decimal(max_entries as int))), ("starting_token"@, opt_signed_text(starting_token))]),
            ),
    {
        let mut path = String::new();
        push_str(&mut path, "/volumes/");
        let t = volume_id.to_string();
        push_str(&mut path, t.as_str());
        push_str(&mut path, "/snapshots");
        assert(path@ =~= "/volumes/"@ + volume_id.spec_text() + "/snapshots"@);
        let mut params: Vec<(&str, Option<String>)> = Vec::new();
        params.push(("max_entries", Some(signed_text(max_entries))));
        params.push(("starting_token", opt_signed_string(starting_token)));
        assert(param_views(params@) =~= seq![("max_entries"@, Some(signed_decimal(max_entries as int))), ("starting_token"@, opt_signed_text(starting_token))]);
        prepare(&self.configuration, HttpMethod::Get, path.as_str(), Some(&params))
    }

    /// The request of `get_volumes_snapshot`.
    pub fn get_volumes_snapshot_request(&self, snapshot_id: &Uuid) -> (r: PreparedRequest)
        ensures
            is_prepared(
                r,
                self.spec_configuration(),
                HttpMethod::Get,
                "/volumes/snapshots/"@ + snapshot_id.spec_text(),
                None,
            ),
    {
        let mut path = String::new();
        push_str(&mut path, "/volumes/snapshots/");
        let t = snapshot_id.to_string();
        push_str(&mut path, t.as_str());
        assert(path@ =~= "/volumes/snapshots/"@ + snapshot_id.spec_text());
        prepare(&self.configuration, HttpMethod::Get, path.as_str(), None)
    }

    /// The request of `del_snapshot`.
    pub fn del_snapshot_request(&self, snapshot_id: &Uuid) -> (r: PreparedRequest)
        ensures
            is_prepared(
                r,
                self.spec_configuration(),
                HttpMethod::Delete,
                "/volumes/snapshots/"@ + snapshot_id.spec_text(),
                None,
            ),
    {
        let mut path = String::new();
        push_str(&mut path, "/volumes/snapshots/");
        let t = snapshot_id.to_string();
        push_str(&mut path, t.as_str());
        assert(path@ =~= "/volumes/snapshots/"@ + snapshot_id.spec_text());
        prepare(&self.configuration, HttpMethod::Delete, path.as_str(), None)
    }

    /// The request of `get_volumes_snapshots`.
    pub fn get_volumes_snapshots_request(&self, snapshot_id: Option<&Uuid>, volume_id: Option<&Uuid>, max_entries: isize, starting_token: Option<isize>) -> (r: PreparedRequest)
        ensures
            is_prepared(
                r,
                self.spec_configuration(),
                HttpMethod::Get,
                "/volumes/snapshots"@,
                Some(seq![("snapshot_id"@, opt_uuid_text(snapshot_id)), ("volume_id"@, opt_uuid_text(volume_id)), ("max_entries"@, Some(signed_decimal(max_entries as int))), ("starting_token"@, opt_signed_text(starting_token))]),
            ),
    {
        let mut path = String::new();
        push_str(&mut path, "/volumes/snapshots");
        assert(path@ =~= "/volumes/snapshots"@);
        let mut params: Vec<(&str, Option<String>)> = Vec::new();
        params.push(("snapshot_id", opt_uuid_string(snapshot_id)));
        params.push(("volume_id", opt_uuid_string(volume_id)));
        params.push(("max_entries", Some(signed_text(max_entries))));
        params.push(("starting_token", opt_signed_string(starting_token)));
        assert(param_views(params@) =~= seq![("snapshot_id"@, opt_uuid_text(snapshot_id)), ("volume_id"@, opt_uuid_text(volume_id)), ("max_entries"@, Some(signed_decimal(max_entries as int))), ("starting_token"@, opt_signed_text(starting_token))]);
        prepare(&self.configuration, HttpMethod::Get, path.as_str(), Some(&params))
    }
}

} // verus!
