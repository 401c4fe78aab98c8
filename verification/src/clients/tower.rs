//! Clients of the APIs over `tower` and `hyper`: the clients themselves, the
//! requests of their operations, the client of all APIs, and what a response
//! turns into.

pub mod direct;

use vstd::prelude::*;
use std::sync::Arc;
use crate::apis::{encoded, signed_decimal, signed_text, urlencode, Uuid};
use crate::clients::{
    is_request, make_request, opt_bool_string, opt_bool_text, opt_joined_string, opt_joined_text,
    opt_signed_string, opt_signed_text, opt_str_string, opt_uuid_string, opt_uuid_text, Configuration,
    Request,
};
use crate::models::HttpMethod;
use crate::object::opt_str_view;
use crate::text::{decimal, push_decimal, push_str};
use crate::apis::param_views;

verus! {

/// Client of the app nodes API.
pub struct AppNodesClient {
    configuration: Arc<Configuration>,
}

impl AppNodesClient {
    /// The configuration the client was made with.
    pub closed spec fn spec_configuration(self) -> Configuration {
        *self.configuration
    }

    pub fn new(configuration: Arc<Configuration>) -> (r: Self)
        ensures
            r.spec_configuration() == *configuration,
    {
        Self { configuration }
    }


    /// The request of `get_app_nodes`.
    pub fn get_app_nodes_request(&self, max_entries: isize, starting_token: Option<isize>) -> (r: Request)
        ensures
            is_request(
                r,
                self.spec_configuration(),
                HttpMethod::Get,
                "/app-nodes"@,
                seq![("max_entries"@, Some(signed_decimal(max_entries as int))), ("starting_token"@, opt_signed_text(starting_token))],
            ),
    {
        let mut path = String::new();
        push_str(&mut path, "/app-nodes");
        assert(path@ =~= "/app-nodes"@);
        let mut params: Vec<(&str, Option<String>)> = Vec::new();
        params.push(("max_entries", Some(signed_text(max_entries))));
        params.push(("starting_token", opt_signed_string(starting_token)));
        assert(param_views(params@) =~= seq![("max_entries"@, Some(signed_decimal(max_entries as int))), ("starting_token"@, opt_signed_text(starting_token))]);
        make_request(&self.configuration, HttpMethod::Get, path.as_str(), &params)
    }

    /// The request of `get_app_node`.
    pub fn get_app_node_request(&self, app_node_id: &str) -> (r: Request)
        ensures
            is_request(
                r,
                self.spec_configuration(),
                HttpMethod::Get,
                "/app-nodes/"@ + encoded(app_node_id@),
                Seq::empty(),
            ),
    {
        let mut path = String::new();
        push_str(&mut path, "/app-nodes/");
        let t = urlencode(app_node_id);
        push_str(&mut path, t.as_str());
        assert(path@ =~= "/app-nodes/"@ + encoded(app_node_id@));
        let params: Vec<(&str, Option<String>)> = Vec::new();
        assert(param_views(params@) =~= Seq::<(Seq<char>, Option<Seq<char>>)>::empty());
        make_request(&self.configuration, HttpMethod::Get, path.as_str(), &params)
    }

    /// The request of `register_app_node`.
    pub fn register_app_node_request(&self, app_node_id: &str) -> (r: Request)
        ensures
            is_request(
                r,
                self.spec_configuration(),
                HttpMethod::Put,
                "/app-nodes/"@ + encoded(app_node_id@),
                Seq::empty(),
            ),
    {
        let mut path = String::new();
        push_str(&mut path, "/app-nodes/");
        let t = urlencode(app_node_id);
        push_str(&mut path, t.as_str());
        assert(path@ =~= "/app-nodes/"@ + encoded(app_node_id@));
        let params: Vec<(&str, Option<String>)> = Vec::new();
        assert(param_views(params@) =~= Seq::<(Seq<char>, Option<Seq<char>>)>::empty());
        make_request(&self.configuration, HttpMethod::Put, path.as_str(), &params)
    }

    /// The request of `deregister_app_node`.
    pub fn deregister_app_node_request(&self, app_node_id: &str) -> (r: Request)
        ensures
            is_request(
                r,
                self.spec_configuration(),
                HttpMethod::Delete,
                "/app-nodes/"@ + encoded(app_node_id@),
                Seq::empty(),
            ),
    {
        let mut path = String::new();
        push_str(&mut path, "/app-nodes/");
        let t = urlencode(app_node_id);
        push_str(&mut path, t.as_str());
        assert(path@ =~= "/app-nodes/"@ + encoded(app_node_id@));
        let params: Vec<(&str, Option<String>)> = Vec::new();
        assert(param_views(params@) =~= Seq::<(Seq<char>, Option<Seq<char>>)>::empty());
        make_request(&self.configuration, HttpMethod::Delete, path.as_str(), &params)
    }

}

/// Client of the block devices API.
pub struct BlockDevicesClient {
    configuration: Arc<Configuration>,
}

impl BlockDevicesClient {
    /// The configuration the client was made with.
    pub closed spec fn spec_configuration(self) -> Configuration {
        *self.configuration
    }

    pub fn new(configuration: Arc<Configuration>) -> (r: Self)
        ensures
            r.spec_configuration() == *configuration,
    {
        Self { configuration }
    }


    /// The request of `get_node_block_devices`.
    pub fn get_node_block_devices_request(&self, all: Option<bool>, node: &str) -> (r: Request)
        ensures
            is_request(
                r,
                self.spec_configuration(),
                HttpMethod::Get,
                "/nodes/"@ + encoded(node@) + "/block_devices"@,
                seq![("all"@, opt_bool_text(all))],
            ),
    {
        let mut path = String::new();
        push_str(&mut path, "/nodes/");
        let t = urlencode(node);
        push_str(&mut path, t.as_str());
        push_str(&mut path, "/block_devices");
        assert(path@ =~= "/nodes/"@ + encoded(node@) + "/block_devices"@);
        let mut params: Vec<(&str, Option<String>)> = Vec::new();
        params.push(("all", opt_bool_string(all)));
        assert(param_views(params@) =~= seq![("all"@, opt_bool_text(all))]);
        make_request(&self.configuration, HttpMethod::Get, path.as_str(), &params)
    }

}

/// Client of the children API.
pub struct ChildrenClient {
    configuration: Arc<Configuration>,
}

impl ChildrenClient {
    /// The configuration the client was made with.
    pub closed spec fn spec_configuration(self) -> Configuration {
        *self.configuration
    }

    pub fn new(configuration: Arc<Configuration>) -> (r: Self)
        ensures
            r.spec_configuration() == *configuration,
    {
        Self { configuration }
    }


    /// The request of `get_nexus_children`.
    pub fn get_nexus_children_request(&self, nexus_id: &Uuid) -> (r: Request)
        ensures
            is_request(
                r,
                self.spec_configuration(),
                HttpMethod::Get,
                "/nexuses/"@ + nexus_id.spec_text() + "/children"@,
                Seq::empty(),
            ),
    {
        let mut path = String::new();
        push_str(&mut path, "/nexuses/");
        let t = nexus_id.to_string();
        push_str(&mut path, t.as_str());
        push_str(&mut path, "/children");
        assert(path@ =~= "/nexuses/"@ + nexus_id.spec_text() + "/children"@);
        let params: Vec<(&str, Option<String>)> = Vec::new();
        assert(param_views(params@) =~= Seq::<(Seq<char>, Option<Seq<char>>)>::empty());
        make_request(&self.configuration, HttpMethod::Get, path.as_str(), &params)
    }

    /// The request of `get_nexus_child`.
    pub fn get_nexus_child_request(&self, nexus_id: &Uuid, child_id: &str) -> (r: Request)
        ensures
            is_request(
                r,
                self.spec_configuration(),
                HttpMethod::Get,
                "/nexuses/"@ + nexus_id.spec_text() + "/children/"@ + encoded(child_id@),
                Seq::empty(),
            ),
    {
        let mut path = String::new();
        push_str(&mut path, "/nexuses/");
        let t = nexus_id.to_string();
        push_str(&mut path, t.as_str());
        push_str(&mut path, "/children/");
        let t = urlencode(child_id);
        push_str(&mut path, t.as_str());
        assert(path@ =~= "/nexuses/"@ + nexus_id.spec_text() + "/children/"@ + encoded(child_id@));
        let params: Vec<(&str, Option<String>)> = Vec::new();
        assert(param_views(params@) =~= Seq::<(Seq<char>, Option<Seq<char>>)>::empty());
        make_request(&self.configuration, HttpMethod::Get, path.as_str(), &params)
    }

    /// The request of `put_nexus_child`.
    pub fn put_nexus_child_request(&self, nexus_id: &Uuid, child_id: &str) -> (r: Request)
        ensures
            is_request(
                r,
                self.spec_configuration(),
                HttpMethod::Put,
                "/nexuses/"@ + nexus_id.spec_text() + "/children/"@ + encoded(child_id@),
                Seq::empty(),
            ),
    {
        let mut path = String::new();
        push_str(&mut path, "/nexuses/");
        let t = nexus_id.to_string();
        push_str(&mut path, t.as_str());
        push_str(&mut path, "/children/");
        let t = urlencode(child_id);
        push_str(&mut path, t.as_str());
        assert(path@ =~= "/nexuses/"@ + nexus_id.spec_text() + "/children/"@ + encoded(child_id@));
        let params: Vec<(&str, Option<String>)> = Vec::new();
        assert(param_views(params@) =~= Seq::<(Seq<char>, Option<Seq<char>>)>::empty());
        make_request(&self.configuration, HttpMethod::Put, path.as_str(), &params)
    }

    /// The request of `del_nexus_child`.
    pub fn del_nexus_child_request(&self, nexus_id: &Uuid, child_id: &str) -> (r: Request)
        ensures
            is_request(
                r,
                self.spec_configuration(),
                HttpMethod::Delete,
                "/nexuses/"@ + nexus_id.spec_text() + "/children/"@ + encoded(child_id@),
                Seq::empty(),
            ),
    {
        let mut path = String::new();
        push_str(&mut path, "/nexuses/");
        let t = nexus_id.to_string();
        push_str(&mut path, t.as_str());
        push_str(&mut path, "/children/");
        let t = urlencode(child_id);
        push_str(&mut path, t.as_str());
        assert(path@ =~= "/nexuses/"@ + nexus_id.spec_text() + "/children/"@ + encoded(child_id@));
        let params: Vec<(&str, Option<String>)> = Vec::new();
        assert(param_views(params@) =~= Seq::<(Seq<char>, Option<Seq<char>>)>::empty());
        make_request(&self.configuration, HttpMethod::Delete, path.as_str(), &params)
    }

    /// The request of `get_node_nexus_children`.
    pub fn get_node_nexus_children_request(&self, node_id: &str, nexus_id: &Uuid) -> (r: Request)
        ensures
            is_request(
                r,
                self.spec_configuration(),
                HttpMethod::Get,
                "/nodes/"@ + encoded(node_id@) + "/nexuses/"@ + nexus_id.spec_text() + "/children"@,
                Seq::empty(),
            ),
    {
        let mut path = String::new();
        push_str(&mut path, "/nodes/");
        let t = urlencode(node_id);
        push_str(&mut path, t.as_str());
        push_str(&mut path, "/nexuses/");
        let t = nexus_id.to_string();
        push_str(&mut path, t.as_str());
        push_str(&mut path, "/children");
        assert(path@ =~= "/nodes/"@ + encoded(node_id@) + "/nexuses/"@ + nexus_id.spec_text() + "/children"@);
        let params: Vec<(&str, Option<String>)> = Vec::new();
        assert(param_views(params@) =~= Seq::<(Seq<char>, Option<Seq<char>>)>::empty());
        make_request(&self.configuration, HttpMethod::Get, path.as_str(), &params)
    }

    /// The request of `get_node_nexus_child`.
    pub fn get_node_nexus_child_request(&self, node_id: &str, nexus_id: &Uuid, child_id: &str) -> (r: Request)
        ensures
            is_request(
                r,
                self.spec_configuration(),
                HttpMethod::Get,
                "/nodes/"@ + encoded(node_id@) + "/nexuses/"@ + nexus_id.spec_text() + "/children/"@ + encoded(child_id@),
                Seq::empty(),
            ),
    {
        let mut path = String::new();
        push_str(&mut path, "/nodes/");
        let t = urlencode(node_id);
        push_str(&mut path, t.as_str());
        push_str(&mut path, "/nexuses/");
        let t = nexus_id.to_string();
        push_str(&mut path, t.as_str());
        push_str(&mut path, "/children/");
        let t = urlencode(child_id);
        push_str(&mut path, t.as_str());
        assert(path@ =~= "/nodes/"@ + encoded(node_id@) + "/nexuses/"@ + nexus_id.spec_text() + "/children/"@ + encoded(child_id@));
        let params: Vec<(&str, Option<String>)> = Vec::new();
        assert(param_views(params@) =~= Seq::<(Seq<char>, Option<Seq<char>>)>::empty());
        make_request(&self.configuration, HttpMethod::Get, path.as_str(), &params)
    }

    /// The request of `put_node_nexus_child`.
    pub fn put_node_nexus_child_request(&self, node_id: &str, nexus_id: &Uuid, child_id: &str) -> (r: Request)
        ensures
            is_request(
                r,
                self.spec_configuration(),
                HttpMethod::Put,
                "/nodes/"@ + encoded(node_id@) + "/nexuses/"@ + nexus_id.spec_text() + "/children/"@ + encoded(child_id@),
                Seq::empty(),
            ),
    {
        let mut path = String::new();
        push_str(&mut path, "/nodes/");
        let t = urlencode(node_id);
        push_str(&mut path, t.as_str());
        push_str(&mut path, "/nexuses/");
        let t = nexus_id.to_string();
        push_str(&mut path, t.as_str());
        push_str(&mut path, "/children/");
        let t = urlencode(child_id);
        push_str(&mut path, t.as_str());
        assert(path@ =~= "/nodes/"@ + encoded(node_id@) + "/nexuses/"@ + nexus_id.spec_text() + "/children/"@ + encoded(child_id@));
        let params: Vec<(&str, Option<String>)> = Vec::new();
        assert(param_views(params@) =~= Seq::<(Seq<char>, Option<Seq<char>>)>::empty());
        make_request(&self.configuration, HttpMethod::Put, path.as_str(), &params)
    }

    /// The request of `del_node_nexus_child`.
    pub fn del_node_nexus_child_request(&self, node_id: &str, nexus_id: &Uuid, child_id: &str) -> (r: Request)
        ensures
            is_request(
                r,
                self.spec_configuration(),
                HttpMethod::Delete,
                "/nodes/"@ + encoded(node_id@) + "/nexuses/"@ + nexus_id.spec_text() + "/children/"@ + encoded(child_id@),
                Seq::empty(),
            ),
    {
        let mut path = String::new();
        push_str(&mut path, "/nodes/");
        let t = urlencode(node_id);
        push_str(&mut path, t.as_str());
        push_str(&mut path, "/nexuses/");
        let t = nexus_id.to_string();
        push_str(&mut path, t.as_str());
        push_str(&mut path, "/children/");
        let t = urlencode(child_id);
        push_str(&mut path, t.as_str());
        assert(path@ =~= "/nodes/"@ + encoded(node_id@) + "/nexuses/"@ + nexus_id.spec_text() + "/children/"@ + encoded(child_id@));
        let params: Vec<(&str, Option<String>)> = Vec::new();
        assert(param_views(params@) =~= Seq::<(Seq<char>, Option<Seq<char>>)>::empty());
        make_request(&self.configuration, HttpMethod::Delete, path.as_str(), &params)
    }

}

/// Client of the JSON gRPC API.
pub struct JsonGrpcClient {
    configuration: Arc<Configuration>,
}

impl JsonGrpcClient {
    /// The configuration the client was made with.
    pub closed spec fn spec_configuration(self) -> Configuration {
        *self.configuration
    }

    pub fn new(configuration: Arc<Configuration>) -> (r: Self)
        ensures
            r.spec_configuration() == *configuration,
    {
        Self { configuration }
    }


    /// The request of `put_node_jsongrpc`.
    pub fn put_node_jsongrpc_request(&self, node: &str, method: &str) -> (r: Request)
        ensures
            is_request(
                r,
                self.spec_configuration(),
                HttpMethod::Put,
                "/nodes/"@ + encoded(node@) + "/jsongrpc/"@ + encoded(method@),
                Seq::empty(),
            ),
    {
        let mut path = String::new();
        push_str(&mut path, "/nodes/");
        let t = urlencode(node);
        push_str(&mut path, t.as_str());
        push_str(&mut path, "/jsongrpc/");
        let t = urlencode(method);
        push_str(&mut path, t.as_str());
        assert(path@ =~= "/nodes/"@ + encoded(node@) + "/jsongrpc/"@ + encoded(method@));
        let params: Vec<(&str, Option<String>)> = Vec::new();
        assert(param_views(params@) =~= Seq::<(Seq<char>, Option<Seq<char>>)>::empty());
        make_request(&self.configuration, HttpMethod::Put, path.as_str(), &params)
    }

}

/// Client of the nexuses API.
pub struct NexusesClient {
    configuration: Arc<Configuration>,
}

impl NexusesClient {
    /// The configuration the client was made with.
    pub closed spec fn spec_configuration(self) -> Configuration {
        *self.configuration
    }

    pub fn new(configuration: Arc<Configuration>) -> (r: Self)
        ensures
            r.spec_configuration() == *configuration,
    {
        Self { configuration }
    }

}

/// Client of the nodes API.
pub struct NodesClient {
    configuration: Arc<Configuration>,
}

impl NodesClient {
    /// The configuration the client was made with.
    pub closed spec fn spec_configuration(self) -> Configuration {
        *self.configuration
    }

    pub fn new(configuration: Arc<Configuration>) -> (r: Self)
        ensures
            r.spec_configuration() == *configuration,
    {
        Self { configuration }
    }


    /// The request of `get_nodes`.
    pub fn get_nodes_request(&self, node_id: Option<&str>) -> (r: Request)
        ensures
            is_request(
                r,
                self.spec_configuration(),
                HttpMethod::Get,
                "/nodes"@,
                seq![("node_id"@, opt_str_view(node_id))],
            ),
    {
        let mut path = String::new();
        push_str(&mut path, "/nodes");
        assert(path@ =~= "/nodes"@);
        let mut params: Vec<(&str, Option<String>)> = Vec::new();
        params.push(("node_id", opt_str_string(node_id)));
        assert(param_views(params@) =~= seq![("node_id"@, opt_str_view(node_id))]);
        make_request(&self.configuration, HttpMethod::Get, path.as_str(), &params)
    }

    /// The request of `get_node`.
    pub fn get_node_request(&self, id: &str) -> (r: Request)
        ensures
            is_request(
                r,
                self.spec_configuration(),
                HttpMethod::Get,
                "/nodes/"@ + encoded(id@),
                Seq::empty(),
            ),
    {
        let mut path = String::new();
        push_str(&mut path, "/nodes/");
        let t = urlencode(id);
        push_str(&mut path, t.as_str());
        assert(path@ =~= "/nodes/"@ + encoded(id@));
        let params: Vec<(&str, Option<String>)> = Vec::new();
        assert(param_views(params@) =~= Seq::<(Seq<char>, Option<Seq<char>>)>::empty());
        make_request(&self.configuration, HttpMethod::Get, path.as_str(), &params)
    }

    /// The request of `put_node_cordon`.
    pub fn put_node_cordon_request(&self, id: &str, label: &str) -> (r: Request)
        ensures
            is_request(
                r,
                self.spec_configuration(),
                HttpMethod::Put,
                "/nodes/"@ + encoded(id@) + "/cordon/"@ + encoded(label@),
                Seq::empty(),
            ),
    {
        let mut path = String::new();
        push_str(&mut path, "/nodes/");
        let t = urlencode(id);
        push_str(&mut path, t.as_str());
        push_str(&mut path, "/cordon/");
        let t = urlencode(label);
        push_str(&mut path, t.as_str());
        assert(path@ =~= "/nodes/"@ + encoded(id@) + "/cordon/"@ + encoded(label@));
        let params: Vec<(&str, Option<String>)> = Vec::new();
        assert(param_views(params@) =~= Seq::<(Seq<char>, Option<Seq<char>>)>::empty());
        make_request(&self.configuration, HttpMethod::Put, path.as_str(), &params)
    }

    /// The request of `delete_node_cordon`.
    pub fn delete_node_cordon_request(&self, id: &str, label: &str) -> (r: Request)
        ensures
            is_request(
                r,
                self.spec_configuration(),
                HttpMethod::Delete,
                "/nodes/"@ + encoded(id@) + "/cordon/"@ + encoded(label@),
                Seq::empty(),
            ),
    {
        let mut path = String::new();
        push_str(&mut path, "/nodes/");
        let t = urlencode(id);
        push_str(&mut path, t.as_str());
        push_str(&mut path, "/cordon/");
        let t = urlencode(label);
        push_str(&mut path, t.as_str());
        assert(path@ =~= "/nodes/"@ + encoded(id@) + "/cordon/"@ + encoded(label@));
        let params: Vec<(&str, Option<String>)> = Vec::new();
        assert(param_views(params@) =~= Seq::<(Seq<char>, Option<Seq<char>>)>::empty());
        make_request(&self.configuration, HttpMethod::Delete, path.as_str(), &params)
    }

    /// The request of `put_node_drain`.
    pub fn put_node_drain_request(&self, id: &str, label: &str) -> (r: Request)
        ensures
            is_request(
                r,
                self.spec_configuration(),
                HttpMethod::Put,
                "/nodes/"@ + encoded(id@) + "/drain/"@ + encoded(label@),
                Seq::empty(),
            ),
    {
        let mut path = String::new();
        push_str(&mut path, "/nodes/");
        let t = urlencode(id);
        push_str(&mut path, t.as_str());
        push_str(&mut path, "/drain/");
        let t = urlencode(label);
        push_str(&mut path, t.as_str());
        assert(path@ =~= "/nodes/"@ + encoded(id@) + "/drain/"@ + encoded(label@));
        let params: Vec<(&str, Option<String>)> = Vec::new();
        assert(param_views(params@) =~= Seq::<(Seq<char>, Option<Seq<char>>)>::empty());
        make_request(&self.configuration, HttpMethod::Put, path.as_str(), &params)
    }

    /// The request of `put_node_label`.
    pub fn put_node_label_request(&self, overwrite: Option<bool>, id: &str, key: &str, value: &str) -> (r: Request)
        ensures
            is_request(
                r,
                self.spec_configuration(),
                HttpMethod::Put,
                "/nodes/"@ + encoded(id@) + "/label/"@ + encoded(key@) + "="@ + encoded(value@),
                seq![("overwrite"@, opt_bool_text(overwrite))],
            ),
    {
        let mut path = String::new();
        push_str(&mut path, "/nodes/");
        let t = urlencode(id);
        push_str(&mut path, t.as_str());
        push_str(&mut path, "/label/");
        let t = urlencode(key);
        push_str(&mut path, t.as_str());
        push_str(&mut path, "=");
        let t = urlencode(value);
        push_str(&mut path, t.as_str());
        assert(path@ =~= "/nodes/"@ + encoded(id@) + "/label/"@ + encoded(key@) + "="@ + encoded(value@));
        let mut params: Vec<(&str, Option<String>)> = Vec::new();
        params.push(("overwrite", opt_bool_string(overwrite)));
        assert(param_views(params@) =~= seq![("overwrite"@, opt_bool_text(overwrite))]);
        make_request(&self.configuration, HttpMethod::Put, path.as_str(), &params)
    }

    /// The request of `delete_node_label`.
    pub fn delete_node_label_request(&self, id: &str, key: &str) -> (r: Request)
        ensures
            is_request(
                r,
                self.spec_configuration(),
                HttpMethod::Delete,
                "/nodes/"@ + encoded(id@) + "/label/"@ + encoded(key@),
                Seq::empty(),
            ),
    {
        let mut path = String::new();
        push_str(&mut path, "/nodes/");
        let t = urlencode(id);
        push_str(&mut path, t.as_str());
        push_str(&mut path, "/label/");
        let t = urlencode(key);
        push_str(&mut path, t.as_str());
        assert(path@ =~= "/nodes/"@ + encoded(id@) + "/label/"@ + encoded(key@));
        let params: Vec<(&str, Option<String>)> = Vec::new();
        assert(param_views(params@) =~= Seq::<(Seq<char>, Option<Seq<char>>)>::empty());
        make_request(&self.configuration, HttpMethod::Delete, path.as_str(), &params)
    }

}

/// Client of the pools API.
pub struct PoolsClient {
    configuration: Arc<Configuration>,
}

impl PoolsClient {
    /// The configuration the client was made with.
    pub closed spec fn spec_configuration(self) -> Configuration {
        *self.configuration
    }

    pub fn new(configuration: Arc<Configuration>) -> (r: Self)
        ensures
            r.spec_configuration() == *configuration,
    {
        Self { configuration }
    }

}

/// Client of the replicas API.
pub struct ReplicasClient {
    configuration: Arc<Configuration>,
}

impl ReplicasClient {
    /// The configuration the client was made with.
    pub closed spec fn spec_configuration(self) -> Configuration {
        *self.configuration
    }

    pub fn new(configuration: Arc<Configuration>) -> (r: Self)
        ensures
            r.spec_configuration() == *configuration,
    {
        Self { configuration }
    }


    /// The request of `get_node_replicas`.
    pub fn get_node_replicas_request(&self, id: &str) -> (r: Request)
        ensures
            is_request(
                r,
                self.spec_configuration(),
                HttpMethod::Get,
                "/nodes/"@ + encoded(id@) + "/replicas"@,
                Seq::empty(),
            ),
    {
        let mut path = String::new();
        push_str(&mut path, "/nodes/");
        let t = urlencode(id);
        push_str(&mut path, t.as_str());
        push_str(&mut path, "/replicas");
        assert(path@ =~= "/nodes/"@ + encoded(id@) + "/replicas"@);
        let params: Vec<(&str, Option<String>)> = Vec::new();
        assert(param_views(params@) =~= Seq::<(Seq<char>, Option<Seq<char>>)>::empty());
        make_request(&self.configuration, HttpMethod::Get, path.as_str(), &params)
    }

    /// The request of `get_node_pool_replicas`.
    pub fn get_node_pool_replicas_request(&self, node_id: &str, pool_id: &str) -> (r: Request)
        ensures
            is_request(
                r,
                self.spec_configuration(),
                HttpMethod::Get,
                "/nodes/"@ + encoded(node_id@) + "/pools/"@ + encoded(pool_id@) + "/replicas"@,
                Seq::empty(),
            ),
    {
        let mut path = String::new();
        push_str(&mut path, "/nodes/");
        let t = urlencode(node_id);
        push_str(&mut path, t.as_str());
        push_str(&mut path, "/pools/");
        let t = urlencode(pool_id);
        push_str(&mut path, t.as_str());
        push_str(&mut path, "/replicas");
        assert(path@ =~= "/nodes/"@ + encoded(node_id@) + "/pools/"@ + encoded(pool_id@) + "/replicas"@);
        let params: Vec<(&str, Option<String>)> = Vec::new();
        assert(param_views(params@) =~= Seq::<(Seq<char>, Option<Seq<char>>)>::empty());
        make_request(&self.configuration, HttpMethod::Get, path.as_str(), &params)
    }

    /// The request of `get_node_pool_replica`.
    pub fn get_node_pool_replica_request(&self, node_id: &str, pool_id: &str, replica_id: &Uuid) -> (r: Request)
        ensures
            is_request(
                r,
                self.spec_configuration(),
                HttpMethod::Get,
                "/nodes/"@ + encoded(node_id@) + "/pools/"@ + encoded(pool_id@) + "/replicas/"@ + replica_id.spec_text(),
                Seq::empty(),
            ),
    {
        let mut path = String::new();
        push_str(&mut path, "/nodes/");
        let t = urlencode(node_id);
        push_str(&mut path, t.as_str());
        push_str(&mut path, "/pools/");
        let t = urlencode(pool_id);
        push_str(&mut path, t.as_str());
        push_str(&mut path, "/replicas/");
        let t = replica_id.to_string();
        push_str(&mut path, t.as_str());
        assert(path@ =~= "/nodes/"@ + encoded(node_id@) + "/pools/"@ + encoded(pool_id@) + "/replicas/"@ + replica_id.spec_text());
        let params: Vec<(&str, Option<String>)> = Vec::new();
        assert(param_views(params@) =~= Seq::<(Seq<char>, Option<Seq<char>>)>::empty());
        make_request(&self.configuration, HttpMethod::Get, path.as_str(), &params)
    }

    /// The request of `put_node_pool_replica`.
    pub fn put_node_pool_replica_request(&self, node_id: &str, pool_id: &str, replica_id: &Uuid) -> (r: Request)
        ensures
            is_request(
                r,
                self.spec_configuration(),
                HttpMethod::Put,
                "/nodes/"@ + encoded(node_id@) + "/pools/"@ + encoded(pool_id@) + "/replicas/"@ + replica_id.spec_text(),
                Seq::empty(),
            ),
    {
        let mut path = String::new();
        push_str(&mut path, "/nodes/");
        let t = urlencode(node_id);
        push_str(&mut path, t.as_str());
        push_str(&mut path, "/pools/");
        let t = urlencode(pool_id);
        push_str(&mut path, t.as_str());
        push_str(&mut path, "/replicas/");
        let t = replica_id.to_string();
        push_str(&mut path, t.as_str());
        assert(path@ =~= "/nodes/"@ + encoded(node_id@) + "/pools/"@ + encoded(pool_id@) + "/replicas/"@ + replica_id.spec_text());
        let params: Vec<(&str, Option<String>)> = Vec::new();
        assert(param_views(params@) =~= Seq::<(Seq<char>, Option<Seq<char>>)>::empty());
        make_request(&self.configuration, HttpMethod::Put, path.as_str(), &params)
    }

    /// The request of `del_node_pool_replica`.
    pub fn del_node_pool_replica_request(&self, node_id: &str, pool_id: &str, replica_id: &Uuid) -> (r: Request)
        ensures
            is_request(
                r,
                self.spec_configuration(),
                HttpMethod::Delete,
                "/nodes/"@ + encoded(node_id@) + "/pools/"@ + encoded(pool_id@) + "/replicas/"@ + replica_id.spec_text(),
                Seq::empty(),
            ),
    {
        let mut path = String::new();
        push_str(&mut path, "/nodes/");
        let t = urlencode(node_id);
        push_str(&mut path, t.as_str());
        push_str(&mut path, "/pools/");
        let t = urlencode(pool_id);
        push_str(&mut path, t.as_str());
        push_str(&mut path, "/replicas/");
        let t = replica_id.to_string();
        push_str(&mut path, t.as_str());
        assert(path@ =~= "/nodes/"@ + encoded(node_id@) + "/pools/"@ + encoded(pool_id@) + "/replicas/"@ + replica_id.spec_text());
        let params: Vec<(&str, Option<String>)> = Vec::new();
        assert(param_views(params@) =~= Seq::<(Seq<char>, Option<Seq<char>>)>::empty());
        make_request(&self.configuration, HttpMethod::Delete, path.as_str(), &params)
    }

    /// The request of `del_node_pool_replica_share`.
    pub fn del_node_pool_replica_share_request(&self, node_id: &str, pool_id: &str, replica_id: &Uuid) -> (r: Request)
        ensures
            is_request(
                r,
                self.spec_configuration(),
                HttpMethod::Delete,
                "/nodes/"@ + encoded(node_id@) + "/pools/"@ + encoded(pool_id@) + "/replicas/"@ + replica_id.spec_text() + "/share"@,
                Seq::empty(),
            ),
    {
        let mut path = String::new();
        push_str(&mut path, "/nodes/");
        let t = urlencode(node_id);
        push_str(&mut path, t.as_str());
        push_str(&mut path, "/pools/");
        let t = urlencode(pool_id);
        push_str(&mut path, t.as_str());
        push_str(&mut path, "/replicas/");
        let t = replica_id.to_string();
        push_str(&mut path, t.as_str());
        push_str(&mut path, "/share");
        assert(path@ =~= "/nodes/"@ + encoded(node_id@) + "/pools/"@ + encoded(pool_id@) + "/replicas/"@ + replica_id.spec_text() + "/share"@);
        let params: Vec<(&str, Option<String>)> = Vec::new();
        assert(param_views(params@) =~= Seq::<(Seq<char>, Option<Seq<char>>)>::empty());
        make_request(&self.configuration, HttpMethod::Delete, path.as_str(), &params)
    }

    /// The request of `put_node_pool_replica_share`.
    pub fn put_node_pool_replica_share_request(&self, allowed_hosts: Option<Vec<String>>, node_id: &str, pool_id: &str, replica_id: &Uuid) -> (r: Request)
        ensures
            is_request(
                r,
                self.spec_configuration(),
                HttpMethod::Put,
                "/nodes/"@ + encoded(node_id@) + "/pools/"@ + encoded(pool_id@) + "/replicas/"@ + replica_id.spec_text() + "/share/nvmf"@,
                seq![("allowed-hosts"@, opt_joined_text(allowed_hosts))],
            ),
    {
        let mut path = String::new();
        push_str(&mut path, "/nodes/");
        let t = urlencode(node_id);
        push_str(&mut path, t.as_str());
        push_str(&mut path, "/pools/");
        let t = urlencode(pool_id);
        push_str(&mut path, t.as_str());
        push_str(&mut path, "/replicas/");
        let t = replica_id.to_string();
        push_str(&mut path, t.as_str());
        push_str(&mut path, "/share/nvmf");
        assert(path@ =~= "/nodes/"@ + encoded(node_id@) + "/pools/"@ + encoded(pool_id@) + "/replicas/"@ + replica_id.spec_text() + "/share/nvmf"@);
        let mut params: Vec<(&str, Option<String>)> = Vec::new();
        params.push(("allowed-hosts", opt_joined_string(&allowed_hosts)));
        assert(param_views(params@) =~= seq![("allowed-hosts"@, opt_joined_text(allowed_hosts))]);
        make_request(&self.configuration, HttpMethod::Put, path.as_str(), &params)
    }

    /// The request of `put_pool_replica`.
    pub fn put_pool_replica_request(&self, pool_id: &str, replica_id: &Uuid) -> (r: Request)
        ensures
            is_request(
                r,
                self.spec_configuration(),
                HttpMethod::Put,
                "/pools/"@ + encoded(pool_id@) + "/replicas/"@ + replica_id.spec_text(),
                Seq::empty(),
            ),
    {
        let mut path = String::new();
        push_str(&mut path, "/pools/");
        let t = urlencode(pool_id);
        push_str(&mut path, t.as_str());
        push_str(&mut path, "/replicas/");
        let t = replica_id.to_string();
        push_str(&mut path, t.as_str());
        assert(path@ =~= "/pools/"@ + encoded(pool_id@) + "/replicas/"@ + replica_id.spec_text());
        let params: Vec<(&str, Option<String>)> = Vec::new();
        assert(param_views(params@) =~= Seq::<(Seq<char>, Option<Seq<char>>)>::empty());
        make_request(&self.configuration, HttpMethod::Put, path.as_str(), &params)
    }

    /// The request of `del_pool_replica`.
    pub fn del_pool_replica_request(&self, pool_id: &str, replica_id: &Uuid) -> (r: Request)
        ensures
            is_request(
                r,
                self.spec_configuration(),
                HttpMethod::Delete,
                "/pools/"@ + encoded(pool_id@) + "/replicas/"@ + replica_id.spec_text(),
                Seq::empty(),
            ),
    {
        let mut path = String::new();
        push_str(&mut path, "/pools/");
        let t = urlencode(pool_id);
        push_str(&mut path, t.as_str());
        push_str(&mut path, "/replicas/");
        let t = replica_id.to_string();
        push_str(&mut path, t.as_str());
        assert(path@ =~= "/pools/"@ + encoded(pool_id@) + "/replicas/"@ + replica_id.spec_text());
        let params: Vec<(&str, Option<String>)> = Vec::new();
        assert(param_views(params@) =~= Seq::<(Seq<char>, Option<Seq<char>>)>::empty());
        make_request(&self.configuration, HttpMethod::Delete, path.as_str(), &params)
    }

    /// The request of `del_pool_replica_share`.
    pub fn del_pool_replica_share_request(&self, pool_id: &str, replica_id: &Uuid) -> (r: Request)
        ensures
            is_request(
                r,
                self.spec_configuration(),
                HttpMethod::Delete,
                "/pools/"@ + encoded(pool_id@) + "/replicas/"@ + replica_id.spec_text() + "/share"@,
                Seq::empty(),
            ),
    {
        let mut path = String::new();
        push_str(&mut path, "/pools/");
        let t = urlencode(pool_id);
        push_str(&mut path, t.as_str());
        push_str(&mut path, "/replicas/");
        let t = replica_id.to_string();
        push_str(&mut path, t.as_str());
        push_str(&mut path, "/share");
        assert(path@ =~= "/pools/"@ + encoded(pool_id@) + "/replicas/"@ + replica_id.spec_text() + "/share"@);
        let params: Vec<(&str, Option<String>)> = Vec::new();
        assert(param_views(params@) =~= Seq::<(Seq<char>, Option<Seq<char>>)>::empty());
        make_request(&self.configuration, HttpMethod::Delete, path.as_str(), &params)
    }

    /// The request of `put_pool_replica_share`.
    pub fn put_pool_replica_share_request(&self, allowed_hosts: Option<Vec<String>>, pool_id: &str, replica_id: &Uuid) -> (r: Request)
        ensures
            is_request(
                r,
                self.spec_configuration(),
                HttpMethod::Put,
                "/pools/"@ + encoded(pool_id@) + "/replicas/"@ + replica_id.spec_text() + "/share/nvmf"@,
                seq![("allowed-hosts"@, opt_joined_text(allowed_hosts))],
            ),
    {
        let mut path = String::new();
        push_str(&mut path, "/pools/");
        let t = urlencode(pool_id);
        push_str(&mut path, t.as_str());
        push_str(&mut path, "/replicas/");
        let t = replica_id.to_string();
        push_str(&mut path, t.as_str());
        push_str(&mut path, "/share/nvmf");
        assert(path@ =~= "/pools/"@ + encoded(pool_id@) + "/replicas/"@ + replica_id.spec_text() + "/share/nvmf"@);
        let mut params: Vec<(&str, Option<String>)> = Vec::new();
        params.push(("allowed-hosts", opt_joined_string(&allowed_hosts)));
        assert(param_views(params@) =~= seq![("allowed-hosts"@, opt_joined_text(allowed_hosts))]);
        make_request(&self.configuration, HttpMethod::Put, path.as_str(), &params)
    }

    /// The request of `get_replicas`.
    pub fn get_replicas_request(&self) -> (r: Request)
        ensures
            is_request(
                r,
                self.spec_configuration(),
                HttpMethod::Get,
                "/replicas"@,
                Seq::empty(),
            ),
    {
        let mut path = String::new();
        push_str(&mut path, "/replicas");
        assert(path@ =~= "/replicas"@);
        let params: Vec<(&str, Option<String>)> = Vec::new();
        assert(param_views(params@) =~= Seq::<(Seq<char>, Option<Seq<char>>)>::empty());
        make_request(&self.configuration, HttpMethod::Get, path.as_str(), &params)
    }

    /// The request of `get_replica`.
    pub fn get_replica_request(&self, id: &Uuid) -> (r: Request)
        ensures
            is_request(
                r,
                self.spec_configuration(),
                HttpMethod::Get,
                "/replicas/"@ + id.spec_text(),
                Seq::empty(),
            ),
    {
        let mut path = String::new();
        push_str(&mut path, "/replicas/");
        let t = id.to_string();
        push_str(&mut path, t.as_str());
        assert(path@ =~= "/replicas/"@ + id.spec_text());
        let params: Vec<(&str, Option<String>)> = Vec::new();
        assert(param_views(params@) =~= Seq::<(Seq<char>, Option<Seq<char>>)>::empty());
        make_request(&self.configuration, HttpMethod::Get, path.as_str(), &params)
    }

}

/// Client of the snapshots API.
pub struct SnapshotsClient {
    configuration: Arc<Configuration>,
}

impl SnapshotsClient {
    /// The configuration the client was made with.
    pub closed spec fn spec_configuration(self) -> Configuration {
        *self.configuration
    }

    pub fn new(configuration: Arc<Configuration>) -> (r: Self)
        ensures
            r.spec_configuration() == *configuration,
    {
        Self { configuration }
    }

}

/// Client of the specs API.
pub struct SpecsClient {
    configuration: Arc<Configuration>,
}

impl SpecsClient {
    /// The configuration the client was made with.
    pub closed spec fn spec_configuration(self) -> Configuration {
        *self.configuration
    }

    pub fn new(configuration: Arc<Configuration>) -> (r: Self)
        ensures
            r.spec_configuration() == *configuration,
    {
        Self { configuration }
    }

}

/// Client of the volumes API.
pub struct VolumesClient {
    configuration: Arc<Configuration>,
}

impl VolumesClient {
    /// The configuration the client was made with.
    pub closed spec fn spec_configuration(self) -> Configuration {
        *self.configuration
    }

    pub fn new(configuration: Arc<Configuration>) -> (r: Self)
        ensures
            r.spec_configuration() == *configuration,
    {
        Self { configuration }
    }


    /// The request of `get_volumes`.
    pub fn get_volumes_request(&self, volume_id: Option<&Uuid>, max_entries: isize, starting_token: Option<isize>) -> (r: Request)
        ensures
            is_request(
                r,
                self.spec_configuration(),
                HttpMethod::Get,
                "/volumes"@,
                seq![("volume_id"@, opt_uuid_text(volume_id)), ("max_entries"@, Some(signed_decimal(max_entries as int))), ("starting_token"@, opt_signed_text(starting_token))],
            ),
    {
        let mut path = String::new();
        push_str(&mut path, "/volumes");
        assert(path@ =~= "/volumes"@);
        let mut params: Vec<(&str, Option<String>)> = Vec::new();
        params.push(("volume_id", opt_uuid_string(volume_id)));
        params.push(("max_entries", Some(signed_text(max_entries))));
        params.push(("starting_token", opt_signed_string(starting_token)));
        assert(param_views(params@) =~= seq![("volume_id"@, opt_uuid_text(volume_id)), ("max_entries"@, Some(signed_decimal(max_entries as int))), ("starting_token"@, opt_signed_text(starting_token))]);
        make_request(&self.configuration, HttpMethod::Get, path.as_str(), &params)
    }

    /// The request of `get_volume`.
    pub fn get_volume_request(&self, volume_id: &Uuid) -> (r: Request)
        ensures
            is_request(
                r,
                self.spec_configuration(),
                HttpMethod::Get,
                "/volumes/"@ + volume_id.spec_text(),
                Seq::empty(),
            ),
    {
        let mut path = String::new();
        push_str(&mut path, "/volumes/");
        let t = volume_id.to_string();
        push_str(&mut path, t.as_str());
        assert(path@ =~= "/volumes/"@ + volume_id.spec_text());
        let params: Vec<(&str, Option<String>)> = Vec::new();
        assert(param_views(params@) =~= Seq::<(Seq<char>, Option<Seq<char>>)>::empty());
        make_request(&self.configuration, HttpMethod::Get, path.as_str(), &params)
    }

    /// The request of `put_volume`.
    pub fn put_volume_request(&self, volume_id: &Uuid) -> (r: Request)
        ensures
            is_request(
                r,
                self.spec_configuration(),
                HttpMethod::Put,
                "/volumes/"@ + volume_id.spec_text(),
                Seq::empty(),
            ),
    {
        let mut path = String::new();
        push_str(&mut path, "/volumes/");
        let t = volume_id.to_string();
        push_str(&mut path, t.as_str());
        assert(path@ =~= "/volumes/"@ + volume_id.spec_text());
        let params: Vec<(&str, Option<String>)> = Vec::new();
        assert(param_views(params@) =~= Seq::<(Seq<char>, Option<Seq<char>>)>::empty());
        make_request(&self.configuration, HttpMethod::Put, path.as_str(), &params)
    }

    /// The request of `del_volume`.
    pub fn del_volume_request(&self, volume_id: &Uuid) -> (r: Request)
        ensures
            is_request(
                r,
                self.spec_configuration(),
                HttpMethod::Delete,
                "/volumes/"@ + volume_id.spec_text(),
                Seq::empty(),
            ),
    {
        let mut path = String::new();
        push_str(&mut path, "/volumes/");
        let t = volume_id.to_string();
        push_str(&mut path, t.as_str());
        assert(path@ =~= "/volumes/"@ + volume_id.spec_text());
        let params: Vec<(&str, Option<String>)> = Vec::new();
        assert(param_views(params@) =~= Seq::<(Seq<char>, Option<Seq<char>>)>::empty());
        make_request(&self.configuration, HttpMethod::Delete, path.as_str(), &params)
    }

    /// The request of `put_volume_replica_count`.
    pub fn put_volume_replica_count_request(&self, volume_id: &Uuid, replica_count: u8) -> (r: Request)
        ensures
            is_request(
                r,
                self.spec_configuration(),
                HttpMethod::Put,
                "/volumes/"@ + volume_id.spec_text() + "/replica_count/"@ + decimal(replica_count as nat),
                Seq::empty(),
            ),
    {
        let mut path = String::new();
        push_str(&mut path, "/volumes/");
        let t = volume_id.to_string();
        push_str(&mut path, t.as_str());
        push_str(&mut path, "/replica_count/");
        push_decimal(&mut path, replica_count as usize);
        assert(path@ =~= "/volumes/"@ + volume_id.spec_text() + "/replica_count/"@ + decimal(replica_count as nat));
        let params: Vec<(&str, Option<String>)> = Vec::new();
        assert(param_views(params@) =~= Seq::<(Seq<char>, Option<Seq<char>>)>::empty());
        make_request(&self.configuration, HttpMethod::Put, path.as_str(), &params)
    }

    /// The request of `put_volume_target`.
    pub fn put_volume_target_request(&self, volume_id: &Uuid) -> (r: Request)
        ensures
            is_request(
                r,
                self.spec_configuration(),
                HttpMethod::Put,
                "/volumes/"@ + volume_id.spec_text() + "/target"@,
                Seq::empty(),
            ),
    {
        let mut path = String::new();
        push_str(&mut path, "/volumes/");
        let t = volume_id.to_string();
        push_str(&mut path, t.as_str());
        push_str(&mut path, "/target");
        assert(path@ =~= "/volumes/"@ + volume_id.spec_text() + "/target"@);
        let params: Vec<(&str, Option<String>)> = Vec::new();
        assert(param_views(params@) =~= Seq::<(Seq<char>, Option<Seq<char>>)>::empty());
        make_request(&self.configuration, HttpMethod::Put, path.as_str(), &params)
    }

    /// The request of `del_volume_target`.
    pub fn del_volume_target_request(&self, force: Option<bool>, volume_id: &Uuid) -> (r: Request)
        ensures
            is_request(
                r,
                self.spec_configuration(),
                HttpMethod::Delete,
                "/volumes/"@ + volume_id.spec_text() + "/target"@,
                seq![("force"@, opt_bool_text(force))],
            ),
    {
        let mut path = String::new();
        push_str(&mut path, "/volumes/");
        let t = volume_id.to_string();
        push_str(&mut path, t.as_str());
        push_str(&mut path, "/target");
        assert(path@ =~= "/volumes/"@ + volume_id.spec_text() + "/target"@);
        let mut params: Vec<(&str, Option<String>)> = Vec::new();
        params.push(("force", opt_bool_string(force)));
        assert(param_views(params@) =~= seq![("force"@, opt_bool_text(force))]);
        make_request(&self.configuration, HttpMethod::Delete, path.as_str(), &params)
    }

    /// The request of `del_volume_shutdown_targets`.
    pub fn del_volume_shutdown_targets_request(&self, volume_id: &Uuid) -> (r: Request)
        ensures
            is_request(
                r,
                self.spec_configuration(),
                HttpMethod::Delete,
                "/volumes/"@ + volume_id.spec_text() + "/shutdown_targets"@,
                Seq::empty(),
            ),
    {
        let mut path = String::new();
        push_str(&mut path, "/volumes/");
        let t = volume_id.to_string();
        push_str(&mut path, t.as_str());
        push_str(&mut path, "/shutdown_targets");
        assert(path@ =~= "/volumes/"@ + volume_id.spec_text() + "/shutdown_targets"@);
        let params: Vec<(&str, Option<String>)> = Vec::new();
        assert(param_views(params@) =~= Seq::<(Seq<char>, Option<Seq<char>>)>::empty());
        make_request(&self.configuration, HttpMethod::Delete, path.as_str(), &params)
    }

    /// The request of `put_volume_share`.
    pub fn put_volume_share_request(&self, frontend_host: Option<&str>, volume_id: &Uuid, protocol: &str) -> (r: Request)
        ensures
            is_request(
                r,
                self.spec_configuration(),
                HttpMethod::Put,
                "/volumes/"@ + volume_id.spec_text() + "/share/"@ + encoded(protocol@),
                seq![("frontend_host"@, opt_str_view(frontend_host))],
            ),
    {
        let mut path = String::new();
        push_str(&mut path, "/volumes/");
        let t = volume_id.to_string();
        push_str(&mut path, t.as_str());
        push_str(&mut path, "/share/");
        let t = urlencode(protocol);
        push_str(&mut path, t.as_str());
        assert(path@ =~= "/volumes/"@ + volume_id.spec_text() + "/share/"@ + encoded(protocol@));
        let mut params: Vec<(&str, Option<String>)> = Vec::new();
        params.push(("frontend_host", opt_str_string(frontend_host)));
        assert(param_views(params@) =~= seq![("frontend_host"@, opt_str_view(frontend_host))]);
        make_request(&self.configuration, HttpMethod::Put, path.as_str(), &params)
    }

    /// The request of `del_share`.
    pub fn del_share_request(&self, volume_id: &Uuid) -> (r: Request)
        ensures
            is_request(
                r,
                self.spec_configuration(),
                HttpMethod::Delete,
                "/volumes"@ + volume_id.spec_text() + "/share"@,
                Seq::empty(),
            ),
    {
        let mut path = String::new();
        push_str(&mut path, "/volumes");
        let t = volume_id.to_string();
        push_str(&mut path, t.as_str());
        push_str(&mut path, "/share");
        assert(path@ =~= "/volumes"@ + volume_id.spec_text() + "/share"@);
        let params: Vec<(&str, Option<String>)> = Vec::new();
        assert(param_views(params@) =~= Seq::<(Seq<char>, Option<Seq<char>>)>::empty());
        make_request(&self.configuration, HttpMethod::Delete, path.as_str(), &params)
    }

}

/// Client of the watches API.
pub struct WatchesClient {
    configuration: Arc<Configuration>,
}

impl WatchesClient {
    /// The configuration the client was made with.
    pub closed spec fn spec_configuration(self) -> Configuration {
        *self.configuration
    }

    pub fn new(configuration: Arc<Configuration>) -> (r: Self)
        ensures
            r.spec_configuration() == *configuration,
    {
        Self { configuration }
    }

}

/// Shares the configuration: a new pointer to the same value.
#[verifier::external_body]
pub(crate) fn share(c: &Arc<Configuration>) -> (r: Arc<Configuration>)
    ensures
        *r == **c,
{
    Arc::clone(c)
}

/// Client of all the APIs, over one shared configuration.
pub struct ApiClient {
    block_devices_api: BlockDevicesClient,
    children_api: ChildrenClient,
    json_grpc_api: JsonGrpcClient,
    nexuses_api: NexusesClient,
    nodes_api: NodesClient,
    pools_api: PoolsClient,
    replicas_api: ReplicasClient,
    snapshots_api: SnapshotsClient,
    specs_api: SpecsClient,
    volumes_api: VolumesClient,
    watches_api: WatchesClient,
}

impl ApiClient {
    /// The client of the `block_devices` operations.
    pub closed spec fn spec_block_devices_api(self) -> BlockDevicesClient {
        self.block_devices_api
    }

    /// The client of the `children` operations.
    pub closed spec fn spec_children_api(self) -> ChildrenClient {
        self.children_api
    }

    /// The client of the `json_grpc` operations.
    pub closed spec fn spec_json_grpc_api(self) -> JsonGrpcClient {
        self.json_grpc_api
    }

    /// The client of the `nexuses` operations.
    pub closed spec fn spec_nexuses_api(self) -> NexusesClient {
        self.nexuses_api
    }

    /// The client of the `nodes` operations.
    pub closed spec fn spec_nodes_api(self) -> NodesClient {
        self.nodes_api
    }

    /// The client of the `pools` operations.
    pub closed spec fn spec_pools_api(self) -> PoolsClient {
        self.pools_api
    }

    /// The client of the `replicas` operations.
    pub closed spec fn spec_replicas_api(self) -> ReplicasClient {
        self.replicas_api
    }

    /// The client of the `snapshots` operations.
    pub closed spec fn spec_snapshots_api(self) -> SnapshotsClient {
        self.snapshots_api
    }

    /// The client of the `specs` operations.
    pub closed spec fn spec_specs_api(self) -> SpecsClient {
        self.specs_api
    }

    /// The client of the `volumes` operations.
    pub closed spec fn spec_volumes_api(self) -> VolumesClient {
        self.volumes_api
    }

    /// The client of the `watches` operations.
    pub closed spec fn spec_watches_api(self) -> WatchesClient {
        self.watches_api
    }

    /// Whether every client of this client was made with `c`.
    pub open spec fn shares(self, c: Configuration) -> bool {
        &&& self.spec_block_devices_api().spec_configuration() == c
        &&& self.spec_children_api().spec_configuration() == c
        &&& self.spec_json_grpc_api().spec_configuration() == c
        &&& self.spec_nexuses_api().spec_configuration() == c
        &&& self.spec_nodes_api().spec_configuration() == c
        &&& self.spec_pools_api().spec_configuration() == c
        &&& self.spec_replicas_api().spec_configuration() == c
        &&& self.spec_snapshots_api().spec_configuration() == c
        &&& self.spec_specs_api().spec_configuration() == c
        &&& self.spec_volumes_api().spec_configuration() == c
        &&& self.spec_watches_api().spec_configuration() == c
    }

    pub fn new(configuration: Configuration) -> (r: ApiClient)
        ensures
            r.shares(configuration),
    {
        let rc = Arc::new(configuration);
        ApiClient {
            block_devices_api: BlockDevicesClient::new(share(&rc)),
            children_api: ChildrenClient::new(share(&rc)),
            json_grpc_api: JsonGrpcClient::new(share(&rc)),
            nexuses_api: NexusesClient::new(share(&rc)),
            nodes_api: NodesClient::new(share(&rc)),
            pools_api: PoolsClient::new(share(&rc)),
            replicas_api: ReplicasClient::new(share(&rc)),
            snapshots_api: SnapshotsClient::new(share(&rc)),
            specs_api: SpecsClient::new(share(&rc)),
            volumes_api: VolumesClient::new(share(&rc)),
            watches_api: WatchesClient::new(rc),
        }
    }

    pub fn block_devices_api(&self) -> (r: &BlockDevicesClient)
        ensures
            *r == self.spec_block_devices_api(),
    {
        &self.block_devices_api
    }

    pub fn children_api(&self) -> (r: &ChildrenClient)
        ensures
            *r == self.spec_children_api(),
    {
        &self.children_api
    }

    pub fn json_grpc_api(&self) -> (r: &JsonGrpcClient)
        ensures
            *r == self.spec_json_grpc_api(),
    {
        &self.json_grpc_api
    }

    pub fn nexuses_api(&self) -> (r: &NexusesClient)
        ensures
            *r == self.spec_nexuses_api(),
    {
        &self.nexuses_api
    }

    pub fn nodes_api(&self) -> (r: &NodesClient)
        ensures
            *r == self.spec_nodes_api(),
    {
        &self.nodes_api
    }

    pub fn pools_api(&self) -> (r: &PoolsClient)
        ensures
            *r == self.spec_pools_api(),
    {
        &self.pools_api
    }

    pub fn replicas_api(&self) -> (r: &ReplicasClient)
        ensures
            *r == self.spec_replicas_api(),
    {
        &self.replicas_api
    }

    pub fn snapshots_api(&self) -> (r: &SnapshotsClient)
        ensures
            *r == self.spec_snapshots_api(),
    {
        &self.snapshots_api
    }

    pub fn specs_api(&self) -> (r: &SpecsClient)
        ensures
            *r == self.spec_specs_api(),
    {
        &self.specs_api
    }

    pub fn volumes_api(&self) -> (r: &VolumesClient)
        ensures
            *r == self.spec_volumes_api(),
    {
        &self.volumes_api
    }

    pub fn watches_api(&self) -> (r: &WatchesClient)
        ensures
            *r == self.spec_watches_api(),
    {
        &self.watches_api
    }
}

/* ---------------------------------------------------------------------- */
/* Responses                                                              */
/* ---------------------------------------------------------------------- */

/// Http Response with status and body
#[derive(Debug, Clone)]
pub struct ResponseContent<T> {
    pub(crate) status: u16,
    pub(crate) body: T,
}

impl<T> ResponseContent<T> {
    /// The status code.
    pub closed spec fn spec_status(self) -> u16 {
        self.status
    }

    /// The body.
    pub closed spec fn spec_body(self) -> T {
        self.body
    }

    /// Get the status code
    pub fn status(&self) -> (r: u16)
        ensures
            r == self.spec_status(),
    {
        self.status
    }

    /// Get a reference to the body
    pub fn body(&self) -> (r: &T)
        ensures
            *r == self.spec_body(),
    {
        &self.body
    }

    /// Convert self into the body
    pub fn into_body(self) -> (r: T)
        ensures
            r == self.spec_body(),
    {
        self.body
    }
}

/// Http Response with status and body as text (could not be coerced into the expected type)
#[derive(Debug, Clone)]
pub struct ResponseContentUnexpected {
    pub(crate) status: u16,
    pub(crate) text: String,
}

impl ResponseContentUnexpected {
    /// The status code.
    pub closed spec fn spec_status(self) -> u16 {
        self.status
    }

    /// The text.
    pub closed spec fn spec_text(self) -> Seq<char> {
        self.text@
    }

    /// Get the status code
    pub fn status(&self) -> (r: u16)
        ensures
            r == self.spec_status(),
    {
        self.status
    }

    /// Get a reference to the text
    pub fn text(&self) -> (r: &str)
        ensures
            r@ == self.spec_text(),
    {
        self.text.as_str()
    }
}

/// Error type for all Requests with the various variants
#[derive(Debug)]
pub enum Error<T> {
    Request(RequestError),
    Response(ResponseError<T>),
}

/// Failed to issue the request; each variant holds the message of the
/// underlying error.
#[derive(Debug, Clone)]
pub enum RequestError {
    /// Failed to build the http request
    BuildRequest(String),
    /// Service Request call returned an error
    Request(String),
    /// Service was not ready to process the request
    NotReady(String),
    /// Failed to serialize request payload
    Serde(String),
    /// Failed to encode the url path
    SerdeEncoded(String),
}

impl RequestError {
    /// The module of the error and its message.
    pub open spec fn spec_parts(self) -> (Seq<char>, Seq<char>) {
        match self {
            RequestError::BuildRequest(e) => ("build_request"@, e@),
            RequestError::Request(e) => ("request"@, e@),
            RequestError::NotReady(e) => ("not_ready"@, e@),
            RequestError::Serde(e) => ("serde"@, e@),
            RequestError::SerdeEncoded(e) => ("serde_encoding"@, e@),
        }
    }

    /// The text of the error: `error in `, the module, `: ` and the message.
    pub open spec fn spec_message(self) -> Seq<char> {
        "error in "@ + self.spec_parts().0 + ": "@ + self.spec_parts().1
    }

    /// Describes the error as its `Display` form does.
    pub fn message(&self) -> (r: String)
        ensures
            r@ == self.spec_message(),
    {
        let mut s = String::new();
        push_str(&mut s, "error in ");
        let e = match self {
            RequestError::BuildRequest(e) => {
                push_str(&mut s, "build_request");
                e
            },
            RequestError::Request(e) => {
                push_str(&mut s, "request");
                e
            },
            RequestError::NotReady(e) => {
                push_str(&mut s, "not_ready");
                e
            },
            RequestError::Serde(e) => {
                push_str(&mut s, "serde");
                e
            },
            RequestError::SerdeEncoded(e) => {
                push_str(&mut s, "serde_encoding");
                e
            },
        };
        push_str(&mut s, ": ");
        push_str(&mut s, e.as_str());
        s
    }
}

/// Error type for all Requests with the various variants
#[derive(Debug)]
pub enum ResponseError<T> {
    /// The OpenAPI call returned the "expected" OpenAPI JSON content
    Expected(ResponseContent<T>),
    /// Failed to convert the response payload to bytes
    PayloadError { status: u16, error: String },
    /// The OpenAPI call returned an "unexpected" JSON content
    Unexpected(ResponseContentUnexpected),
}

impl<T> ResponseError<T> {
    /// The status code of the response.
    pub open spec fn spec_status(self) -> u16 {
        match self {
            ResponseError::Expected(expected) => expected.spec_status(),
            ResponseError::PayloadError { status, .. } => status,
            ResponseError::Unexpected(unexpected) => unexpected.spec_status(),
        }
    }

    /// Get the inner status
    pub fn status(&self) -> (r: u16)
        ensures
            r == self.spec_status(),
    {
        match self {
            ResponseError::Expected(expected) => expected.status,
            ResponseError::PayloadError { status, .. } => *status,
            ResponseError::Unexpected(unexpected) => unexpected.status,
        }
    }
}

/// What reading and decoding the body of a response gave.
#[derive(Debug)]
pub enum BodyRead<T> {
    /// The body could not be read; the message of the error.
    Failed(String),
    /// The body was read and decoded.
    Decoded(T),
    /// The body was read but could not be decoded: the message of the
    /// decoding error and the body as text.
    Undecodable { error: String, text: String },
}

/// Whether `r` is what a successful response with the given status and
/// body turns into: the decoded body, or the error of reading or decoding it.
pub open spec fn is_success_result<T, E>(status: u16, read: BodyRead<T>, r: Result<ResponseContent<T>, Error<E>>) -> bool {
    match read {
        BodyRead::Decoded(b) => r matches Ok(c) && c.spec_status() == status && c.spec_body() == b,
        BodyRead::Failed(e) => r matches Err(Error::Response(ResponseError::PayloadError { status: s, error: m }))
            && s == status && m@ == e@,
        BodyRead::Undecodable { error, .. } => r matches Err(Error::Response(ResponseError::Unexpected(u)))
            && u.spec_status() == status && u.spec_text() == error@,
    }
}

/// Whether `r` is what a failed response with the given status and body
/// turns into: the expected error content, the body as text when it is not
/// that, or the error of reading it.
pub open spec fn is_failure_result<T, E>(status: u16, read: BodyRead<E>, r: Result<ResponseContent<T>, Error<E>>) -> bool {
    match read {
        BodyRead::Decoded(b) => r matches Err(Error::Response(ResponseError::Expected(c)))
            && c.spec_status() == status && c.spec_body() == b,
        BodyRead::Failed(e) => r matches Err(Error::Response(ResponseError::PayloadError { status: s, error: m }))
            && s == status && m@ == e@,
        BodyRead::Undecodable { text, .. } => r matches Err(Error::Response(ResponseError::Unexpected(u)))
            && u.spec_status() == status && u.spec_text() == text@,
    }
}

/// What a successful response (a `2xx` status) turns into: its decoded body,
/// or the error of reading or decoding it.
pub fn success_response<T, E>(status: u16, read: BodyRead<T>) -> (r: Result<ResponseContent<T>, Error<E>>)
    ensures
        is_success_result(status, read, r),
{
    match read {
        BodyRead::Decoded(body) => Ok(ResponseContent { status, body }),
        BodyRead::Failed(error) => Err(Error::Response(ResponseError::PayloadError { status, error })),
        BodyRead::Undecodable { error, .. } => Err(
            Error::Response(ResponseError::Unexpected(ResponseContentUnexpected { status, text: error })),
        ),
    }
}

/// What a failed response (any other status) turns into: the expected error
/// content, or the body as text when it is not that, or the error of reading it.
pub fn failure_response<T, E>(status: u16, read: BodyRead<E>) -> (r: Result<ResponseContent<T>, Error<E>>)
    ensures
        is_failure_result(status, read, r),
{
    match read {
        BodyRead::Decoded(body) => Err(Error::Response(ResponseError::Expected(ResponseContent { status, body }))),
        BodyRead::Failed(error) => Err(Error::Response(ResponseError::PayloadError { status, error })),
        BodyRead::Undecodable { text, .. } => Err(
            Error::Response(ResponseError::Unexpected(ResponseContentUnexpected { status, text })),
        ),
    }
}

/// The body of a response, read as what its status calls for: the
/// operation's output for a success, its error content otherwise.
#[derive(Debug)]
pub enum ResponseBody<T, E> {
    Success(BodyRead<T>),
    Failure(BodyRead<E>),
}

/// Whether a response with the given status is read as the operation's
/// output (a `2xx` status) rather than as its error content.
pub fn reads_output(status: u16) -> (r: bool)
    ensures
        r == crate::clients::spec_is_success(status),
{
    crate::clients::is_success(status)
}

/// What a response turns into, by its status: for a `2xx` status the
/// operation's output, otherwise its error content; the body is read as
/// `reads_output` says.
pub fn response_of<T, E>(status: u16, body: ResponseBody<T, E>) -> (r: Result<ResponseContent<T>, Error<E>>)
    requires
        body is Success <==> crate::clients::spec_is_success(status),
    ensures
        match body {
            ResponseBody::Success(read) => is_success_result(status, read, r),
            ResponseBody::Failure(read) => is_failure_result(status, read, r),
        },
{
    match body {
        ResponseBody::Success(read) => success_response(status, read),
        ResponseBody::Failure(read) => failure_response(status, read),
    }
}

} // verus!
