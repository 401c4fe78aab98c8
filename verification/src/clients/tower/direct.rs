//! The client of all the APIs whose operations give the response body directly.

use vstd::prelude::*;
use std::sync::Arc;
use crate::clients::Configuration;
use crate::clients::tower::{
    BlockDevicesClient,
    ChildrenClient,
    JsonGrpcClient,
    NexusesClient,
    NodesClient,
    PoolsClient,
    ReplicasClient,
    SnapshotsClient,
    SpecsClient,
    VolumesClient,
    WatchesClient,
    share,
};

verus! {

/// Same as the client of all the APIs, but its operations give the response body directly.
pub struct ApiClient {
    block_devices_api: BlockDevicesClient,
    children_api: ChildrenClient,
    json_grpc_api: JsonGrpcClient,
    nexuses_api: NexusesClient,
    nodes_api: NodesClient,
    pools_api: PoolsClient,
    replicas_api: ReplicasClient,
    snapshots_api: SnapshotsClient,
    specs_api: SpecsClient,
    volumes_api: VolumesClient,
    watches_api: WatchesClient,
}

impl ApiClient {
    /// The client of the `block_devices` operations.
    pub closed spec fn spec_block_devices_api(self) -> BlockDevicesClient {
        self.block_devices_api
    }

    /// The client of the `children` operations.
    pub closed spec fn spec_children_api(self) -> ChildrenClient {
        self.children_api
    }

    /// The client of the `json_grpc` operations.
    pub closed spec fn spec_json_grpc_api(self) -> JsonGrpcClient {
        self.json_grpc_api
    }

    /// The client of the `nexuses` operations.
    pub closed spec fn spec_nexuses_api(self) -> NexusesClient {
        self.nexuses_api
    }

    /// The client of the `nodes` operations.
    pub closed spec fn spec_nodes_api(self) -> NodesClient {
        self.nodes_api
    }

    /// The client of the `pools` operations.
    pub closed spec fn spec_pools_api(self) -> PoolsClient {
        self.pools_api
    }

    /// The client of the `replicas` operations.
    pub closed spec fn spec_replicas_api(self) -> ReplicasClient {
        self.replicas_api
    }

    /// The client of the `snapshots` operations.
    pub closed spec fn spec_snapshots_api(self) -> SnapshotsClient {
        self.snapshots_api
    }

    /// The client of the `specs` operations.
    pub closed spec fn spec_specs_api(self) -> SpecsClient {
        self.specs_api
    }

    /// The client of the `volumes` operations.
    pub closed spec fn spec_volumes_api(self) -> VolumesClient {
        self.volumes_api
    }

    /// The client of the `watches` operations.
    pub closed spec fn spec_watches_api(self) -> WatchesClient {
        self.watches_api
    }

    /// Whether every client of this client was made with `c`.
    pub open spec fn shares(self, c: Configuration) -> bool {
        &&& self.spec_block_devices_api().spec_configuration() == c
        &&& self.spec_children_api().spec_configuration() == c
        &&& self.spec_json_grpc_api().spec_configuration() == c
        &&& self.spec_nexuses_api().spec_configuration() == c
        &&& self.spec_nodes_api().spec_configuration() == c
        &&& self.spec_pools_api().spec_configuration() == c
        &&& self.spec_replicas_api().spec_configuration() == c
        &&& self.spec_snapshots_api().spec_configuration() == c
        &&& self.spec_specs_api().spec_configuration() == c
        &&& self.spec_volumes_api().spec_configuration() == c
        &&& self.spec_watches_api().spec_configuration() == c
    }

    pub fn new(configuration: Configuration) -> (r: ApiClient)
        ensures
            r.shares(configuration),
    {
        let rc = Arc::new(configuration);
        ApiClient {
            block_devices_api: BlockDevicesClient::new(share(&rc)),
            children_api: ChildrenClient::new(share(&rc)),
            json_grpc_api: JsonGrpcClient::new(share(&rc)),
            nexuses_api: NexusesClient::new(share(&rc)),
            nodes_api: NodesClient::new(share(&rc)),
            pools_api: PoolsClient::new(share(&rc)),
            replicas_api: ReplicasClient::new(share(&rc)),
            snapshots_api: SnapshotsClient::new(share(&rc)),
            specs_api: SpecsClient::new(share(&rc)),
            volumes_api: VolumesClient::new(share(&rc)),
            watches_api: WatchesClient::new(rc),
        }
    }

    pub fn block_devices_api(&self) -> (r: &BlockDevicesClient)
        ensures
            *r == self.spec_block_devices_api(),
    {
        &self.block_devices_api
    }

    pub fn children_api(&self) -> (r: &ChildrenClient)
        ensures
            *r == self.spec_children_api(),
    {
        &self.children_api
    }

    pub fn json_grpc_api(&self) -> (r: &JsonGrpcClient)
        ensures
            *r == self.spec_json_grpc_api(),
    {
        &self.json_grpc_api
    }

    pub fn nexuses_api(&self) -> (r: &NexusesClient)
        ensures
            *r == self.spec_nexuses_api(),
    {
        &self.nexuses_api
    }

    pub fn nodes_api(&self) -> (r: &NodesClient)
        ensures
            *r == self.spec_nodes_api(),
    {
        &self.nodes_api
    }

    pub fn pools_api(&self) -> (r: &PoolsClient)
        ensures
            *r == self.spec_pools_api(),
    {
        &self.pools_api
    }

    pub fn replicas_api(&self) -> (r: &ReplicasClient)
        ensures
            *r == self.spec_replicas_api(),
    {
        &self.replicas_api
    }

    pub fn snapshots_api(&self) -> (r: &SnapshotsClient)
        ensures
            *r == self.spec_snapshots_api(),
    {
        &self.snapshots_api
    }

    pub fn specs_api(&self) -> (r: &SpecsClient)
        ensures
            *r == self.spec_specs_api(),
    {
        &self.specs_api
    }

    pub fn volumes_api(&self) -> (r: &VolumesClient)
        ensures
            *r == self.spec_volumes_api(),
    {
        &self.volumes_api
    }

    pub fn watches_api(&self) -> (r: &WatchesClient)
        ensures
            *r == self.spec_watches_api(),
    {
        &self.watches_api
    }
}

} // verus!
