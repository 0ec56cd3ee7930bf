use vstd::prelude::*;

use crate::node::{model_add, model_get, root_model, NodeModel, OscAccess, OscQueryNode};
use crate::paths::{spec_segments, str_eq, valid_path};

verus! {

/// Host metadata served for `HOST_INFO` queries.
pub struct OscHostInfoExtension {
    pub access: bool,
    pub description: bool,
}

/// Identity of the service host: display name, address and port of the
/// control-protocol listener, and which query extensions it supports.
pub struct OscHostInfo {
    pub name: String,
    pub osc_ip: String,
    pub osc_port: u16,
    pub extension: OscHostInfoExtension,
}

impl OscHostInfo {
    pub fn new(name: String, osc_ip: String, osc_port: u16) -> (r: Self)
        ensures
            r.name == name,
            r.osc_ip == osc_ip,
            r.osc_port == osc_port,
            r.extension.access,
            r.extension.description,
    {
        Self { name, osc_ip, osc_port, extension: OscHostInfoExtension { access: true, description: true } }
    }
}

/// Accumulates endpoint registrations, then freezes them into a service.
pub struct OscQueryServiceBuilder {
    pub root_node: OscQueryNode,
    pub host_info: OscHostInfo,
}

impl OscQueryServiceBuilder {
    pub fn new(host_info: OscHostInfo) -> (r: Self)
        ensures
            r.root_node@ == root_model(),
            r.host_info == host_info,
    {
        Self { root_node: OscQueryNode::root(), host_info }
    }

    /// Publishes one endpoint into the namespace being built.
    pub fn add_endpoint(
        &mut self,
        full_path: String,
        osc_type: String,
        access: OscAccess,
        description: String,
    )
        requires
            valid_path(full_path@),
        ensures
            final(self).root_node@ == model_add(
                old(self).root_node@,
                spec_segments(full_path@),
                crate::node::NodeMeta {
                    full_path: full_path@,
                    osc_type: Some(osc_type@),
                    access: access,
                    description: description@,
                },
            ),
            final(self).host_info == old(self).host_info,
    {
        let node = OscQueryNode::new(full_path, osc_type, access, description);
        self.root_node.add_node(node);
    }

    /// Freezes the namespace: from here on it is read-only and safe to
    /// share across concurrent readers.
    pub fn build(self) -> (r: OscQueryService)
        ensures
            r.root_node == self.root_node,
            r.host_info == self.host_info,
    {
        OscQueryService { root_node: self.root_node, host_info: self.host_info }
    }
}

/// The response chosen for one discovery request, before any serialization:
/// which body the transport must produce, with the projected field values.
pub enum QueryResponse {
    /// No node at the path (a 404 on the wire).
    NotFound,
    /// The whole node at the path, serialized by the transport.
    FullNode,
    /// The host metadata.
    HostInfo,
    /// `{"TYPE": t}`, or `{}` for a node with no type tag.
    TypeField(Option<String>),
    /// `{"ACCESS": n}` with the numeric access mode.
    AccessField(u8),
    /// `{"DESCRIPTION": d}`.
    DescriptionField(String),
    /// An unknown query string (a 204 on the wire).
    NotSupported,
}

/// The built, read-only discovery service.
pub struct OscQueryService {
    pub root_node: OscQueryNode,
    pub host_info: OscHostInfo,
}

impl OscQueryService {
    pub fn new(host_info: OscHostInfo) -> (r: Self)
        ensures
            r.root_node@ == root_model(),
            r.host_info == host_info,
    {
        Self { root_node: OscQueryNode::root(), host_info }
    }

    /// Publishes one endpoint (for callers that build the service without
    /// the separate builder).
    pub fn add_endpoint(
        &mut self,
        full_path: String,
        osc_type: String,
        access: OscAccess,
        description: String,
    )
        requires
            valid_path(full_path@),
        ensures
            final(self).root_node@ == model_add(
                old(self).root_node@,
                spec_segments(full_path@),
                crate::node::NodeMeta {
                    full_path: full_path@,
                    osc_type: Some(osc_type@),
                    access: access,
                    description: description@,
                },
            ),
            final(self).host_info == old(self).host_info,
    {
        let node = OscQueryNode::new(full_path, osc_type, access, description);
        self.root_node.add_node(node);
    }

    /// Decides the response to `GET path?query`: a missing node is not
    /// found; no query string returns the whole node; the recognized query
    /// strings project one field, an empty object standing for an absent
    /// field; anything else is not supported.
    pub fn respond(&self, path: String, query: Option<&str>) -> (r: QueryResponse)
        ensures
            ({
                let node = model_get(self.root_node@, spec_segments(path@));
                match node {
                    Option::None => r is NotFound,
                    Option::Some(n) => match query {
                        Option::None => r is FullNode,
                        Option::Some(q) => if q@ == "HOST_INFO"@ {
                            r is HostInfo
                        } else if q@ == "TYPE"@ {
                            r matches QueryResponse::TypeField(t) && (match t {
                                Option::Some(s) => n.osc_type == Some(s@),
                                Option::None => n.osc_type is None,
                            })
                        } else if q@ == "ACCESS"@ {
                            r == QueryResponse::AccessField(n.access.spec_byte())
                        } else if q@ == "DESCRIPTION"@ {
                            r matches QueryResponse::DescriptionField(d) && d@ == n.description
                        } else {
                            r is NotSupported
                        },
                    },
                }
            }),
    {
        let node = match self.root_node.get(path) {
            None => {
                return QueryResponse::NotFound;
            },
            Some(node) => node,
        };
        let q = match query {
            None => {
                return QueryResponse::FullNode;
            },
            Some(q) => q,
        };
        if str_eq(q, "HOST_INFO") {
            QueryResponse::HostInfo
        } else if str_eq(q, "TYPE") {
            match &node.osc_type {
                Some(t) => QueryResponse::TypeField(Some(t.clone())),
                None => QueryResponse::TypeField(None),
            }
        } else if str_eq(q, "ACCESS") {
            QueryResponse::AccessField(node.access.to_byte())
        } else if str_eq(q, "DESCRIPTION") {
            QueryResponse::DescriptionField(node.description.clone())
        } else {
            QueryResponse::NotSupported
        }
    }
}

/// The discovery service as handed to the HTTP transport: the shared,
/// frozen namespace behind the per-connection services.
pub struct OscQueryStatic {
    pub service: OscQueryService,
}

impl OscQueryStatic {
    /// Decides the response for one request (the transport serializes it).
    pub fn respond(&self, path: String, query: Option<&str>) -> (r: QueryResponse)
        ensures
            ({
                let node = model_get(self.service.root_node@, spec_segments(path@));
                match node {
                    Option::None => r is NotFound,
                    Option::Some(n) => match query {
                        Option::None => r is FullNode,
                        Option::Some(q) => if q@ == "HOST_INFO"@ {
                            r is HostInfo
                        } else if q@ == "TYPE"@ {
                            r matches QueryResponse::TypeField(t) && (match t {
                                Option::Some(s) => n.osc_type == Some(s@),
                                Option::None => n.osc_type is None,
                            })
                        } else if q@ == "ACCESS"@ {
                            r == QueryResponse::AccessField(n.access.spec_byte())
                        } else if q@ == "DESCRIPTION"@ {
                            r matches QueryResponse::DescriptionField(d) && d@ == n.description
                        } else {
                            r is NotSupported
                        },
                    },
                }
            }),
    {
        self.service.respond(path, query)
    }
}

/// Factory for per-connection request handlers over one shared service.
pub struct MakeOscQueryStatic {
    pub service: OscQueryService,
}

impl MakeOscQueryStatic {
    pub fn new(service: OscQueryService) -> (r: Self)
        ensures
            r.service == service,
    {
        Self { service }
    }
}

/// The two ports of the discovery side: the TCP port the query service
/// listens on and the UDP port the control protocol listens on.
pub struct Query {
    pub tcp_port: u16,
    pub udp_port: u16,
}

impl Query {
    pub fn new(tcp_port: u16, udp_port: u16) -> (r: Self)
        ensures
            r.tcp_port == tcp_port,
            r.udp_port == udp_port,
    {
        Self { tcp_port, udp_port }
    }
}

/// The discovery task's configuration: which port to serve the frozen
/// namespace on.
pub struct OscQueryTask {
    pub port: u16,
    pub service: OscQueryService,
}

impl OscQueryTask {
    pub fn new(port: u16, service: OscQueryService) -> (r: Self)
        ensures
            r.port == port,
            r.service == service,
    {
        Self { port, service }
    }
}

} // verus!
