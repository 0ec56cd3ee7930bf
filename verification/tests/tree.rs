use vrc_osc_manager::node::{OscAccess, OscQueryNode};
use vrc_osc_manager::service::{OscHostInfo, OscQueryService, OscQueryServiceBuilder, QueryResponse};

fn leaf(path: &str, t: &str, access: OscAccess, d: &str) -> OscQueryNode {
    OscQueryNode::new(path.to_string(), t.to_string(), access, d.to_string())
}

#[test]
fn lookup_of_inserted_path_returns_its_full_path() {
    let mut root = OscQueryNode::root();
    root.add_node(leaf("/avatar/change", "s", OscAccess::Read, ""));
    let found = root.get("/avatar/change".to_string()).expect("node must exist");
    assert_eq!(found.full_path, "/avatar/change");
    assert_eq!(found.osc_type.as_deref(), Some("s"));
    assert_eq!(found.access, OscAccess::Read);
}

#[test]
fn empty_path_names_the_root() {
    let root = OscQueryNode::root();
    let found = root.get("".to_string()).expect("root must be found");
    assert_eq!(found.full_path, "/");
    let found = root.get("/".to_string()).expect("root must be found");
    assert_eq!(found.full_path, "/");
}

#[test]
fn missing_path_is_not_found() {
    let mut root = OscQueryNode::root();
    root.add_node(leaf("/a/b", "s", OscAccess::Read, ""));
    assert!(root.get("/a/c".to_string()).is_none());
    assert!(root.get("/b".to_string()).is_none());
    assert!(root.get("/a/b/c".to_string()).is_none());
}

#[test]
fn intermediate_nodes_are_created_as_placeholders() {
    let mut root = OscQueryNode::root();
    root.add_node(leaf("/avatar/parameters/PS_Intensity", "d", OscAccess::ReadWrite, "x"));
    let avatar = root.get("/avatar".to_string()).expect("placeholder must exist");
    assert_eq!(avatar.full_path, "/avatar");
    assert!(avatar.osc_type.is_none());
    assert_eq!(avatar.access, OscAccess::NoAccess);
    assert_eq!(avatar.description, "");
    let params = root.get("/avatar/parameters".to_string()).expect("placeholder must exist");
    assert_eq!(params.full_path, "/avatar/parameters");
}

#[test]
fn shallower_insert_preserves_deeper_subtree() {
    let mut root = OscQueryNode::root();
    root.add_node(leaf("/a/b", "s", OscAccess::Read, "deep"));
    root.add_node(leaf("/a", "i", OscAccess::Write, "shallow"));
    // the deeper node is still there
    let b = root.get("/a/b".to_string()).expect("subtree must survive");
    assert_eq!(b.full_path, "/a/b");
    assert_eq!(b.description, "deep");
    // and the shallower node carries the merged metadata
    let a = root.get("/a".to_string()).expect("node must exist");
    assert_eq!(a.osc_type.as_deref(), Some("i"));
    assert_eq!(a.access, OscAccess::Write);
    assert_eq!(a.description, "shallow");
}

#[test]
fn access_wire_values() {
    assert_eq!(OscAccess::NoAccess.to_byte(), 0);
    assert_eq!(OscAccess::Read.to_byte(), 1);
    assert_eq!(OscAccess::Write.to_byte(), 2);
    assert_eq!(OscAccess::ReadWrite.to_byte(), 3);
}

fn scenario_service() -> OscQueryService {
    let mut service = OscQueryService::new(OscHostInfo::new(
        "VRC OSC Manager".to_string(),
        "127.0.0.1".to_string(),
        9001,
    ));
    service.add_endpoint(
        "/avatar/change".to_string(),
        "s".to_string(),
        OscAccess::Read,
        "".to_string(),
    );
    service.add_endpoint(
        "/avatar/parameters/PS_Intensity".to_string(),
        "d".to_string(),
        OscAccess::ReadWrite,
        "Shock intensity".to_string(),
    );
    service
}

#[test]
fn access_query_projects_the_numeric_mode() {
    let service = scenario_service();
    let r = service.respond("/avatar/parameters/PS_Intensity".to_string(), Some("ACCESS"));
    match r {
        QueryResponse::AccessField(n) => assert_eq!(n, 3),
        _ => panic!("expected the ACCESS projection"),
    }
}

#[test]
fn type_query_on_placeholder_is_empty() {
    let service = scenario_service();
    let r = service.respond("/avatar".to_string(), Some("TYPE"));
    match r {
        QueryResponse::TypeField(t) => assert!(t.is_none()),
        _ => panic!("expected the TYPE projection"),
    }
}

#[test]
fn query_responses_cover_the_protocol() {
    let service = scenario_service();
    assert!(matches!(
        service.respond("/nowhere".to_string(), None),
        QueryResponse::NotFound
    ));
    assert!(matches!(
        service.respond("/avatar/change".to_string(), None),
        QueryResponse::FullNode
    ));
    assert!(matches!(
        service.respond("/avatar/change".to_string(), Some("HOST_INFO")),
        QueryResponse::HostInfo
    ));
    match service.respond("/avatar/change".to_string(), Some("TYPE")) {
        QueryResponse::TypeField(t) => assert_eq!(t.as_deref(), Some("s")),
        _ => panic!("expected the TYPE projection"),
    }
    match service.respond("/avatar/parameters/PS_Intensity".to_string(), Some("DESCRIPTION")) {
        QueryResponse::DescriptionField(d) => assert_eq!(d, "Shock intensity"),
        _ => panic!("expected the DESCRIPTION projection"),
    }
    assert!(matches!(
        service.respond("/avatar/change".to_string(), Some("VALUE")),
        QueryResponse::NotSupported
    ));
}

#[test]
fn builder_builds_the_same_namespace() {
    let mut builder = OscQueryServiceBuilder::new(OscHostInfo::new(
        "n".to_string(),
        "127.0.0.1".to_string(),
        9000,
    ));
    builder.add_endpoint(
        "/avatar/change".to_string(),
        "s".to_string(),
        OscAccess::Read,
        "".to_string(),
    );
    let service = builder.build();
    assert!(matches!(
        service.respond("/avatar/change".to_string(), None),
        QueryResponse::FullNode
    ));
    assert_eq!(service.host_info.osc_port, 9000);
}

#[test]
fn redundant_separators_are_skipped_in_lookups() {
    let mut root = OscQueryNode::root();
    root.add_node(leaf("/a/b", "s", OscAccess::Read, ""));
    assert!(root.get("/a/b/".to_string()).is_some());
    assert!(root.get("//a//b".to_string()).is_some());
    assert!(root.get("a/b".to_string()).is_some());
}
