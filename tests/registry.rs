use turent::entities::{IceCredentialType, IceServer, RegisterOrRefreshServerReq};
use turent::errors::DiscoveryError;
use turent::registry::{Discovery, MapDB, DB};

const F1: &str = "67e55044-10b1-426f-9247-bb680e5ff1b8";
const F2: &str = "a1a2a3a4-b1b2-c1c2-d1d2-d3d4d5d6d7d8";
const F3: &str = "550e8400-e29b-41d4-a716-446655440000";

fn req(id: &str, files: &[&str], url: &str) -> RegisterOrRefreshServerReq {
    RegisterOrRefreshServerReq {
        server_id: id.to_string(),
        files: Some(files.iter().map(|f| f.to_string()).collect()),
        ice_candidates: None,
        url: url.to_string(),
    }
}

#[test]
fn lookup_returns_exactly_the_matching_peer() {
    let mut d = Discovery::new();
    d.register_or_refresh_server(req("S1", &[F1], "http://s1")).unwrap();
    d.register_or_refresh_server(req("S2", &[F2], "http://s2")).unwrap();
    let res = d.get_servers_by_file_id(F1.to_string()).unwrap();
    assert!(res.success);
    assert_eq!(res.servers_info.len(), 1);
    assert_eq!(res.servers_info[0].id, "S1");
    assert_eq!(res.servers_info[0].url, "http://s1");
}

#[test]
fn lookup_returns_every_peer_with_the_file_in_order() {
    let mut d = Discovery::new();
    d.register_or_refresh_server(req("S1", &[F1, F2], "http://s1")).unwrap();
    d.register_or_refresh_server(req("S2", &[F2], "http://s2")).unwrap();
    d.register_or_refresh_server(req("S3", &[F1], "http://s3")).unwrap();
    let res = d.get_servers_by_file_id(F1.to_string()).unwrap();
    let ids: Vec<&str> = res.servers_info.iter().map(|s| s.id.as_str()).collect();
    assert_eq!(ids, vec!["S1", "S3"]);
    let res = d.get_servers_by_file_id(F2.to_string()).unwrap();
    let ids: Vec<&str> = res.servers_info.iter().map(|s| s.id.as_str()).collect();
    assert_eq!(ids, vec!["S1", "S2"]);
}

#[test]
fn lookup_of_unserved_file_is_not_found() {
    let mut d = Discovery::new();
    d.register_or_refresh_server(req("S1", &[F1], "http://s1")).unwrap();
    assert_eq!(
        d.get_servers_by_file_id(F3.to_string()).unwrap_err(),
        DiscoveryError::ServerNotFoundError
    );
    let empty = Discovery::new();
    assert_eq!(
        empty.get_servers_by_file_id(F1.to_string()).unwrap_err(),
        DiscoveryError::ServerNotFoundError
    );
}

#[test]
fn lookup_with_malformed_id_is_refused() {
    let mut d = Discovery::new();
    d.register_or_refresh_server(req("S1", &["not-a-uuid"], "http://s1")).unwrap();
    assert_eq!(
        d.get_servers_by_file_id("not-a-uuid".to_string()).unwrap_err(),
        DiscoveryError::InvalidIdFormat
    );
    assert_eq!(
        d.servers_for_file("not-a-uuid".to_string(), Some(1)).unwrap().servers_info.len(),
        1
    );
    assert_eq!(
        d.servers_for_file(F1.to_string(), None).unwrap_err(),
        DiscoveryError::InvalidIdFormat
    );
}

#[test]
fn reregistration_keeps_first_files() {
    let mut d = Discovery::new();
    d.register_or_refresh_server(req("S1", &[F1], "http://first")).unwrap();
    d.register_or_refresh_server(req("S1", &[F2], "http://second")).unwrap();
    let res = d.get_servers_by_file_id(F1.to_string()).unwrap();
    assert_eq!(res.servers_info.len(), 1);
    assert_eq!(res.servers_info[0].url, "http://first");
    assert_eq!(res.servers_info[0].files, vec![F1.to_string()]);
    assert_eq!(
        d.get_servers_by_file_id(F2.to_string()).unwrap_err(),
        DiscoveryError::ServerNotFoundError
    );
}

#[test]
fn update_overwrites_record() {
    let mut d = Discovery::new();
    d.register_or_refresh_server(req("S1", &[F1], "http://first")).unwrap();
    d.update_server(req("S1", &[F2], "http://second")).unwrap();
    let res = d.get_servers_by_file_id(F2.to_string()).unwrap();
    assert_eq!(res.servers_info.len(), 1);
    assert_eq!(res.servers_info[0].id, "S1");
    assert_eq!(res.servers_info[0].url, "http://second");
    assert!(d.get_servers_by_file_id(F1.to_string()).is_err());
}

#[test]
fn map_db_lookup_and_lists() {
    let mut db = MapDB::new();
    assert!(!db.lookup("S1".to_string()));
    let ice = IceServer {
        urls: vec!["stun:stun.example.org:3478".to_string()],
        username: "user".to_string(),
        credential: "pw".to_string(),
        credential_type: IceCredentialType::Password,
    };
    db.register(
        "S1".to_string(),
        Some(vec![F1.to_string()]),
        Some(vec![ice]),
        "http://s1".to_string(),
    )
    .unwrap();
    db.register("S2".to_string(), None, None, "http://s2".to_string()).unwrap();
    assert!(db.lookup("S1".to_string()));
    assert!(db.lookup("S2".to_string()));
    assert!(!db.lookup("S3".to_string()));
    assert_eq!(db.get_file_list("S1".to_string()).unwrap(), &vec![F1.to_string()]);
    assert!(db.get_file_list("S2".to_string()).unwrap().is_empty());
    assert!(db.get_file_list("S3".to_string()).is_none());
    let servers = db.get_ice_servers("S1".to_string()).unwrap();
    assert_eq!(servers.len(), 1);
    assert_eq!(servers[0].urls, vec!["stun:stun.example.org:3478".to_string()]);
    assert_eq!(servers[0].credential_type, IceCredentialType::Password);
    assert!(db.get_ice_servers("S3".to_string()).is_none());
}

#[test]
fn map_db_find_servers_by_file() {
    let mut db = MapDB::new();
    assert_eq!(
        db.find_servers_by_file(F1.to_string()).unwrap_err(),
        DiscoveryError::ServerNotFoundError
    );
    db.update("S1".to_string(), Some(vec![F1.to_string()]), None, "u1".to_string()).unwrap();
    let found = db.find_servers_by_file(F1.to_string()).unwrap();
    assert_eq!(found.len(), 1);
    assert_eq!(found[0].id, "S1");
    assert_eq!(found[0].url, "u1");
}

#[test]
fn add_ice_candidates_keeps_nothing() {
    Discovery::add_ice_candidates();
}
