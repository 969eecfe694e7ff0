use turent::engine::Engine;
use turent::entities::{IceCredentialType, IceServer, Logger, ServerInfo};
use turent::errors::{ApiError, ClientError};
use turent::session::{FailReason, Role, SessionState};
use turent::sink::{DataSinkManager, Download};
use turent::source::DataSourceManager;

const SERVER: &str = "67e55044-10b1-426f-9247-bb680e5fe0c8";
const SERVER_ID: u128 = 0x67e5504410b1426f9247bb680e5fe0c8;
const CLIENT_A: &str = "a1a2a3a4-b1b2-c1c2-d1d2-d3d4d5d6d7d8";
const CLIENT_B: &str = "550e8400-e29b-41d4-a716-446655440000";

fn server(id: &str, url: &str) -> ServerInfo {
    ServerInfo {
        files: vec!["F1".to_string()],
        ice_servers: vec![],
        url: url.to_string(),
        id: id.to_string(),
    }
}

const SOURCE_REST: [SessionState; 7] = [
    SessionState::AnswerGenerated,
    SessionState::RemoteDescriptionSet,
    SessionState::IceExchanging,
    SessionState::Connected,
    SessionState::ChannelOpen,
    SessionState::Transferring,
    SessionState::Closed,
];

#[test]
fn two_offers_make_independent_sessions() {
    let mut m = DataSourceManager::new(Some(SERVER_ID), Logger::new(false)).unwrap();
    m.connect_to_client(CLIENT_A.to_string(), SERVER_ID, 10).unwrap();
    m.connect_to_client(CLIENT_B.to_string(), SERVER_ID, 20).unwrap();
    assert_eq!(m.session_state(10), Some(SessionState::OfferReceived));
    assert_eq!(m.session_state(20), Some(SessionState::OfferReceived));
    assert_eq!(m.add_ice_candidate(20, "b1".to_string()), Ok(None));
    for st in &SOURCE_REST[..6] {
        m.advance(10, *st).unwrap();
        assert_eq!(m.session_state(20), Some(SessionState::OfferReceived));
    }
    assert_eq!(m.session_state(10), Some(SessionState::Transferring));
    m.advance(20, SOURCE_REST[0]).unwrap();
    assert_eq!(m.advance(20, SOURCE_REST[1]), Ok(vec!["b1".to_string()]));
    for st in &SOURCE_REST[2..6] {
        m.advance(20, *st).unwrap();
    }
    assert_eq!(m.session_state(10), Some(SessionState::Transferring));
    assert_eq!(m.session_state(20), Some(SessionState::Transferring));
}

#[test]
fn accept_offer_creates_session_under_fresh_id() {
    let mut m = DataSourceManager::new(Some(SERVER_ID), Logger::new(false)).unwrap();
    let a = m.accept_offer(CLIENT_A.to_string(), SERVER_ID).unwrap();
    let b = m.accept_offer(CLIENT_B.to_string(), SERVER_ID).unwrap();
    assert_ne!(a, b);
    assert_eq!(m.session_state(a), Some(SessionState::OfferReceived));
    assert_eq!(m.session_state(b), Some(SessionState::OfferReceived));
    assert_eq!(
        m.accept_offer(CLIENT_A.to_string(), SERVER_ID + 1),
        Err(ClientError::ServerWithGivenIdNotFound)
    );
}

#[test]
fn source_refuses_unknown_server_duplicate_and_unknown_session() {
    let mut m = DataSourceManager::new(Some(SERVER_ID), Logger::new(false)).unwrap();
    assert_eq!(
        m.connect_to_client(CLIENT_A.to_string(), 7, 1),
        Err(ClientError::ServerWithGivenIdNotFound)
    );
    m.connect_to_client(CLIENT_A.to_string(), SERVER_ID, 1).unwrap();
    assert_eq!(
        m.connect_to_client(CLIENT_B.to_string(), SERVER_ID, 1),
        Err(ClientError::SessionAlreadyExists)
    );
    assert_eq!(
        m.add_ice_candidate(2, "c".to_string()),
        Err(ClientError::ServerWithGivenIdNotFound)
    );
    assert_eq!(
        m.advance(2, SessionState::AnswerGenerated),
        Err(ClientError::ServerWithGivenIdNotFound)
    );
    assert_eq!(m.session_state(2), None);
}

#[test]
fn registration_request_names_source() {
    let m = DataSourceManager::new(Some(SERVER_ID), Logger::new(false)).unwrap();
    let ice = IceServer {
        urls: vec!["stun:stun.l.google.com:19302".to_string()],
        username: String::new(),
        credential: String::new(),
        credential_type: IceCredentialType::Unspecified,
    };
    let req = m.new_data_source(vec!["F1".to_string()], vec![ice], "http://localhost:8080".to_string());
    assert_eq!(req.server_id, SERVER);
    assert_eq!(req.files, Some(vec!["F1".to_string()]));
    assert_eq!(req.ice_candidates.unwrap().len(), 1);
    assert_eq!(req.url, "http://localhost:8080");
}

#[test]
fn sink_falls_back_to_second_source() {
    let candidates = vec![server("S1", "http://s1"), server("S2", "http://s2")];
    let mut d = Download::start_download("F1".to_string(), candidates).unwrap();
    let mut m = DataSinkManager::new(Logger::new(false)).unwrap();

    assert_eq!(d.current_source().id, "S1");
    m.new_data_sink(1, d.current_source()).unwrap();
    m.advance(1, SessionState::OfferGenerated).unwrap();
    m.advance(1, SessionState::OfferSent).unwrap();
    let failed_at = m.session_state(1).unwrap();
    m.advance(1, SessionState::Failed(FailReason::Transport)).unwrap();
    assert_eq!(d.after_failure(failed_at), Ok(()));

    assert_eq!(d.current_source().id, "S2");
    assert_eq!(d.file_id(), "F1");
    m.new_data_sink(2, d.current_source()).unwrap();
    for st in [
        SessionState::OfferGenerated,
        SessionState::OfferSent,
        SessionState::AnswerReceived,
        SessionState::RemoteDescriptionSet,
        SessionState::IceExchanging,
        SessionState::Connected,
        SessionState::ChannelOpen,
        SessionState::Transferring,
        SessionState::Closed,
    ] {
        m.advance(2, st).unwrap();
    }
    assert_eq!(m.session_state(2), Some(SessionState::Closed));
    assert_eq!(m.session_state(1), Some(SessionState::Failed(FailReason::Transport)));
}

#[test]
fn download_without_sources_fails() {
    assert_eq!(
        Download::start_download("F1".to_string(), vec![]).err(),
        Some(ClientError::NoSourceAvailable)
    );
}

#[test]
fn download_runs_out_of_sources() {
    let mut d = Download::start_download("F1".to_string(), vec![server("S1", "u")]).unwrap();
    assert_eq!(d.after_failure(SessionState::OfferSent), Err(ClientError::NoSourceAvailable));
    assert_eq!(d.current_source().id, "S1");
}

#[test]
fn failure_after_connection_is_not_retried() {
    let candidates = vec![server("S1", "u1"), server("S2", "u2")];
    let mut d = Download::start_download("F1".to_string(), candidates).unwrap();
    assert_eq!(d.after_failure(SessionState::Transferring), Err(ClientError::TransferAborted));
    assert_eq!(d.current_source().id, "S1");
}

#[test]
fn sink_refuses_duplicate_and_unknown_sessions() {
    let mut m = DataSinkManager::new(Logger::new(false)).unwrap();
    m.new_data_sink(1, &server("S1", "u")).unwrap();
    assert_eq!(m.new_data_sink(1, &server("S2", "u")), Err(ClientError::SessionAlreadyExists));
    assert_eq!(
        m.add_ice_candidate(9, "c".to_string()),
        Err(ClientError::ClientWithGivenIdNotFound)
    );
    assert_eq!(
        m.advance(9, SessionState::OfferGenerated),
        Err(ClientError::ClientWithGivenIdNotFound)
    );
    assert_eq!(m.add_ice_candidate(1, "c".to_string()), Ok(None));
}

#[test]
fn engine_needs_discovery_service() {
    assert_eq!(
        Engine::new(None, true, false, false).err(),
        Some(ClientError::DiscoveryServerNotUp)
    );
}

#[test]
fn engine_refuses_roles_it_lacks() {
    let mut sink_only = Engine::new(None, true, false, true).unwrap();
    assert_eq!(
        sink_only.new_data_source(vec![], vec![], "u".to_string()).err(),
        Some(ClientError::InvalidConfiguration)
    );
    assert_eq!(
        sink_only.on_offer(SERVER.to_string(), CLIENT_A.to_string()),
        Err(ClientError::InvalidConfiguration)
    );
    let mut source_only = Engine::new(Some(SERVER_ID), false, true, true).unwrap();
    assert_eq!(
        source_only.new_data_sink(1, &server("S1", "u")),
        Err(ClientError::InvalidConfiguration)
    );
}

#[test]
fn engine_takes_offer_and_routes_candidates() {
    let mut e = Engine::new(Some(SERVER_ID), false, true, true).unwrap();
    let id = e.on_offer(SERVER.to_string(), CLIENT_A.to_string()).unwrap();
    let text = uuid::Uuid::from_u128(id).to_string();
    assert_eq!(e.candidates(text, "c1".to_string()), Ok(None));
    assert_eq!(
        e.candidates(CLIENT_B.to_string(), "c2".to_string()),
        Err(ClientError::ServerWithGivenIdNotFound)
    );
    assert_eq!(
        e.candidates("nope".to_string(), "c3".to_string()),
        Err(ClientError::ApiError(ApiError::InvalidIdFormat))
    );
    assert_eq!(
        e.on_offer("bad".to_string(), CLIENT_A.to_string()),
        Err(ClientError::ApiError(ApiError::InvalidIdFormat))
    );
    assert_eq!(
        e.on_offer(SERVER.to_string(), "bad".to_string()),
        Err(ClientError::ApiError(ApiError::InvalidIdFormat))
    );
    assert_eq!(
        e.on_offer(CLIENT_B.to_string(), CLIENT_A.to_string()),
        Err(ClientError::ServerWithGivenIdNotFound)
    );
    assert_eq!(e.take_offer(Some(SERVER_ID), Some(1), CLIENT_A.to_string(), 5), Ok(()));
    assert_eq!(
        e.take_offer(Some(SERVER_ID), Some(1), CLIENT_A.to_string(), 5),
        Err(ClientError::SessionAlreadyExists)
    );
}

#[test]
fn engine_routes_candidates_by_session() {
    let mut e = Engine::new(Some(SERVER_ID), true, true, true).unwrap();
    e.new_data_sink(3, &server("S1", "u")).unwrap();
    e.take_offer(Some(SERVER_ID), Some(1), CLIENT_A.to_string(), 7).unwrap();
    assert_eq!(e.route_candidate(Some(3), "c".to_string()), Ok(None));
    assert_eq!(e.route_candidate(Some(7), "d".to_string()), Ok(None));
    assert_eq!(
        e.route_candidate(Some(4), "c".to_string()),
        Err(ClientError::ServerWithGivenIdNotFound)
    );
    assert_eq!(
        e.route_candidate(None, "c".to_string()),
        Err(ClientError::ApiError(ApiError::InvalidIdFormat))
    );
    let mut sink_only = Engine::new(None, true, false, true).unwrap();
    assert_eq!(
        sink_only.route_candidate(Some(4), "c".to_string()),
        Err(ClientError::ClientWithGivenIdNotFound)
    );
}

#[test]
fn engine_with_neither_role_refuses_candidates() {
    let mut neither = Engine::new(None, false, false, true).unwrap();
    assert_eq!(
        neither.route_candidate(Some(1), "c".to_string()),
        Err(ClientError::InvalidConfiguration)
    );
    assert_eq!(
        neither.candidates(CLIENT_A.to_string(), "c".to_string()),
        Err(ClientError::InvalidConfiguration)
    );
}

#[test]
fn engine_starts_with_requested_roles() {
    let e = Engine::new(Some(SERVER_ID), true, true, true);
    assert!(e.is_ok());
    let mut e = e.unwrap();
    assert!(e.new_data_sink(1, &server("S1", "u")).is_ok());
    let req = e.new_data_source(vec![], vec![], "u".to_string()).unwrap();
    assert_eq!(req.server_id, SERVER);
}

#[test]
fn download_with_sources_starts_at_first() {
    let d = Download::start_download(
        "F1".to_string(),
        vec![server("S1", "u1"), server("S2", "u2")],
    );
    assert!(d.is_ok());
    assert_eq!(d.unwrap().current_source().id, "S1");
}

#[test]
fn status_codes() {
    assert_eq!(ClientError::ApiError(ApiError::InvalidIdFormat).status_code(), 400);
    assert_eq!(ClientError::ApiError(ApiError::InternalServerError).status_code(), 500);
    assert_eq!(ClientError::InvalidConfiguration.status_code(), 500);
    assert_eq!(ClientError::NoSourceAvailable.status_code(), 500);
}

#[test]
fn logger_remembers_debug_level() {
    assert!(Logger::new(true).is_debug());
    assert!(!Logger::new(false).is_debug());
    let e = Engine::new(None, true, false, true).unwrap();
    assert!(e.logger().is_debug());
}

#[test]
fn engine_advances_sessions_of_its_roles() {
    let mut e = Engine::new(None, true, false, true).unwrap();
    e.new_data_sink(8, &server("S1", "u")).unwrap();
    assert_eq!(e.advance_session(Role::Sink, 8, SessionState::OfferGenerated), Ok(vec![]));
    assert_eq!(e.session_state(Role::Sink, 8), Some(SessionState::OfferGenerated));
    assert_eq!(
        e.advance_session(Role::Sink, 8, SessionState::Connected),
        Err(ClientError::InvalidTransition)
    );
    assert_eq!(
        e.advance_session(Role::Source, 8, SessionState::OfferGenerated),
        Err(ClientError::InvalidConfiguration)
    );
    assert_eq!(e.session_state(Role::Source, 8), None);
    assert_eq!(e.session_state(Role::Sink, 9), None);
}

#[test]
fn stalled_negotiation_times_out() {
    let mut e = Engine::new(Some(SERVER_ID), true, true, true).unwrap();
    e.new_data_sink(1, &server("S1", "u")).unwrap();
    e.advance_session(Role::Sink, 1, SessionState::OfferGenerated).unwrap();
    assert!(!e.expire_negotiation(Role::Sink, 1, 999, 1000));
    assert_eq!(e.session_state(Role::Sink, 1), Some(SessionState::OfferGenerated));
    assert!(e.expire_negotiation(Role::Sink, 1, 1000, 1000));
    assert_eq!(
        e.session_state(Role::Sink, 1),
        Some(SessionState::Failed(FailReason::Timeout))
    );
    assert!(!e.expire_negotiation(Role::Sink, 1, 5000, 1000));
    assert!(!e.expire_negotiation(Role::Sink, 2, 5000, 1000));
    assert!(!e.expire_negotiation(Role::Source, 1, 5000, 1000));
}

#[test]
fn connected_session_does_not_time_out() {
    let mut e = Engine::new(Some(SERVER_ID), false, true, true).unwrap();
    e.take_offer(Some(SERVER_ID), Some(1), CLIENT_A.to_string(), 4).unwrap();
    for st in &SOURCE_REST[..4] {
        e.advance_session(Role::Source, 4, *st).unwrap();
    }
    assert_eq!(e.session_state(Role::Source, 4), Some(SessionState::Connected));
    assert!(!e.expire_negotiation(Role::Source, 4, 60_000, 1000));
    assert_eq!(e.session_state(Role::Source, 4), Some(SessionState::Connected));
}
