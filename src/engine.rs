use vstd::prelude::*;

use crate::entities::{IceServer, Logger, RegisterOrRefreshServerReq, ServerInfo, ice_views, strs};
use crate::errors::{ApiError, ClientError};
use crate::ids::{new_uuid, parse_uuid, uuid_of, uuid_text};
use crate::registry::{given_files, given_ice_servers};
use crate::sink::{DataSinkManager, fresh_sink_session};
use crate::source::{DataSourceManager, offer_taken};
use crate::session::{FailReason, Role, SessionState, negotiation_stalled};
use crate::table::{advance_routed, candidate_routed, has_session, same_except};

verus! {

/// The error for an identifier that does not spell a UUID.
pub open spec fn invalid_id() -> ClientError {
    ClientError::ApiError(ApiError::InvalidIdFormat)
}

/// A peer process: a source of files, a sink, or both, each role with the
/// manager of its sessions.
pub struct Engine {
    data_source_manager: Option<DataSourceManager>,
    data_sink_manager: Option<DataSinkManager>,
    logger: Logger,
}

impl Engine {
    /// The manager of the source role, where this process serves files.
    pub closed spec fn source(&self) -> Option<DataSourceManager> {
        self.data_source_manager
    }

    /// The manager of the sink role, where this process downloads files.
    pub closed spec fn sink(&self) -> Option<DataSinkManager> {
        self.data_sink_manager
    }

    /// The sessions of the role `role`, where this process has that role.
    pub open spec fn sessions_of(&self, role: Role) -> Option<Seq<crate::session::SessionView>> {
        match role {
            Role::Sink => match self.sink() {
                Some(m) => Some(m.sessions()),
                None => None,
            },
            Role::Source => match self.source() {
                Some(m) => Some(m.sessions()),
                None => None,
            },
        }
    }

    pub open spec fn wf(&self) -> bool {
        &&& self.source() matches Some(m) ==> m.wf()
        &&& self.sink() matches Some(m) ==> m.wf()
    }

    /// A process with the roles asked for, given whether the discovery
    /// service answered; a process cannot start without it.
    pub fn new(
        server_uuid: Option<u128>,
        init_data_sink: bool,
        init_data_source: bool,
        discovery_up: bool,
    ) -> (r: Result<Engine, ClientError>)
        ensures
            !discovery_up <==> r == Err::<Engine, ClientError>(ClientError::DiscoveryServerNotUp),
            discovery_up ==> r is Ok,
            r matches Ok(e) ==> {
                &&& e.wf()
                &&& e.sink() is Some <==> init_data_sink
                &&& e.source() is Some <==> init_data_source
                &&& e.sink() matches Some(m) ==> m.sessions().len() == 0
                &&& e.source() matches Some(m) ==> m.sessions().len() == 0 && (
                server_uuid matches Some(u) ==> m.server_id() == u)
            },
    {
        let logger = Logger::new(true);
        if !discovery_up {
            return Err(ClientError::DiscoveryServerNotUp);
        }
        let mut data_sink_manager = None;
        let mut data_source_manager = None;
        if init_data_sink {
            match DataSinkManager::new(logger) {
                Ok(m) => {
                    data_sink_manager = Some(m);
                },
                Err(e) => {
                    return Err(e);
                },
            }
        }
        if init_data_source {
            match DataSourceManager::new(server_uuid, logger) {
                Ok(m) => {
                    data_source_manager = Some(m);
                },
                Err(e) => {
                    return Err(e);
                },
            }
        }
        Ok(Engine { data_source_manager, data_sink_manager, logger })
    }

    pub fn logger(&self) -> (r: Logger) {
        self.logger
    }

    /// Opens the sink session `session_id` to download from `server_info`;
    /// a process that is no sink refuses.
    pub fn new_data_sink(&mut self, session_id: u128, server_info: &ServerInfo) -> (r: Result<
        (),
        ClientError,
    >)
        requires
            old(self).wf(),
        ensures
            final(self).wf(),
            final(self).source() == old(self).source(),
            old(self).sink() is None ==> r == Err::<(), ClientError>(
                ClientError::InvalidConfiguration,
            ) && final(self).sink() is None,
            old(self).sink() matches Some(m) ==> final(self).sink() matches Some(m2) && (r is Ok
                <==> !has_session(m.sessions(), session_id)) && (r is Ok ==> m2.sessions()
                == m.sessions().push(fresh_sink_session(session_id, server_info@.id))) && (r is Err
                ==> m2.sessions() == m.sessions() && r == Err::<(), ClientError>(
                ClientError::SessionAlreadyExists,
            )),
    {
        match &mut self.data_sink_manager {
            Some(m) => m.new_data_sink(session_id, server_info),
            None => Err(ClientError::InvalidConfiguration),
        }
    }

    /// The request that advertises this source to the discovery registry;
    /// a process that is no source refuses.
    pub fn new_data_source(
        &self,
        files: Vec<String>,
        ice_servers: Vec<IceServer>,
        url: String,
    ) -> (r: Result<RegisterOrRefreshServerReq, ClientError>)
        ensures
            self.source() is None <==> r == Err::<RegisterOrRefreshServerReq, ClientError>(
                ClientError::InvalidConfiguration,
            ),
            self.source() matches Some(m) ==> r matches Ok(req) && req.server_id@ == uuid_text(
                m.server_id(),
            ) && given_files(req.files) == strs(files@) && given_ice_servers(req.ice_candidates)
                == ice_views(ice_servers@) && req.url@ == url@,
    {
        match &self.data_source_manager {
            Some(m) => Ok(m.new_data_source(files, ice_servers, url)),
            None => Err(ClientError::InvalidConfiguration),
        }
    }

    /// Takes in an offer given the outcomes of reading the source and sink
    /// identifiers of the request as UUIDs: a process that is no source
    /// refuses, and so does one of the identifiers that is not a UUID; else
    /// the offer becomes the source session `session_id`.
    pub fn take_offer(
        &mut self,
        server_id: Option<u128>,
        client_id: Option<u128>,
        client_text: String,
        session_id: u128,
    ) -> (r: Result<(), ClientError>)
        requires
            old(self).wf(),
        ensures
            final(self).wf(),
            final(self).sink() == old(self).sink(),
            old(self).source() is None ==> r == Err::<(), ClientError>(
                ClientError::InvalidConfiguration,
            ) && final(self).source() is None,
            old(self).source() is Some && (server_id is None || client_id is None) ==> r == Err::<
                (),
                ClientError,
            >(invalid_id()) && final(self).source() == old(self).source(),
            old(self).source() is Some && server_id is Some && client_id is Some ==> {
                let m = old(self).source()->0;
                &&& final(self).source() is Some
                &&& final(self).source()->0.server_id() == m.server_id()
                &&& offer_taken(
                    m.sessions(),
                    final(self).source()->0.sessions(),
                    m.server_id(),
                    client_text@,
                    server_id->0,
                    session_id,
                    r,
                )
            },
    {
        match &mut self.data_source_manager {
            None => Err(ClientError::InvalidConfiguration),
            Some(m) => {
                let sid = match server_id {
                    Some(x) => x,
                    None => {
                        return Err(ClientError::ApiError(ApiError::InvalidIdFormat));
                    },
                };
                if client_id.is_none() {
                    return Err(ClientError::ApiError(ApiError::InvalidIdFormat));
                }
                m.connect_to_client(client_text, sid, session_id)
            },
        }
    }

    /// Takes in the offer of the sink `client_id` to the source `server_id`
    /// as a new source session under a fresh random identifier, which it
    /// returns. Both identifiers must spell UUIDs.
    pub fn on_offer(&mut self, server_id: String, client_id: String) -> (r: Result<
        u128,
        ClientError,
    >)
        requires
            old(self).wf(),
        ensures
            final(self).wf(),
            final(self).sink() == old(self).sink(),
            old(self).source() is None ==> r == Err::<u128, ClientError>(
                ClientError::InvalidConfiguration,
            ) && final(self).source() is None,
            old(self).source() is Some && (uuid_of(server_id@) is None || uuid_of(client_id@) is None)
                ==> r == Err::<u128, ClientError>(invalid_id()) && final(self).source() == old(self).source(),
            old(self).source() is Some && uuid_of(server_id@) is Some && uuid_of(client_id@) is Some
                ==> {
                let m = old(self).source()->0;
                let sid = uuid_of(server_id@)->0;
                let m2 = final(self).source()->0;
                &&& final(self).source() is Some
                &&& m2.server_id() == m.server_id()
                &&& sid != m.server_id() ==> r == Err::<u128, ClientError>(
                    ClientError::ServerWithGivenIdNotFound,
                )
                &&& r is Err ==> m2.sessions() == m.sessions()
                &&& sid == m.server_id() && m.sessions().len() == 0 ==> r is Ok
                &&& sid == m.server_id() && r is Err ==> r == Err::<u128, ClientError>(
                    ClientError::SessionAlreadyExists,
                ) && m.sessions().len() > 0
                &&& r is Ok ==> offer_taken(
                    m.sessions(),
                    m2.sessions(),
                    m.server_id(),
                    client_id@,
                    sid,
                    r->Ok_0,
                    Ok(()),
                )
            },
    {
        let server = parse_uuid(server_id.as_str());
        let client = parse_uuid(client_id.as_str());
        let session_id = new_uuid();
        match self.take_offer(server, client, client_id, session_id) {
            Ok(()) => Ok(session_id),
            Err(e) => Err(e),
        }
    }

    /// Moves the session `id` of the role `role` to `to`; see
    /// `Session::advance`. A process without that role refuses.
    pub fn advance_session(&mut self, role: Role, id: u128, to: SessionState) -> (r: Result<
        Vec<String>,
        ClientError,
    >)
        requires
            old(self).wf(),
        ensures
            final(self).wf(),
            role == Role::Sink ==> final(self).source() == old(self).source() && (old(self).sink() is None ==> r == Err::<Vec<String>, ClientError>(
                ClientError::InvalidConfiguration,
            ) && final(self).sink() is None) && (old(self).sink() is Some ==> final(self).sink() is Some && advance_routed(
                old(self).sink()->0.sessions(),
                final(self).sink()->0.sessions(),
                id,
                to,
                r,
                ClientError::ClientWithGivenIdNotFound,
            )),
            role == Role::Source ==> final(self).sink() == old(self).sink() && (old(self).source() is None ==> r == Err::<Vec<String>, ClientError>(
                ClientError::InvalidConfiguration,
            ) && final(self).source() is None) && (old(self).source() is Some ==> final(self).source() is Some && final(self).source()->0.server_id() == old(self).source()->0.server_id() && advance_routed(
                old(self).source()->0.sessions(),
                final(self).source()->0.sessions(),
                id,
                to,
                r,
                ClientError::ServerWithGivenIdNotFound,
            )),
    {
        match role {
            Role::Sink => match &mut self.data_sink_manager {
                Some(m) => m.advance(id, to),
                None => Err(ClientError::InvalidConfiguration),
            },
            Role::Source => match &mut self.data_source_manager {
                Some(m) => m.advance(id, to),
                None => Err(ClientError::InvalidConfiguration),
            },
        }
    }

    /// The state of the session `id` of the role `role`, if there is one.
    pub fn session_state(&self, role: Role, id: u128) -> (r: Option<SessionState>)
        requires
            self.wf(),
        ensures
            role == Role::Sink && self.sink() is None ==> r is None,
            role == Role::Source && self.source() is None ==> r is None,
            role == Role::Sink && self.sink() is Some ==> (r is None <==> !has_session(
                self.sink()->0.sessions(),
                id,
            )),
            role == Role::Source && self.source() is Some ==> (r is None <==> !has_session(
                self.source()->0.sessions(),
                id,
            )),
            r is Some && role == Role::Sink ==> exists|i: int|
                0 <= i < self.sink()->0.sessions().len() && (#[trigger] self.sink()->0.sessions()[i]).id
                    == id && self.sink()->0.sessions()[i].state == r->0,
            r is Some && role == Role::Source ==> exists|i: int|
                0 <= i < self.source()->0.sessions().len() && (
                #[trigger] self.source()->0.sessions()[i]).id == id
                    && self.source()->0.sessions()[i].state == r->0,
    {
        match role {
            Role::Sink => match &self.data_sink_manager {
                Some(m) => m.session_state(id),
                None => None,
            },
            Role::Source => match &self.data_source_manager {
                Some(m) => m.session_state(id),
                None => None,
            },
        }
    }

    /// Ends the session `id` of the role `role` with a timeout where it has
    /// negotiated for `elapsed_ms`, no less than the `limit_ms` allowed,
    /// without connecting or ending. Tells whether it did.
    pub fn expire_negotiation(&mut self, role: Role, id: u128, elapsed_ms: u64, limit_ms: u64) -> (r:
        bool)
        requires
            old(self).wf(),
        ensures
            final(self).wf(),
            r == (old(self).sessions_of(role) is Some && exists|i: int|
                0 <= i < old(self).sessions_of(role)->0.len() && (#[trigger] old(self).sessions_of(role)->0[i]).id == id && negotiation_stalled(
                    old(self).sessions_of(role)->0[i].state,
                    elapsed_ms,
                    limit_ms,
                )),
            !r ==> *final(self) == *old(self),
            role == Role::Sink ==> final(self).source() == old(self).source(),
            role == Role::Source ==> final(self).sink() == old(self).sink(),
            role == Role::Source && old(self).source() is Some ==> final(self).source() is Some
                && final(self).source()->0.server_id() == old(self).source()->0.server_id(),
            r ==> final(self).sessions_of(role) is Some && exists|i: int|
                0 <= i < old(self).sessions_of(role)->0.len() && (#[trigger] old(self).sessions_of(role)->0[i]).id == id && final(self).sessions_of(role)->0[i].state
                    == SessionState::Failed(FailReason::Timeout) && final(self).sessions_of(
                    role,
                )->0[i].history == old(self).sessions_of(role)->0[i].history.push(
                    SessionState::Failed(FailReason::Timeout),
                ) && same_except(
                    old(self).sessions_of(role)->0,
                    final(self).sessions_of(role)->0,
                    i,
                ),
    {
        proof {
            match role {
                Role::Sink => {
                    if self.sink() is Some {
                        self.sink()->0.lemma_ids_unique();
                    }
                },
                Role::Source => {
                    if self.source() is Some {
                        self.source()->0.lemma_ids_unique();
                    }
                },
            }
        }
        let st = match self.session_state(role, id) {
            Some(s) => s,
            None => {
                return false;
            },
        };
        let stalled = match st {
            SessionState::Connected
            | SessionState::ChannelOpen
            | SessionState::Transferring
            | SessionState::Closed
            | SessionState::Failed(_) => false,
            _ => elapsed_ms >= limit_ms,
        };
        if !stalled {
            return false;
        }
        let _ = self.advance_session(role, id, SessionState::Failed(FailReason::Timeout));
        true
    }

    /// Hands a candidate to the session `id`, given the outcome of reading
    /// its identifier as a UUID. It goes to the sink session of that
    /// identifier where there is one, else to the source session of that
    /// identifier; a process with neither role refuses it.
    pub fn route_candidate(&mut self, id: Option<u128>, candidate: String) -> (r: Result<
        Option<String>,
        ClientError,
    >)
        requires
            old(self).wf(),
        ensures
            final(self).wf(),
            candidate_delivered(*old(self), *final(self), id, candidate@, r),
    {
        let sid = match id {
            Some(x) => x,
            None => {
                return Err(ClientError::ApiError(ApiError::InvalidIdFormat));
            },
        };
        if self.data_sink_manager.is_none() && self.data_source_manager.is_none() {
            return Err(ClientError::InvalidConfiguration);
        }
        if let Some(m) = &mut self.data_sink_manager {
            if m.session_state(sid).is_some() {
                return m.add_ice_candidate(sid, candidate);
            }
        }
        if let Some(m) = &mut self.data_source_manager {
            return m.add_ice_candidate(sid, candidate);
        }
        Err(ClientError::ClientWithGivenIdNotFound)
    }

    /// Hands a candidate to the session whose identifier `id` spells; see
    /// `route_candidate`.
    pub fn candidates(&mut self, id: String, candidate: String) -> (r: Result<
        Option<String>,
        ClientError,
    >)
        requires
            old(self).wf(),
        ensures
            final(self).wf(),
            candidate_delivered(*old(self), *final(self), uuid_of(id@), candidate@, r),
    {
        let parsed = parse_uuid(id.as_str());
        self.route_candidate(parsed, candidate)
    }
}

/// What handing the candidate `c` to the session `id` of the process `old`
/// gives, where `id` is the outcome of reading its identifier as a UUID:
/// - an identifier that is not a UUID is refused, and nothing changes;
/// - a process with neither role refuses it, and nothing changes;
/// - where a sink session carries `id`, that session takes it in;
/// - else, in a process that serves files, it is routed among the source
///   sessions (`ServerWithGivenIdNotFound` where none carries `id`);
/// - else it is refused with `ClientWithGivenIdNotFound`, and nothing changes.
pub open spec fn candidate_delivered(
    old: Engine,
    new: Engine,
    id: Option<u128>,
    c: Seq<char>,
    r: Result<Option<String>, ClientError>,
) -> bool {
    let to_sink = id is Some && old.sink() is Some && has_session(old.sink()->0.sessions(), id->0);
    &&& id is None ==> r == Err::<Option<String>, ClientError>(invalid_id()) && new == old
    &&& id is Some && old.sink() is None && old.source() is None ==> r == Err::<
        Option<String>,
        ClientError,
    >(ClientError::InvalidConfiguration) && new == old
    &&& to_sink ==> {
        &&& new.source() == old.source()
        &&& new.sink() is Some
        &&& candidate_routed(
            old.sink()->0.sessions(),
            new.sink()->0.sessions(),
            id->0,
            c,
            r,
            ClientError::ClientWithGivenIdNotFound,
        )
    }
    &&& id is Some && !to_sink && old.source() is Some ==> {
        &&& new.sink() == old.sink()
        &&& new.source() is Some
        &&& new.source()->0.server_id() == old.source()->0.server_id()
        &&& candidate_routed(
            old.source()->0.sessions(),
            new.source()->0.sessions(),
            id->0,
            c,
            r,
            ClientError::ServerWithGivenIdNotFound,
        )
    }
    &&& id is Some && !to_sink && old.sink() is Some && old.source() is None ==> r == Err::<
        Option<String>,
        ClientError,
    >(ClientError::ClientWithGivenIdNotFound) && new == old
}

} // verus!
