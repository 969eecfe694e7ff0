use vstd::prelude::*;

use crate::entities::{IceServer, Logger, RegisterOrRefreshServerReq, ice_views, strs};
use crate::errors::ClientError;
use crate::ids::{new_uuid, uuid_string, uuid_text};
use crate::registry::{given_files, given_ice_servers};
use crate::session::{Role, Session, SessionState, SessionView, advance_post};
use crate::table::{SessionTable, session_ids_unique, advance_routed, candidate_routed, has_session, same_except};

verus! {

/// A source session just after it took in the offer of `client`: its
/// description is to be answered next.
pub open spec fn offered_session(id: u128, client: Seq<char>) -> SessionView {
    SessionView {
        id,
        role: Role::Source,
        counterpart: client,
        state: SessionState::OfferReceived,
        pending: Seq::empty(),
        history: seq![
            SessionState::Created,
            SessionState::OfferGenerated,
            SessionState::OfferReceived,
        ],
    }
}

/// What taking in the offer of `client`, addressed to `server_id`, as the
/// session `session_id` gives to a source registered under `uuid`: an offer
/// for another source is refused, and so is an identifier already in use;
/// else the new session is appended and no other changes.
pub open spec fn offer_taken(
    old: Seq<SessionView>,
    new: Seq<SessionView>,
    uuid: u128,
    client: Seq<char>,
    server_id: u128,
    session_id: u128,
    r: Result<(), ClientError>,
) -> bool {
    &&& server_id != uuid ==> r == Err::<(), ClientError>(ClientError::ServerWithGivenIdNotFound)
    &&& server_id == uuid && has_session(old, session_id) ==> r == Err::<(), ClientError>(
        ClientError::SessionAlreadyExists,
    )
    &&& r is Err ==> new == old
    &&& r is Ok <==> server_id == uuid && !has_session(old, session_id)
    &&& r is Ok ==> new == old.push(offered_session(session_id, client))
}

/// Offers of two distinct sinks taken in one after the other give two
/// sessions of their own, and a step of the first leaves the second exactly
/// as it was.
pub proof fn lemma_offers_independent(
    s0: Seq<SessionView>,
    s1: Seq<SessionView>,
    s2: Seq<SessionView>,
    s3: Seq<SessionView>,
    uuid: u128,
    c1: Seq<char>,
    c2: Seq<char>,
    id1: u128,
    id2: u128,
    to: SessionState,
    r: Result<Vec<String>, ClientError>,
)
    requires
        c1 != c2,
        offer_taken(s0, s1, uuid, c1, uuid, id1, Ok(())),
        offer_taken(s1, s2, uuid, c2, uuid, id2, Ok(())),
        advance_routed(s2, s3, id1, to, r, ClientError::ServerWithGivenIdNotFound),
    ensures
        id1 != id2,
        s2.len() == s0.len() + 2,
        s2[s0.len() as int] == offered_session(id1, c1),
        s2[s0.len() as int + 1] == offered_session(id2, c2),
        s3.len() == s2.len(),
        s3[s0.len() as int + 1] == s2[s0.len() as int + 1],
{
    let n = s0.len() as int;
    assert(s1[n].id == id1);
    assert(has_session(s1, id1));
    assert(s2[n] == s1[n]);
    assert(s2[n].id == id1);
    assert(has_session(s2, id1));
    let i = choose|i: int|
        0 <= i < s2.len() && (#[trigger] s2[i]).id == id1 && advance_post(s2[i], to, r, s3[i])
            && same_except(s2, s3, i);
    assert(s2[n + 1].id == id2);
    assert(i != n + 1);
}

/// The sessions of a process that provides files, each answering the offer
/// of one sink.
pub struct DataSourceManager {
    pub uuid: u128,
    sessions: SessionTable,
    logger: Logger,
}

impl DataSourceManager {
    /// The sessions, in order of arrival of their offers.
    pub closed spec fn sessions(&self) -> Seq<SessionView> {
        self.sessions.view_seq()
    }

    /// The identifier under which this source is registered.
    pub closed spec fn server_id(&self) -> u128 {
        self.uuid
    }

    pub closed spec fn wf(&self) -> bool {
        &&& self.sessions.wf()
        &&& forall|i: int|
            0 <= i < self.sessions().len() ==> (#[trigger] self.sessions()[i]).role
                == Role::Source
    }

    /// A consistent manager holds each session identifier once.
    pub proof fn lemma_ids_unique(&self)
        requires
            self.wf(),
        ensures
            session_ids_unique(self.sessions()),
    {
        self.sessions.lemma_ids_unique();
    }

    /// A manager with no session, serving under `uuid`, or under a fresh
    /// random identifier where none is given.
    pub fn new(uuid: Option<u128>, logger: Logger) -> (r: Result<DataSourceManager, ClientError>)
        ensures
            r matches Ok(m) && m.wf() && m.sessions().len() == 0 && (uuid matches Some(u)
                ==> m.server_id() == u),
    {
        let uuid = match uuid {
            Some(x) => x,
            None => new_uuid(),
        };
        Ok(DataSourceManager { uuid, sessions: SessionTable::new(), logger })
    }

    /// The request that advertises this source to the discovery registry.
    pub fn new_data_source(
        &self,
        files: Vec<String>,
        ice_servers: Vec<IceServer>,
        url: String,
    ) -> (r: RegisterOrRefreshServerReq)
        ensures
            r.server_id@ == uuid_text(self.server_id()),
            given_files(r.files) == strs(files@),
            given_ice_servers(r.ice_candidates) == ice_views(ice_servers@),
            r.files is Some && r.ice_candidates is Some,
            r.url@ == url@,
    {
        RegisterOrRefreshServerReq {
            server_id: uuid_string(self.uuid),
            files: Some(files),
            ice_candidates: Some(ice_servers),
            url,
        }
    }

    /// Takes in the offer of the sink `client_id`, addressed to the source
    /// `server_id`, as the new session `session_id`.
    pub fn connect_to_client(&mut self, client_id: String, server_id: u128, session_id: u128) -> (r:
        Result<(), ClientError>)
        requires
            old(self).wf(),
        ensures
            final(self).wf(),
            final(self).server_id() == old(self).server_id(),
            offer_taken(
                old(self).sessions(),
                final(self).sessions(),
                old(self).server_id(),
                client_id@,
                server_id,
                session_id,
                r,
            ),
    {
        if server_id != self.uuid {
            return Err(ClientError::ServerWithGivenIdNotFound);
        }
        if self.sessions.contains(session_id) {
            return Err(ClientError::SessionAlreadyExists);
        }
        let mut s = Session::new(session_id, Role::Source, client_id);
        let _ = s.advance(SessionState::OfferGenerated);
        let _ = s.advance(SessionState::OfferReceived);
        proof {
            assert(s@.history =~= offered_session(session_id, client_id@).history);
            assert(s@.pending =~= offered_session(session_id, client_id@).pending);
        }
        let r = self.sessions.insert(s);
        proof {
            assert forall|i: int| 0 <= i < self.sessions().len() implies (
            #[trigger] self.sessions()[i]).role == Role::Source by {
                if i < old(self).sessions().len() {
                    assert(self.sessions()[i] == old(self).sessions()[i]);
                }
            }
        }
        r
    }

    /// Takes in the offer of the sink `client_id` as a new session under a
    /// fresh random identifier, which it returns.
    pub fn accept_offer(&mut self, client_id: String, server_id: u128) -> (r: Result<
        u128,
        ClientError,
    >)
        requires
            old(self).wf(),
        ensures
            final(self).wf(),
            final(self).server_id() == old(self).server_id(),
            server_id != old(self).server_id() <==> r == Err::<u128, ClientError>(
                ClientError::ServerWithGivenIdNotFound,
            ),
            server_id == old(self).server_id() && old(self).sessions().len() == 0 ==> r is Ok,
            server_id == old(self).server_id() && r is Err ==> r == Err::<u128, ClientError>(
                ClientError::SessionAlreadyExists,
            ) && old(self).sessions().len() > 0,
            r is Err ==> final(self).sessions() == old(self).sessions(),
            r matches Ok(id) ==> !has_session(old(self).sessions(), id) && final(self).sessions()
                == old(self).sessions().push(offered_session(id, client_id@)),
    {
        let session_id = new_uuid();
        match self.connect_to_client(client_id, server_id, session_id) {
            Ok(()) => Ok(session_id),
            Err(e) => Err(e),
        }
    }

    /// Moves the session `session_id` to `to`; see `Session::advance`. Every
    /// other session stays as it is.
    pub fn advance(&mut self, session_id: u128, to: SessionState) -> (r: Result<
        Vec<String>,
        ClientError,
    >)
        requires
            old(self).wf(),
        ensures
            final(self).wf(),
            final(self).server_id() == old(self).server_id(),
            advance_routed(
                old(self).sessions(),
                final(self).sessions(),
                session_id,
                to,
                r,
                ClientError::ServerWithGivenIdNotFound,
            ),
    {
        let r = match self.sessions.advance(session_id, to) {
            Some(res) => res,
            None => Err(ClientError::ServerWithGivenIdNotFound),
        };
        proof {
            assert forall|i: int| 0 <= i < self.sessions().len() implies (
            #[trigger] self.sessions()[i]).role == Role::Source by {
                assert(old(self).sessions()[i].role == Role::Source);
            }
        }
        r
    }

    /// Hands a candidate of the counterpart to the session `id`; see
    /// `Session::add_remote_candidate`. Every other session stays as it is.
    pub fn add_ice_candidate(&mut self, id: u128, candidate: String) -> (r: Result<
        Option<String>,
        ClientError,
    >)
        requires
            old(self).wf(),
        ensures
            final(self).wf(),
            final(self).server_id() == old(self).server_id(),
            candidate_routed(
                old(self).sessions(),
                final(self).sessions(),
                id,
                candidate@,
                r,
                ClientError::ServerWithGivenIdNotFound,
            ),
    {
        let r = match self.sessions.add_remote_candidate(id, candidate) {
            Some(res) => res,
            None => Err(ClientError::ServerWithGivenIdNotFound),
        };
        proof {
            assert forall|i: int| 0 <= i < self.sessions().len() implies (
            #[trigger] self.sessions()[i]).role == Role::Source by {
                assert(old(self).sessions()[i].role == Role::Source);
            }
        }
        r
    }

    /// The state of the session `id`, if there is one.
    pub fn session_state(&self, id: u128) -> (r: Option<SessionState>)
        requires
            self.wf(),
        ensures
            r is None <==> !has_session(self.sessions(), id),
            r matches Some(st) ==> exists|i: int|
                0 <= i < self.sessions().len() && (#[trigger] self.sessions()[i]).id == id
                    && self.sessions()[i].state == st,
    {
        self.sessions.state_of(id)
    }
}

} // verus!
