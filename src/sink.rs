use vstd::prelude::*;

use crate::entities::{Logger, ServerInfo, ServerInfoView};
use crate::errors::ClientError;
use crate::registry::record_views;
use crate::session::{
    Role, Session, SessionState, SessionView, reached_connected,
};
use crate::table::{SessionTable, session_ids_unique, advance_routed, candidate_routed, has_session};

verus! {

/// A sink session just created to negotiate with the source `server`.
pub open spec fn fresh_sink_session(id: u128, server: Seq<char>) -> SessionView {
    SessionView {
        id,
        role: Role::Sink,
        counterpart: server,
        state: SessionState::Created,
        pending: Seq::empty(),
        history: seq![SessionState::Created],
    }
}

/// The sessions of a process that downloads files, each negotiating with
/// one source.
pub struct DataSinkManager {
    sessions: SessionTable,
    logger: Logger,
}

impl DataSinkManager {
    /// The sessions, in order of creation.
    pub closed spec fn sessions(&self) -> Seq<SessionView> {
        self.sessions.view_seq()
    }

    pub closed spec fn wf(&self) -> bool {
        &&& self.sessions.wf()
        &&& forall|i: int|
            0 <= i < self.sessions().len() ==> (#[trigger] self.sessions()[i]).role == Role::Sink
    }

    /// A consistent manager holds each session identifier once.
    pub proof fn lemma_ids_unique(&self)
        requires
            self.wf(),
        ensures
            session_ids_unique(self.sessions()),
    {
        self.sessions.lemma_ids_unique();
    }

    pub fn new(logger: Logger) -> (r: Result<DataSinkManager, ClientError>)
        ensures
            r matches Ok(m) && m.wf() && m.sessions().len() == 0,
    {
        Ok(DataSinkManager { sessions: SessionTable::new(), logger })
    }

    /// Opens the session `session_id` to download from the source
    /// `server_info`.
    pub fn new_data_sink(&mut self, session_id: u128, server_info: &ServerInfo) -> (r: Result<
        (),
        ClientError,
    >)
        requires
            old(self).wf(),
        ensures
            final(self).wf(),
            r is Ok <==> !has_session(old(self).sessions(), session_id),
            r is Err ==> r == Err::<(), ClientError>(ClientError::SessionAlreadyExists)
                && final(self).sessions() == old(self).sessions(),
            r is Ok ==> final(self).sessions() == old(self).sessions().push(
                fresh_sink_session(session_id, server_info@.id),
            ),
    {
        let s = Session::new(session_id, Role::Sink, server_info.id.clone());
        proof {
            assert(s@.pending =~= fresh_sink_session(session_id, server_info@.id).pending);
        }
        let r = self.sessions.insert(s);
        proof {
            assert forall|i: int| 0 <= i < self.sessions().len() implies (
            #[trigger] self.sessions()[i]).role == Role::Sink by {
                if i < old(self).sessions().len() {
                    assert(self.sessions()[i] == old(self).sessions()[i]);
                }
            }
        }
        r
    }

    /// Moves the session `session_id` to `to`; see `Session::advance`. Every
    /// other session stays as it is.
    pub fn advance(&mut self, session_id: u128, to: SessionState) -> (r: Result<
        Vec<String>,
        ClientError,
    >)
        requires
            old(self).wf(),
        ensures
            final(self).wf(),
            advance_routed(
                old(self).sessions(),
                final(self).sessions(),
                session_id,
                to,
                r,
                ClientError::ClientWithGivenIdNotFound,
            ),
    {
        let r = match self.sessions.advance(session_id, to) {
            Some(res) => res,
            None => Err(ClientError::ClientWithGivenIdNotFound),
        };
        proof {
            assert forall|i: int| 0 <= i < self.sessions().len() implies (
            #[trigger] self.sessions()[i]).role == Role::Sink by {
                assert(old(self).sessions()[i].role == Role::Sink);
            }
        }
        r
    }

    /// Hands a candidate of the counterpart to the session `id`; see
    /// `Session::add_remote_candidate`. Every other session stays as it is.
    pub fn add_ice_candidate(&mut self, id: u128, candidate: String) -> (r: Result<
        Option<String>,
        ClientError,
    >)
        requires
            old(self).wf(),
        ensures
            final(self).wf(),
            candidate_routed(
                old(self).sessions(),
                final(self).sessions(),
                id,
                candidate@,
                r,
                ClientError::ClientWithGivenIdNotFound,
            ),
    {
        let r = match self.sessions.add_remote_candidate(id, candidate) {
            Some(res) => res,
            None => Err(ClientError::ClientWithGivenIdNotFound),
        };
        proof {
            assert forall|i: int| 0 <= i < self.sessions().len() implies (
            #[trigger] self.sessions()[i]).role == Role::Sink by {
                assert(old(self).sessions()[i].role == Role::Sink);
            }
        }
        r
    }

    /// The state of the session `id`, if there is one.
    pub fn session_state(&self, id: u128) -> (r: Option<SessionState>)
        requires
            self.wf(),
        ensures
            r is None <==> !has_session(self.sessions(), id),
            r matches Some(st) ==> exists|i: int|
                0 <= i < self.sessions().len() && (#[trigger] self.sessions()[i]).id == id
                    && self.sessions()[i].state == st,
    {
        self.sessions.state_of(id)
    }
}

/// A download of one file: the sources the registry returned, in the order
/// returned, and the one being tried.
pub struct Download {
    file_id: String,
    candidates: Vec<ServerInfo>,
    current: usize,
}

/// What a download holds, as plain values.
pub struct DownloadView {
    pub file_id: Seq<char>,
    pub candidates: Seq<ServerInfoView>,
    pub current: int,
}

impl View for Download {
    type V = DownloadView;

    closed spec fn view(&self) -> DownloadView {
        DownloadView {
            file_id: self.file_id@,
            candidates: record_views(self.candidates@),
            current: self.current as int,
        }
    }
}

impl Download {
    /// The source being tried is one of the candidates.
    pub open spec fn wf(&self) -> bool {
        0 <= self@.current < self@.candidates.len()
    }

    /// Starts the download of `file_id` from the first of `candidates`;
    /// with no candidate there is no source to download from.
    pub fn start_download(file_id: String, candidates: Vec<ServerInfo>) -> (r: Result<
        Download,
        ClientError,
    >)
        ensures
            candidates@.len() == 0 <==> r == Err::<Download, ClientError>(
                ClientError::NoSourceAvailable,
            ),
            candidates@.len() > 0 ==> r is Ok,
            r matches Ok(d) ==> d.wf() && d@.file_id == file_id@ && d@.candidates
                == record_views(candidates@) && d@.current == 0,
    {
        if candidates.len() == 0 {
            return Err(ClientError::NoSourceAvailable);
        }
        Ok(Download { file_id, candidates, current: 0 })
    }

    /// The file being downloaded.
    pub fn file_id(&self) -> (r: &String)
        ensures
            r@ == self@.file_id,
    {
        &self.file_id
    }

    /// The source being tried.
    pub fn current_source(&self) -> (r: &ServerInfo)
        requires
            self.wf(),
        ensures
            r@ == self@.candidates[self@.current],
    {
        &self.candidates[self.current]
    }

    /// After the session with the current source failed in state
    /// `failed_at`: a failure before `Connected` moves on to the next
    /// source in order, or ends the download with `NoSourceAvailable` when
    /// none is left; a failure once connected ends it with
    /// `TransferAborted`. Only a move changes the download.
    pub fn after_failure(&mut self, failed_at: SessionState) -> (r: Result<(), ClientError>)
        requires
            old(self).wf(),
        ensures
            final(self).wf(),
            final(self)@.file_id == old(self)@.file_id,
            final(self)@.candidates == old(self)@.candidates,
            reached_connected(failed_at) ==> r == Err::<(), ClientError>(
                ClientError::TransferAborted,
            ),
            !reached_connected(failed_at) && old(self)@.current + 1 < old(self)@.candidates.len()
                ==> r is Ok,
            !reached_connected(failed_at) && old(self)@.current + 1 == old(self)@.candidates.len()
                ==> r == Err::<(), ClientError>(ClientError::NoSourceAvailable),
            r is Ok ==> final(self)@.current == old(self)@.current + 1,
            r is Err ==> final(self)@.current == old(self)@.current,
    {
        let connected = match failed_at {
            SessionState::Connected
            | SessionState::ChannelOpen
            | SessionState::Transferring
            | SessionState::Closed => true,
            _ => false,
        };
        if connected {
            return Err(ClientError::TransferAborted);
        }
        if self.current < self.candidates.len() - 1 {
            self.current = self.current + 1;
            Ok(())
        } else {
            Err(ClientError::NoSourceAvailable)
        }
    }
}

} // verus!
