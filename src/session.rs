use vstd::prelude::*;

use crate::entities::strs;
use crate::errors::ClientError;

verus! {

/// Which side of a transfer a session serves.
#[derive(Debug, Clone, Copy, PartialEq, Eq, Structural)]
pub enum Role {
    /// The session provides the file.
    Source,
    /// The session downloads the file.
    Sink,
}

/// Why a session failed.
#[derive(Debug, Clone, Copy, PartialEq, Eq, Structural)]
pub enum FailReason {
    /// Creating or setting a session description, or opening the channel, failed.
    Negotiation,
    /// The signaling transport or the channel failed.
    Transport,
    /// Negotiation did not reach a connection in the time allowed.
    Timeout,
}

/// Where a session stands in connectivity negotiation and data transfer.
///
/// A sink goes `Created`, `OfferGenerated`, `OfferSent`, `AnswerReceived`,
/// `RemoteDescriptionSet`; a source goes `Created`, `OfferGenerated` (the
/// counterpart's offer is at hand), `OfferReceived`, `AnswerGenerated`,
/// `RemoteDescriptionSet`. Both then go `IceExchanging`, `Connected`,
/// `ChannelOpen`, `Transferring`, `Closed`. `Failed` can be reached from
/// every state but `Closed` and `Failed`.
#[derive(Debug, Clone, Copy, PartialEq, Eq, Structural)]
pub enum SessionState {
    Created,
    OfferGenerated,
    OfferSent,
    OfferReceived,
    AnswerReceived,
    AnswerGenerated,
    RemoteDescriptionSet,
    IceExchanging,
    Connected,
    ChannelOpen,
    Transferring,
    Closed,
    Failed(FailReason),
}

/// The state that follows `s` on the successful path of a session of `role`.
pub open spec fn successor(role: Role, s: SessionState) -> Option<SessionState> {
    match s {
        SessionState::Created => Some(SessionState::OfferGenerated),
        SessionState::OfferGenerated => match role {
            Role::Sink => Some(SessionState::OfferSent),
            Role::Source => Some(SessionState::OfferReceived),
        },
        SessionState::OfferSent => match role {
            Role::Sink => Some(SessionState::AnswerReceived),
            Role::Source => None,
        },
        SessionState::OfferReceived => match role {
            Role::Sink => None,
            Role::Source => Some(SessionState::AnswerGenerated),
        },
        SessionState::AnswerReceived => match role {
            Role::Sink => Some(SessionState::RemoteDescriptionSet),
            Role::Source => None,
        },
        SessionState::AnswerGenerated => match role {
            Role::Sink => None,
            Role::Source => Some(SessionState::RemoteDescriptionSet),
        },
        SessionState::RemoteDescriptionSet => Some(SessionState::IceExchanging),
        SessionState::IceExchanging => Some(SessionState::Connected),
        SessionState::Connected => Some(SessionState::ChannelOpen),
        SessionState::ChannelOpen => Some(SessionState::Transferring),
        SessionState::Transferring => Some(SessionState::Closed),
        SessionState::Closed => None,
        SessionState::Failed(_) => None,
    }
}

/// No transition leaves `s`.
pub open spec fn is_terminal(s: SessionState) -> bool {
    s == SessionState::Closed || s is Failed
}

/// A session of `role` may go from `s` to `t` in one step.
pub open spec fn is_edge(role: Role, s: SessionState, t: SessionState) -> bool {
    successor(role, s) == Some(t) || (!is_terminal(s) && t is Failed)
}

/// `path` starts at `Created` and each state follows the one before it
/// along an edge.
pub open spec fn follows_edges(role: Role, path: Seq<SessionState>) -> bool {
    &&& path.len() > 0
    &&& path[0] == SessionState::Created
    &&& forall|i: int| 0 < i < path.len() ==> is_edge(role, #[trigger] path[i - 1], path[i])
}

/// The remote description is in place, so remote candidates can be applied.
pub open spec fn remote_description_set(s: SessionState) -> bool {
    match s {
        SessionState::RemoteDescriptionSet
        | SessionState::IceExchanging
        | SessionState::Connected
        | SessionState::ChannelOpen
        | SessionState::Transferring => true,
        _ => false,
    }
}

/// The session has reached a direct connection with its counterpart.
pub open spec fn reached_connected(s: SessionState) -> bool {
    match s {
        SessionState::Connected
        | SessionState::ChannelOpen
        | SessionState::Transferring
        | SessionState::Closed => true,
        _ => false,
    }
}

/// What a step of `old` to `to` gives: where `to` is an edge from its state,
/// the session moves there and, once the remote description is set or the
/// session ends, hands back its queued candidates in arrival order; where it
/// is not, the session stays and the step is refused.
pub open spec fn advance_post(
    old: SessionView,
    to: SessionState,
    r: Result<Vec<String>, ClientError>,
    new: SessionView,
) -> bool {
    &&& r is Ok <==> is_edge(old.role, old.state, to)
    &&& r is Err ==> new == old && r == Err::<Vec<String>, ClientError>(
        ClientError::InvalidTransition,
    )
    &&& r matches Ok(replay) ==> {
        &&& new.state == to
        &&& new.history == old.history.push(to)
        &&& new.id == old.id
        &&& new.role == old.role
        &&& new.counterpart == old.counterpart
        &&& if remote_description_set(to) || is_terminal(to) {
            strs(replay@) == old.pending && new.pending.len() == 0
        } else {
            replay@.len() == 0 && new.pending == old.pending
        }
    }
}

/// What handing the candidate `c` to `old` gives: a closed or failed
/// session refuses it and stays as it is; once the remote description is set
/// it comes back at once, to be applied; before that it is queued after the
/// candidates that came before it.
pub open spec fn candidate_post(
    old: SessionView,
    c: Seq<char>,
    r: Result<Option<String>, ClientError>,
    new: SessionView,
) -> bool {
    &&& new.state == old.state
    &&& new.history == old.history
    &&& new.id == old.id
    &&& new.role == old.role
    &&& new.counterpart == old.counterpart
    &&& is_terminal(old.state) ==> r == Err::<Option<String>, ClientError>(
        ClientError::InvalidTransition,
    ) && new == old
    &&& remote_description_set(old.state) ==> (r matches Ok(Some(x)) && x@ == c) && new.pending
        == old.pending
    &&& !is_terminal(old.state) && !remote_description_set(old.state) ==> r == Ok::<
        Option<String>,
        ClientError,
    >(None) && new.pending == old.pending.push(c)
}

/// A session in state `s`, negotiating for `elapsed_ms` with `limit_ms`
/// allowed, has run out of time: it is neither connected nor ended.
pub open spec fn negotiation_stalled(s: SessionState, elapsed_ms: u64, limit_ms: u64) -> bool {
    !reached_connected(s) && !is_terminal(s) && elapsed_ms >= limit_ms
}

/// What a session holds, as plain values.
pub struct SessionView {
    pub id: u128,
    pub role: Role,
    pub counterpart: Seq<char>,
    pub state: SessionState,
    /// Remote candidates that arrived before the remote description was set,
    /// in arrival order.
    pub pending: Seq<Seq<char>>,
    /// Every state the session has been in, the current one last.
    pub history: Seq<SessionState>,
}

/// One negotiation and transfer attempt between a source and a sink.
///
/// Remote candidates that arrive before the remote description is set are
/// queued, and handed back for replay when it is set.
pub struct Session {
    id: u128,
    role: Role,
    counterpart: String,
    state: SessionState,
    pending: Vec<String>,
    history: Ghost<Seq<SessionState>>,
}

impl View for Session {
    type V = SessionView;

    closed spec fn view(&self) -> SessionView {
        SessionView {
            id: self.id,
            role: self.role,
            counterpart: self.counterpart@,
            state: self.state,
            pending: strs(self.pending@),
            history: self.history@,
        }
    }
}

impl Session {
    /// The session has only moved along edges, and candidates wait only
    /// while the remote description is not set.
    pub open spec fn wf(&self) -> bool {
        &&& follows_edges(self@.role, self@.history)
        &&& self@.history.last() == self@.state
        &&& (remote_description_set(self@.state) || is_terminal(self@.state)) ==> self@.pending.len() == 0
    }

    pub fn new(id: u128, role: Role, counterpart: String) -> (r: Session)
        ensures
            r.wf(),
            r@.id == id,
            r@.role == role,
            r@.counterpart == counterpart@,
            r@.state == SessionState::Created,
            r@.pending.len() == 0,
            r@.history == seq![SessionState::Created],
    {
        let ghost start = seq![SessionState::Created];
        let r = Session {
            id,
            role,
            counterpart,
            state: SessionState::Created,
            pending: Vec::new(),
            history: Ghost(start),
        };
        proof {
            assert(strs(r.pending@) =~= Seq::<Seq<char>>::empty());
        }
        r
    }

    pub fn id(&self) -> (r: u128)
        ensures
            r == self@.id,
    {
        self.id
    }

    pub fn role(&self) -> (r: Role)
        ensures
            r == self@.role,
    {
        self.role
    }

    pub fn state(&self) -> (r: SessionState)
        ensures
            r == self@.state,
    {
        self.state
    }

    pub fn counterpart(&self) -> (r: &String)
        ensures
            r@ == self@.counterpart,
    {
        &self.counterpart
    }

    /// Moves the session to `to` where that is an edge from its state; the
    /// candidates queued before the remote description was set come back
    /// when it is set, in arrival order, to be applied.
    pub fn advance(&mut self, to: SessionState) -> (r: Result<Vec<String>, ClientError>)
        requires
            old(self).wf(),
        ensures
            final(self).wf(),
            advance_post(old(self)@, to, r, final(self)@),
            r is Err ==> *final(self) == *old(self),
    {
        let ghost before = self@;
        let ghost old_pending = self.pending@;
        if !self.can_move_to(to) {
            return Err(ClientError::InvalidTransition);
        }
        let ghost prev = self.history@;
        let ghost next = prev.push(to);
        self.state = to;
        self.history = Ghost(next);
        proof {
            assert forall|i: int| 0 < i < self.history@.len() implies is_edge(
                self.role,
                #[trigger] self.history@[i - 1],
                self.history@[i],
            ) by {
                if i < prev.len() {
                    assert(prev[i - 1] == self.history@[i - 1]);
                }
            }
        }
        if remote_description_set_exec(to) || to == SessionState::Closed || matches!(to, SessionState::Failed(_)) {
            let replay = self.pending.split_off(0);
            proof {
                assert(strs(self.pending@) =~= Seq::<Seq<char>>::empty());
                assert(replay@ =~= old_pending);
                assert(strs(replay@) == before.pending);
            }
            Ok(replay)
        } else {
            let replay: Vec<String> = Vec::new();
            proof {
                assert(self@.pending == before.pending);
            }
            Ok(replay)
        }
    }

    /// Whether `to` is an edge from the current state.
    pub fn can_move_to(&self, to: SessionState) -> (r: bool)
        ensures
            r == is_edge(self@.role, self@.state, to),
    {
        let terminal = match self.state {
            SessionState::Closed | SessionState::Failed(_) => true,
            _ => false,
        };
        if !terminal && matches!(to, SessionState::Failed(_)) {
            return true;
        }
        match successor_exec(self.role, self.state) {
            Some(next) => next == to,
            None => false,
        }
    }

    /// Ends the session on a failure; a session already closed or failed
    /// stays as it is.
    pub fn fail(&mut self, reason: FailReason) -> (r: Result<Vec<String>, ClientError>)
        requires
            old(self).wf(),
        ensures
            final(self).wf(),
            r is Ok <==> !is_terminal(old(self)@.state),
            r is Ok ==> final(self)@.state == SessionState::Failed(reason),
            r is Err ==> *final(self) == *old(self),
    {
        self.advance(SessionState::Failed(reason))
    }

    /// Takes in a candidate of the counterpart. Once the remote description
    /// is set it comes back at once, to be applied; before that it is queued.
    /// A closed or failed session refuses it.
    pub fn add_remote_candidate(&mut self, candidate: String) -> (r: Result<
        Option<String>,
        ClientError,
    >)
        requires
            old(self).wf(),
        ensures
            final(self).wf(),
            candidate_post(old(self)@, candidate@, r, final(self)@),
    {
        match self.state {
            SessionState::Closed | SessionState::Failed(_) => Err(ClientError::InvalidTransition),
            _ => {
                if remote_description_set_exec(self.state) {
                    Ok(Some(candidate))
                } else {
                    let ghost prev = self.pending@;
                    self.pending.push(candidate);
                    proof {
                        assert(strs(self.pending@) =~= strs(prev).push(candidate@));
                    }
                    Ok(None)
                }
            },
        }
    }
}

fn remote_description_set_exec(s: SessionState) -> (r: bool)
    ensures
        r == remote_description_set(s),
{
    match s {
        SessionState::RemoteDescriptionSet
        | SessionState::IceExchanging
        | SessionState::Connected
        | SessionState::ChannelOpen
        | SessionState::Transferring => true,
        _ => false,
    }
}

/// The state that follows `s` on the successful path of a session of `role`.
pub fn successor_exec(role: Role, s: SessionState) -> (r: Option<SessionState>)
    ensures
        r == successor(role, s),
{
    match s {
        SessionState::Created => Some(SessionState::OfferGenerated),
        SessionState::OfferGenerated => match role {
            Role::Sink => Some(SessionState::OfferSent),
            Role::Source => Some(SessionState::OfferReceived),
        },
        SessionState::OfferSent => match role {
            Role::Sink => Some(SessionState::AnswerReceived),
            Role::Source => None,
        },
        SessionState::OfferReceived => match role {
            Role::Sink => None,
            Role::Source => Some(SessionState::AnswerGenerated),
        },
        SessionState::AnswerReceived => match role {
            Role::Sink => Some(SessionState::RemoteDescriptionSet),
            Role::Source => None,
        },
        SessionState::AnswerGenerated => match role {
            Role::Sink => None,
            Role::Source => Some(SessionState::RemoteDescriptionSet),
        },
        SessionState::RemoteDescriptionSet => Some(SessionState::IceExchanging),
        SessionState::IceExchanging => Some(SessionState::Connected),
        SessionState::Connected => Some(SessionState::ChannelOpen),
        SessionState::ChannelOpen => Some(SessionState::Transferring),
        SessionState::Transferring => Some(SessionState::Closed),
        SessionState::Closed => None,
        SessionState::Failed(_) => None,
    }
}

/// Every state a session has been in follows the one before it along an
/// edge: it never goes from `Created` straight to `Connected`, and nothing
/// follows `Closed`.
pub proof fn lemma_session_follows_edges(s: Session)
    requires
        s.wf(),
    ensures
        follows_edges(s@.role, s@.history),
        forall|i: int|
            0 < i < s@.history.len() ==> !(#[trigger] s@.history[i - 1] == SessionState::Created
                && s@.history[i] == SessionState::Connected),
        forall|i: int|
            0 <= i < s@.history.len() && #[trigger] s@.history[i] == SessionState::Closed ==> i
                == s@.history.len() - 1,
{
    assert forall|i: int|
        0 <= i < s@.history.len() && #[trigger] s@.history[i] == SessionState::Closed implies i
        == s@.history.len() - 1 by {
        if i < s@.history.len() - 1 {
            assert(is_edge(s@.role, s@.history[(i + 1) - 1], s@.history[i + 1]));
        }
    }
    assert forall|i: int| 0 < i < s@.history.len() implies !(#[trigger] s@.history[i - 1]
        == SessionState::Created && s@.history[i] == SessionState::Connected) by {
        assert(is_edge(s@.role, s@.history[i - 1], s@.history[i]));
    }
}

} // verus!
