use vstd::prelude::*;

use crate::errors::ClientError;
use crate::session::{Session, SessionState, SessionView, advance_post, candidate_post};

verus! {

/// The views of a sequence of sessions.
pub open spec fn session_views(s: Seq<Session>) -> Seq<SessionView> {
    s.map_values(|x: Session| x@)
}

/// Some session of `s` carries the identifier `id`.
pub open spec fn has_session(s: Seq<SessionView>, id: u128) -> bool {
    exists|i: int| 0 <= i < s.len() && (#[trigger] s[i]).id == id
}

/// No two sessions of `s` carry the same identifier.
pub open spec fn session_ids_unique(s: Seq<SessionView>) -> bool {
    forall|i: int, j: int|
        0 <= i < s.len() && 0 <= j < s.len() && i != j ==> (#[trigger] s[i]).id != (
        #[trigger] s[j]).id
}

/// `a` and `b` hold the same sessions but, perhaps, the one at `i`.
pub open spec fn same_except(a: Seq<SessionView>, b: Seq<SessionView>, i: int) -> bool {
    &&& a.len() == b.len()
    &&& forall|j: int| 0 <= j < a.len() && j != i ==> #[trigger] a[j] == b[j]
}

/// What routing a step to `to` for the session `id` gives: where no session
/// carries `id`, the error `missing` and no change; else the step of that
/// session, every other one staying as it is.
pub open spec fn advance_routed(
    old: Seq<SessionView>,
    new: Seq<SessionView>,
    id: u128,
    to: SessionState,
    r: Result<Vec<String>, ClientError>,
    missing: ClientError,
) -> bool {
    &&& !has_session(old, id) ==> r == Err::<Vec<String>, ClientError>(missing) && new == old
    &&& has_session(old, id) ==> exists|i: int|
        0 <= i < old.len() && (#[trigger] old[i]).id == id && advance_post(old[i], to, r, new[i])
            && same_except(old, new, i)
}

/// What routing the candidate `c` to the session `id` gives: where no
/// session carries `id`, the error `missing` and no change; else what that
/// session does with it, every other one staying as it is.
pub open spec fn candidate_routed(
    old: Seq<SessionView>,
    new: Seq<SessionView>,
    id: u128,
    c: Seq<char>,
    r: Result<Option<String>, ClientError>,
    missing: ClientError,
) -> bool {
    &&& !has_session(old, id) ==> r == Err::<Option<String>, ClientError>(missing) && new == old
    &&& has_session(old, id) ==> exists|i: int|
        0 <= i < old.len() && (#[trigger] old[i]).id == id && candidate_post(old[i], c, r, new[i])
            && same_except(old, new, i)
}

/// The sessions a manager owns, each under its own identifier.
pub struct SessionTable {
    sessions: Vec<Session>,
}

impl SessionTable {
    pub closed spec fn view_seq(&self) -> Seq<SessionView> {
        session_views(self.sessions@)
    }

    /// Every session is consistent and no two share an identifier.
    pub closed spec fn wf(&self) -> bool {
        &&& forall|i: int| 0 <= i < self.sessions@.len() ==> (#[trigger] self.sessions@[i]).wf()
        &&& forall|i: int, j: int|
            0 <= i < self.sessions@.len() && 0 <= j < self.sessions@.len() && i != j ==> (
            #[trigger] self.sessions@[i])@.id != (#[trigger] self.sessions@[j])@.id
    }

    /// A consistent table holds each identifier once.
    pub proof fn lemma_ids_unique(&self)
        requires
            self.wf(),
        ensures
            session_ids_unique(self.view_seq()),
    {
        assert forall|i: int, j: int|
            0 <= i < self.view_seq().len() && 0 <= j < self.view_seq().len() && i != j implies (
        #[trigger] self.view_seq()[i]).id != (#[trigger] self.view_seq()[j]).id by {
            assert(self.sessions@[i]@.id != self.sessions@[j]@.id);
        }
    }

    pub fn new() -> (r: SessionTable)
        ensures
            r.wf(),
            r.view_seq() == Seq::<SessionView>::empty(),
    {
        let r = SessionTable { sessions: Vec::new() };
        proof {
            assert(session_views(r.sessions@) =~= Seq::<SessionView>::empty());
        }
        r
    }

    /// Where the session `id` stands, if there is one.
    fn position(&self, id: u128) -> (r: Option<usize>)
        ensures
            r matches Some(i) ==> i < self.view_seq().len() && self.view_seq()[i as int].id == id,
            r is None <==> !has_session(self.view_seq(), id),
    {
        let mut i: usize = 0;
        while i < self.sessions.len()
            invariant
                i <= self.sessions@.len(),
                forall|j: int| 0 <= j < i ==> (#[trigger] self.view_seq()[j]).id != id,
            decreases self.sessions@.len() - i,
        {
            if self.sessions[i].id() == id {
                return Some(i);
            }
            i = i + 1;
        }
        None
    }

    /// Whether a session carries the identifier `id`.
    pub fn contains(&self, id: u128) -> (r: bool)
        ensures
            r == has_session(self.view_seq(), id),
    {
        self.position(id).is_some()
    }

    /// The state of the session `id`, if there is one.
    pub fn state_of(&self, id: u128) -> (r: Option<SessionState>)
        requires
            self.wf(),
        ensures
            r is None <==> !has_session(self.view_seq(), id),
            r matches Some(st) ==> exists|i: int|
                0 <= i < self.view_seq().len() && (#[trigger] self.view_seq()[i]).id == id
                    && self.view_seq()[i].state == st,
    {
        match self.position(id) {
            Some(i) => Some(self.sessions[i].state()),
            None => None,
        }
    }

    /// Adds a session under an identifier no other session carries.
    pub fn insert(&mut self, s: Session) -> (r: Result<(), ClientError>)
        requires
            old(self).wf(),
            s.wf(),
        ensures
            final(self).wf(),
            r is Ok <==> !has_session(old(self).view_seq(), s@.id),
            r is Ok ==> final(self).view_seq() == old(self).view_seq().push(s@),
            r is Err ==> final(self).view_seq() == old(self).view_seq() && r == Err::<
                (),
                ClientError,
            >(ClientError::SessionAlreadyExists),
    {
        if self.contains(s.id()) {
            return Err(ClientError::SessionAlreadyExists);
        }
        let ghost prev = self.sessions@;
        let ghost sv = s@;
        self.sessions.push(s);
        proof {
            assert(session_views(self.sessions@) =~= session_views(prev).push(sv));
            assert forall|i: int, j: int|
                0 <= i < self.sessions@.len() && 0 <= j < self.sessions@.len() && i != j implies (
            #[trigger] self.sessions@[i])@.id != (#[trigger] self.sessions@[j])@.id by {
                if i == prev.len() as int {
                    assert(session_views(prev)[j].id == prev[j]@.id);
                } else if j == prev.len() as int {
                    assert(session_views(prev)[i].id == prev[i]@.id);
                }
            }
        }
        Ok(())
    }

    /// Moves the session `id` to `to`, as `Session::advance` does, leaving
    /// every other session as it is.
    /// `None` where no session carries `id`.
    pub fn advance(&mut self, id: u128, to: SessionState) -> (r: Option<
        Result<Vec<String>, ClientError>,
    >)
        requires
            old(self).wf(),
        ensures
            final(self).wf(),
            r is None <==> !has_session(old(self).view_seq(), id),
            r is None ==> final(self).view_seq() == old(self).view_seq(),
            final(self).view_seq().len() == old(self).view_seq().len(),
            r matches Some(res) ==> exists|i: int|
                0 <= i < old(self).view_seq().len() && (#[trigger] old(self).view_seq()[i]).id
                    == id && advance_post(old(self).view_seq()[i], to, res, final(self).view_seq()[i])
                    && same_except(old(self).view_seq(), final(self).view_seq(), i),
    {
        match self.position(id) {
            None => None,
            Some(i) => {
                let ghost prev = self.sessions@;
                let mut s = self.sessions.remove(i);
                let res = s.advance(to);
                self.sessions.insert(i, s);
                proof {
                    assert(self.sessions@ =~= prev.update(i as int, s));
                    assert(session_views(self.sessions@) =~= session_views(prev).update(
                        i as int,
                        s@,
                    ));
                    assert forall|a: int, b: int|
                        0 <= a < self.sessions@.len() && 0 <= b < self.sessions@.len() && a
                            != b implies (#[trigger] self.sessions@[a])@.id != (
                    #[trigger] self.sessions@[b])@.id by {
                        assert(prev[a]@.id == self.sessions@[a]@.id);
                        assert(prev[b]@.id == self.sessions@[b]@.id);
                    }
                    assert(old(self).view_seq()[i as int].id == id);
                }
                Some(res)
            },
        }
    }

    /// Hands a remote candidate to the session `id`; see
    /// `Session::add_remote_candidate`. `None` where no session carries `id`.
    pub fn add_remote_candidate(&mut self, id: u128, candidate: String) -> (r: Option<
        Result<Option<String>, ClientError>,
    >)
        requires
            old(self).wf(),
        ensures
            final(self).wf(),
            r is None <==> !has_session(old(self).view_seq(), id),
            r is None ==> final(self).view_seq() == old(self).view_seq(),
            final(self).view_seq().len() == old(self).view_seq().len(),
            r matches Some(res) ==> exists|i: int|
                0 <= i < old(self).view_seq().len() && (#[trigger] old(self).view_seq()[i]).id
                    == id && candidate_post(old(self).view_seq()[i], candidate@, res, final(self).view_seq()[i])
                    && same_except(old(self).view_seq(), final(self).view_seq(), i),
    {
        match self.position(id) {
            None => None,
            Some(i) => {
                let ghost prev = self.sessions@;
                let mut s = self.sessions.remove(i);
                let res = s.add_remote_candidate(candidate);
                self.sessions.insert(i, s);
                proof {
                    assert(self.sessions@ =~= prev.update(i as int, s));
                    assert(session_views(self.sessions@) =~= session_views(prev).update(
                        i as int,
                        s@,
                    ));
                    assert forall|a: int, b: int|
                        0 <= a < self.sessions@.len() && 0 <= b < self.sessions@.len() && a
                            != b implies (#[trigger] self.sessions@[a])@.id != (
                    #[trigger] self.sessions@[b])@.id by {
                        assert(prev[a]@.id == self.sessions@[a]@.id);
                        assert(prev[b]@.id == self.sessions@[b]@.id);
                    }
                    assert(old(self).view_seq()[i as int].id == id);
                }
                Some(res)
            },
        }
    }
}

} // verus!
