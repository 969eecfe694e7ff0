use vstd::prelude::*;

use crate::entities::{
    FindServerForFileRes, IceServer, IceServerView, RegisterOrRefreshServerReq, ServerInfo,
    ServerInfoView, clone_strings, ice_views, strs,
};
use crate::errors::DiscoveryError;
use crate::ids::{parse_uuid, uuid_of};

verus! {

/// The views of a sequence of peer records.
pub open spec fn record_views(s: Seq<ServerInfo>) -> Seq<ServerInfoView> {
    s.map_values(|r: ServerInfo| r@)
}

/// The files given in a request; none given is the empty list.
pub open spec fn given_files(files: Option<Vec<String>>) -> Seq<Seq<char>> {
    match files {
        Some(v) => strs(v@),
        None => Seq::empty(),
    }
}

/// The ICE servers given in a request; none given is the empty list.
pub open spec fn given_ice_servers(ice: Option<Vec<IceServer>>) -> Seq<IceServerView> {
    match ice {
        Some(v) => ice_views(v@),
        None => Seq::empty(),
    }
}

/// Some record of `db` carries the identifier `id`.
pub open spec fn has_peer(db: Seq<ServerInfoView>, id: Seq<char>) -> bool {
    exists|i: int| 0 <= i < db.len() && (#[trigger] db[i]).id == id
}

/// No two records of `db` carry the same identifier.
pub open spec fn ids_unique(db: Seq<ServerInfoView>) -> bool {
    forall|i: int, j: int|
        0 <= i < db.len() && 0 <= j < db.len() && i != j ==> (#[trigger] db[i]).id != (
        #[trigger] db[j]).id
}

/// The record that a registration or an update writes.
pub open spec fn new_record(
    id: Seq<char>,
    files: Seq<Seq<char>>,
    ice_servers: Seq<IceServerView>,
    url: Seq<char>,
) -> ServerInfoView {
    ServerInfoView { files, ice_servers, url, id }
}

/// The registry after a registration: a peer already present keeps its
/// record (the first registration wins); a new one is appended.
pub open spec fn registered(
    db: Seq<ServerInfoView>,
    id: Seq<char>,
    files: Seq<Seq<char>>,
    ice_servers: Seq<IceServerView>,
    url: Seq<char>,
) -> Seq<ServerInfoView> {
    if has_peer(db, id) {
        db
    } else {
        db.push(new_record(id, files, ice_servers, url))
    }
}

/// The registry after an update: the record of `id` is overwritten in place,
/// or appended if there was none.
pub open spec fn updated(
    db: Seq<ServerInfoView>,
    id: Seq<char>,
    files: Seq<Seq<char>>,
    ice_servers: Seq<IceServerView>,
    url: Seq<char>,
) -> Seq<ServerInfoView> {
    if has_peer(db, id) {
        db.map_values(
            |r: ServerInfoView|
                if r.id == id {
                    new_record(id, files, ice_servers, url)
                } else {
                    r
                },
        )
    } else {
        db.push(new_record(id, files, ice_servers, url))
    }
}

/// The records of `db` that advertise the file `f`, in registry order.
pub open spec fn peers_with_file(db: Seq<ServerInfoView>, f: Seq<char>) -> Seq<ServerInfoView>
    decreases db.len(),
{
    if db.len() == 0 {
        Seq::empty()
    } else {
        let rest = peers_with_file(db.drop_last(), f);
        if db.last().has_file(f) {
            rest.push(db.last())
        } else {
            rest
        }
    }
}

/// A store of peer records keyed by peer identifier.
pub trait DB {
    /// The records, in the order in which their peers first appeared.
    spec fn records(&self) -> Seq<ServerInfoView>;

    /// The store is consistent: at most one record per identifier.
    spec fn db_wf(&self) -> bool;

    /// Adds a record for `server_uuid` unless one is there already.
    fn register(
        &mut self,
        server_uuid: String,
        files: Option<Vec<String>>,
        ice_servers: Option<Vec<IceServer>>,
        url: String,
    ) -> (r: Result<(), DiscoveryError>)
        requires
            old(self).db_wf(),
        ensures
            final(self).db_wf(),
            r is Ok,
            final(self).records() == registered(
                old(self).records(),
                server_uuid@,
                given_files(files),
                given_ice_servers(ice_servers),
                url@,
            ),
    ;

    /// Whether a record for `server_uuid` is there.
    fn lookup(&self, server_uuid: String) -> (r: bool)
        requires
            self.db_wf(),
        ensures
            r == has_peer(self.records(), server_uuid@),
    ;

    /// Writes the record for `server_uuid`, whether or not one was there.
    fn update(
        &mut self,
        server_uuid: String,
        files: Option<Vec<String>>,
        ice_servers: Option<Vec<IceServer>>,
        url: String,
    ) -> (r: Result<(), DiscoveryError>)
        requires
            old(self).db_wf(),
        ensures
            final(self).db_wf(),
            r is Ok,
            final(self).records() == updated(
                old(self).records(),
                server_uuid@,
                given_files(files),
                given_ice_servers(ice_servers),
                url@,
            ),
    ;

    /// The files advertised by `server_uuid`, if it is registered.
    fn get_file_list(&self, server_uuid: String) -> (r: Option<&Vec<String>>)
        requires
            self.db_wf(),
        ensures
            r is None <==> !has_peer(self.records(), server_uuid@),
            r matches Some(v) ==> exists|i: int|
                0 <= i < self.records().len() && (#[trigger] self.records()[i]).id
                    == server_uuid@ && self.records()[i].files == strs(v@),
    ;

    /// The ICE servers offered by `server_uuid`, if it is registered.
    fn get_ice_servers(&self, server_uuid: String) -> (r: Option<&Vec<IceServer>>)
        requires
            self.db_wf(),
        ensures
            r is None <==> !has_peer(self.records(), server_uuid@),
            r matches Some(v) ==> exists|i: int|
                0 <= i < self.records().len() && (#[trigger] self.records()[i]).id
                    == server_uuid@ && self.records()[i].ice_servers == ice_views(v@),
    ;

    /// Every record that advertises `file_id`, in registry order; an error
    /// when there is none.
    fn find_servers_by_file(&self, file_id: String) -> (r: Result<
        Vec<ServerInfo>,
        DiscoveryError,
    >)
        requires
            self.db_wf(),
        ensures
            r matches Ok(v) ==> record_views(v@) == peers_with_file(self.records(), file_id@)
                && v@.len() > 0,
            r matches Ok(v) ==> ids_unique(record_views(v@)),
            r matches Err(e) ==> e == DiscoveryError::ServerNotFoundError && peers_with_file(
                self.records(),
                file_id@,
            ).len() == 0,
    ;
}

/// A registry held in memory, one record per peer, in order of first
/// registration.
pub struct MapDB {
    data: Vec<ServerInfo>,
}

impl MapDB {
    pub fn new() -> (r: MapDB)
        ensures
            r.db_wf(),
            r.records() == Seq::<ServerInfoView>::empty(),
    {
        let r = MapDB { data: Vec::new() };
        proof {
            assert(record_views(r.data@) =~= Seq::<ServerInfoView>::empty());
        }
        r
    }

    /// A consistent registry holds each peer identifier once.
    pub proof fn lemma_ids_unique(&self)
        requires
            self.db_wf(),
        ensures
            ids_unique(self.records()),
    {
    }

    /// Where the record of `id` stands, if there is one.
    fn position(&self, id: &String) -> (r: Option<usize>)
        ensures
            r matches Some(i) ==> i < self.data@.len() && self.records()[i as int].id == id@,
            r is None ==> !has_peer(self.records(), id@),
    {
        let mut i: usize = 0;
        while i < self.data.len()
            invariant
                i <= self.data@.len(),
                forall|j: int| 0 <= j < i ==> (#[trigger] self.records()[j]).id != id@,
            decreases self.data@.len() - i,
        {
            if self.data[i].id == *id {
                return Some(i);
            }
            i = i + 1;
        }
        None
    }
}

impl DB for MapDB {
    closed spec fn records(&self) -> Seq<ServerInfoView> {
        record_views(self.data@)
    }

    closed spec fn db_wf(&self) -> bool {
        ids_unique(self.records())
    }

    fn register(
        &mut self,
        server_uuid: String,
        files: Option<Vec<String>>,
        ice_servers: Option<Vec<IceServer>>,
        url: String,
    ) -> (r: Result<(), DiscoveryError>) {
        if self.position(&server_uuid).is_none() {
            let mut server_info = ServerInfo::default();
            if let Some(files) = files {
                server_info.files = files;
            }
            if let Some(ice_servers) = ice_servers {
                server_info.ice_servers = ice_servers;
            }
            server_info.id = server_uuid;
            server_info.url = url;
            let ghost prev = self.data@;
            self.data.push(server_info);
            proof {
                assert(record_views(self.data@) =~= record_views(prev).push(server_info@));
            }
        }
        Ok(())
    }

    fn lookup(&self, server_uuid: String) -> (r: bool) {
        self.position(&server_uuid).is_some()
    }

    fn update(
        &mut self,
        server_uuid: String,
        files: Option<Vec<String>>,
        ice_servers: Option<Vec<IceServer>>,
        url: String,
    ) -> (r: Result<(), DiscoveryError>) {
        let mut server_info = ServerInfo::default();
        if let Some(files) = files {
            server_info.files = files;
        }
        if let Some(ice_servers) = ice_servers {
            server_info.ice_servers = ice_servers;
        }
        server_info.url = url;
        let pos = self.position(&server_uuid);
        server_info.id = server_uuid;
        let ghost prev = self.records();
        let ghost rec = server_info@;
        match pos {
            Some(i) => {
                self.data.set(i, server_info);
                proof {
                    assert forall|j: int|
                        0 <= j < prev.len() && #[trigger] prev[j].id == rec.id implies j
                        == i by {
                        if j != i {
                            assert(prev[j].id != prev[i as int].id);
                        }
                    }
                    assert(self.records() =~= prev.map_values(
                        |r: ServerInfoView|
                            if r.id == rec.id {
                                rec
                            } else {
                                r
                            },
                    ));
                }
            },
            None => {
                self.data.push(server_info);
                proof {
                    assert(self.records() =~= prev.push(rec));
                }
            },
        }
        Ok(())
    }

    fn get_file_list(&self, server_uuid: String) -> (r: Option<&Vec<String>>) {
        match self.position(&server_uuid) {
            Some(i) => Some(&self.data[i].files),
            None => None,
        }
    }

    fn get_ice_servers(&self, server_uuid: String) -> (r: Option<&Vec<IceServer>>) {
        match self.position(&server_uuid) {
            Some(i) => Some(&self.data[i].ice_servers),
            None => None,
        }
    }

    fn find_servers_by_file(&self, file_id: String) -> (r: Result<
        Vec<ServerInfo>,
        DiscoveryError,
    >) {
        let mut servers: Vec<ServerInfo> = Vec::new();
        let mut i: usize = 0;
        while i < self.data.len()
            invariant
                i <= self.data@.len(),
                record_views(servers@) == peers_with_file(
                    self.records().subrange(0, i as int),
                    file_id@,
                ),
            decreases self.data@.len() - i,
        {
            let ghost prev = servers@;
            let ghost head = self.records().subrange(0, i + 1);
            proof {
                assert(head.drop_last() =~= self.records().subrange(0, i as int));
                assert(head.last() == self.data@[i as int]@);
            }
            if contains_string(&self.data[i].files, &file_id) {
                let c = self.data[i].clone();
                servers.push(c);
                proof {
                    assert(record_views(servers@) =~= record_views(prev).push(c@));
                }
            }
            i = i + 1;
        }
        proof {
            assert(self.records().subrange(0, i as int) =~= self.records());
        }
        proof {
            lemma_find_unique(self.records(), file_id@);
        }
        if servers.len() > 0 {
            return Ok(servers);
        }
        Err(DiscoveryError::ServerNotFoundError)
    }
}

/// Whether `v` holds a string equal to `s`.
pub fn contains_string(v: &Vec<String>, s: &String) -> (r: bool)
    ensures
        r == strs(v@).contains(s@),
{
    let mut i: usize = 0;
    while i < v.len()
        invariant
            i <= v@.len(),
            forall|j: int| 0 <= j < i ==> (#[trigger] v@[j])@ != s@,
        decreases v@.len() - i,
    {
        if v[i] == *s {
            proof {
                assert(strs(v@)[i as int] == s@);
            }
            return true;
        }
        i = i + 1;
    }
    proof {
        if strs(v@).contains(s@) {
            let j = choose|j: int| 0 <= j < strs(v@).len() && strs(v@)[j] == s@;
            assert(v@[j]@ == s@);
        }
    }
    false
}


/// A lookup by file returns exactly the registered records that advertise
/// the file, and no others.
pub proof fn lemma_find_exact(db: Seq<ServerInfoView>, f: Seq<char>)
    ensures
        forall|r: ServerInfoView|
            #[trigger] peers_with_file(db, f).contains(r) <==> (db.contains(r) && r.has_file(f)),
    decreases db.len(),
{
    if db.len() > 0 {
        lemma_find_exact(db.drop_last(), f);
        let rest = peers_with_file(db.drop_last(), f);
        assert forall|r: ServerInfoView| #[trigger]
            peers_with_file(db, f).contains(r) <==> (db.contains(r) && r.has_file(f)) by {
            if db.contains(r) && r.has_file(f) {
                let k = choose|k: int| 0 <= k < db.len() && db[k] == r;
                if k < db.len() - 1 {
                    assert(db.drop_last()[k] == r);
                    assert(db.drop_last().contains(r));
                    assert(rest.contains(r));
                    let m = choose|m: int| 0 <= m < rest.len() && rest[m] == r;
                    if db.last().has_file(f) {
                        assert(rest.push(db.last())[m] == r);
                    }
                } else {
                    assert(rest.push(db.last())[rest.len() as int] == r);
                }
            }
            if peers_with_file(db, f).contains(r) {
                let m = choose|m: int|
                    0 <= m < peers_with_file(db, f).len() && peers_with_file(db, f)[m] == r;
                if m < rest.len() {
                    assert(rest[m] == r);
                    assert(rest.contains(r));
                    let k = choose|k: int| 0 <= k < db.drop_last().len() && db.drop_last()[k] == r;
                    assert(db[k] == r);
                } else {
                    assert(db[db.len() - 1] == r);
                }
            }
        }
    }
}

/// A lookup by file in a registry that holds each peer identifier once
/// returns each peer once.
pub proof fn lemma_find_unique(db: Seq<ServerInfoView>, f: Seq<char>)
    requires
        ids_unique(db),
    ensures
        ids_unique(peers_with_file(db, f)),
    decreases db.len(),
{
    if db.len() > 0 {
        let init = db.drop_last();
        assert(ids_unique(init)) by {
            assert forall|i: int, j: int|
                0 <= i < init.len() && 0 <= j < init.len() && i != j implies (
            #[trigger] init[i]).id != (#[trigger] init[j]).id by {
                assert(init[i] == db[i] && init[j] == db[j]);
            }
        }
        lemma_find_unique(init, f);
        lemma_find_exact(init, f);
        let rest = peers_with_file(init, f);
        if db.last().has_file(f) {
            let all = rest.push(db.last());
            assert forall|i: int, j: int|
                0 <= i < all.len() && 0 <= j < all.len() && i != j implies (
            #[trigger] all[i]).id != (#[trigger] all[j]).id by {
                if i < rest.len() && j < rest.len() {
                    assert(all[i] == rest[i] && all[j] == rest[j]);
                } else {
                    let k = if i < rest.len() {
                        i
                    } else {
                        j
                    };
                    assert(rest.contains(rest[k]));
                    assert(init.contains(rest[k]));
                    let m = choose|m: int| 0 <= m < init.len() && init[m] == rest[k];
                    assert(db[m] == rest[k]);
                    assert(db[db.len() - 1] == db.last());
                    assert(db[m].id != db[db.len() - 1].id);
                }
            }
        }
    }
}

/// Registering a peer identifier that is already present changes nothing:
/// the record written first, with its files, stays.
pub proof fn lemma_register_first_wins(
    db: Seq<ServerInfoView>,
    id: Seq<char>,
    files: Seq<Seq<char>>,
    ice_servers: Seq<IceServerView>,
    url: Seq<char>,
)
    requires
        has_peer(db, id),
    ensures
        registered(db, id, files, ice_servers, url) == db,
        forall|i: int|
            0 <= i < db.len() && db[i].id == id ==> (#[trigger] registered(
                db,
                id,
                files,
                ice_servers,
                url,
            )[i]).files == db[i].files,
{
}

/// The discovery service: the registry of peers that serve files.
pub struct Discovery {
    db: MapDB,
}

impl Discovery {
    pub fn new() -> (r: Discovery)
        ensures
            r.wf(),
            r.records() == Seq::<ServerInfoView>::empty(),
    {
        Discovery { db: MapDB::new() }
    }

    /// The registered records, in order of first registration.
    pub closed spec fn records(&self) -> Seq<ServerInfoView> {
        self.db.records()
    }

    pub closed spec fn wf(&self) -> bool {
        self.db.db_wf()
    }

    /// A consistent registry holds each peer identifier once.
    pub proof fn lemma_ids_unique(&self)
        requires
            self.wf(),
        ensures
            ids_unique(self.records()),
    {
        self.db.lemma_ids_unique();
    }

    /// Candidates are exchanged between the peers directly; the registry
    /// keeps none.
    pub fn add_ice_candidates() {
    }

    /// Registers the peer of the request unless it is registered already.
    pub fn register_or_refresh_server(&mut self, req: RegisterOrRefreshServerReq) -> (r: Result<
        (),
        DiscoveryError,
    >)
        requires
            old(self).wf(),
        ensures
            final(self).wf(),
            r is Ok,
            final(self).records() == registered(
                old(self).records(),
                req.server_id@,
                given_files(req.files),
                given_ice_servers(req.ice_candidates),
                req.url@,
            ),
    {
        self.db.register(req.server_id, req.files, req.ice_candidates, req.url)
    }

    /// Overwrites the record of the peer of the request.
    pub fn update_server(&mut self, req: RegisterOrRefreshServerReq) -> (r: Result<
        (),
        DiscoveryError,
    >)
        requires
            old(self).wf(),
        ensures
            final(self).wf(),
            r is Ok,
            final(self).records() == updated(
                old(self).records(),
                req.server_id@,
                given_files(req.files),
                given_ice_servers(req.ice_candidates),
                req.url@,
            ),
    {
        self.db.update(req.server_id, req.files, req.ice_candidates, req.url)
    }

    /// The records that advertise `file_id`, given the outcome of reading
    /// `file_id` as a UUID: an identifier that is not one is refused.
    pub fn servers_for_file(&self, file_id: String, parsed: Option<u128>) -> (r: Result<
        FindServerForFileRes,
        DiscoveryError,
    >)
        requires
            self.wf(),
        ensures
            parsed is None ==> r == Err::<FindServerForFileRes, DiscoveryError>(
                DiscoveryError::InvalidIdFormat,
            ),
            parsed is Some ==> (r is Ok <==> peers_with_file(self.records(), file_id@).len()
                > 0),
            r matches Ok(res) ==> res.success && record_views(res.servers_info@)
                == peers_with_file(self.records(), file_id@),
            r matches Ok(res) ==> ids_unique(record_views(res.servers_info@)),
            parsed is Some && r is Err ==> r == Err::<FindServerForFileRes, DiscoveryError>(
                DiscoveryError::ServerNotFoundError,
            ),
    {
        if parsed.is_none() {
            return Err(DiscoveryError::InvalidIdFormat);
        }
        match self.db.find_servers_by_file(file_id) {
            Ok(servers_info) => Ok(FindServerForFileRes { servers_info, success: true }),
            Err(e) => Err(e),
        }
    }

    /// The records that advertise `file_id`, which must spell a UUID.
    pub fn get_servers_by_file_id(&self, file_id: String) -> (r: Result<
        FindServerForFileRes,
        DiscoveryError,
    >)
        requires
            self.wf(),
        ensures
            uuid_of(file_id@) is None ==> r == Err::<FindServerForFileRes, DiscoveryError>(
                DiscoveryError::InvalidIdFormat,
            ),
            uuid_of(file_id@) is Some ==> (r is Ok <==> peers_with_file(
                self.records(),
                file_id@,
            ).len() > 0),
            r matches Ok(res) ==> res.success && record_views(res.servers_info@)
                == peers_with_file(self.records(), file_id@),
            r matches Ok(res) ==> ids_unique(record_views(res.servers_info@)),
            uuid_of(file_id@) is Some && r is Err ==> r == Err::<
                FindServerForFileRes,
                DiscoveryError,
            >(DiscoveryError::ServerNotFoundError),
    {
        let parsed = parse_uuid(file_id.as_str());
        self.servers_for_file(file_id, parsed)
    }
}

} // verus!
