use vstd::prelude::*;

verus! {

/// The views of a sequence of strings, element by element.
pub open spec fn strs(v: Seq<String>) -> Seq<Seq<char>> {
    v.map_values(|s: String| s@)
}

/// Copies a list of strings, keeping every element.
pub fn clone_strings(v: &Vec<String>) -> (r: Vec<String>)
    ensures
        strs(r@) == strs(v@),
{
    let mut r: Vec<String> = Vec::new();
    let mut i: usize = 0;
    while i < v.len()
        invariant
            i <= v.len(),
            strs(r@) == strs(v@.subrange(0, i as int)),
        decreases v.len() - i,
    {
        let ghost prev = r@;
        let c = v[i].clone();
        r.push(c);
        proof {
            assert(strs(prev).len() == i);
            assert forall|j: int| 0 <= j < r@.len() implies #[trigger] strs(r@)[j] == strs(
                v@.subrange(0, i + 1),
            )[j] by {
                if j < i {
                    assert(strs(prev)[j] == strs(v@.subrange(0, i as int))[j]);
                }
            }
            assert(strs(r@) =~= strs(v@.subrange(0, i + 1)));
        }
        i = i + 1;
    }
    proof {
        assert(v@.subrange(0, i as int) =~= v@);
    }
    r
}


/// How the credential of an ICE server is to be read.
#[derive(Debug, Clone, Copy, PartialEq, Eq, Structural)]
pub enum IceCredentialType {
    Unspecified,
    Password,
    Oauth,
}

/// One STUN or TURN server a peer offers for connectivity negotiation.
#[derive(Debug)]
pub struct IceServer {
    pub urls: Vec<String>,
    pub username: String,
    pub credential: String,
    pub credential_type: IceCredentialType,
}

/// What an ICE server configuration holds, as plain values.
pub struct IceServerView {
    pub urls: Seq<Seq<char>>,
    pub username: Seq<char>,
    pub credential: Seq<char>,
    pub credential_type: IceCredentialType,
}

impl View for IceServer {
    type V = IceServerView;

    open spec fn view(&self) -> IceServerView {
        IceServerView {
            urls: strs(self.urls@),
            username: self.username@,
            credential: self.credential@,
            credential_type: self.credential_type,
        }
    }
}

impl Clone for IceServer {
    fn clone(&self) -> (r: Self)
        ensures
            r@ == self@,
    {
        IceServer {
            urls: clone_strings(&self.urls),
            username: self.username.clone(),
            credential: self.credential.clone(),
            credential_type: self.credential_type,
        }
    }
}

/// The views of a sequence of ICE server configurations.
pub open spec fn ice_views(v: Seq<IceServer>) -> Seq<IceServerView> {
    v.map_values(|s: IceServer| s@)
}

/// Copies a list of ICE server configurations, keeping every element.
pub fn clone_ice_servers(v: &Vec<IceServer>) -> (r: Vec<IceServer>)
    ensures
        ice_views(r@) == ice_views(v@),
{
    let mut r: Vec<IceServer> = Vec::new();
    let mut i: usize = 0;
    while i < v.len()
        invariant
            i <= v.len(),
            ice_views(r@) == ice_views(v@.subrange(0, i as int)),
        decreases v.len() - i,
    {
        let ghost prev = r@;
        let c = v[i].clone();
        r.push(c);
        proof {
            assert(ice_views(prev).len() == i);
            assert forall|j: int| 0 <= j < r@.len() implies #[trigger] ice_views(r@)[j]
                == ice_views(v@.subrange(0, i + 1))[j] by {
                if j < i {
                    assert(ice_views(prev)[j] == ice_views(v@.subrange(0, i as int))[j]);
                }
            }
            assert(ice_views(r@) =~= ice_views(v@.subrange(0, i + 1)));
        }
        i = i + 1;
    }
    proof {
        assert(v@.subrange(0, i as int) =~= v@);
    }
    r
}

/// The record the registry keeps of one peer serving files: the files it
/// advertises, the ICE servers it offers, where its signaling endpoint
/// listens, and its identifier.
#[derive(Debug)]
pub struct ServerInfo {
    pub files: Vec<String>,
    pub ice_servers: Vec<IceServer>,
    pub url: String,
    pub id: String,
}

/// What a peer record holds, as plain values.
pub struct ServerInfoView {
    pub files: Seq<Seq<char>>,
    pub ice_servers: Seq<IceServerView>,
    pub url: Seq<char>,
    pub id: Seq<char>,
}

impl ServerInfoView {
    /// The record advertises the file `f`.
    pub open spec fn has_file(self, f: Seq<char>) -> bool {
        self.files.contains(f)
    }
}

impl View for ServerInfo {
    type V = ServerInfoView;

    open spec fn view(&self) -> ServerInfoView {
        ServerInfoView {
            files: strs(self.files@),
            ice_servers: ice_views(self.ice_servers@),
            url: self.url@,
            id: self.id@,
        }
    }
}

impl Clone for ServerInfo {
    fn clone(&self) -> (r: Self)
        ensures
            r@ == self@,
    {
        ServerInfo {
            files: clone_strings(&self.files),
            ice_servers: clone_ice_servers(&self.ice_servers),
            url: self.url.clone(),
            id: self.id.clone(),
        }
    }
}

impl Default for ServerInfo {
    fn default() -> (r: Self)
        ensures
            r@ == (ServerInfoView {
                files: Seq::empty(),
                ice_servers: Seq::empty(),
                url: Seq::empty(),
                id: Seq::empty(),
            }),
    {
        let r = ServerInfo {
            files: Vec::new(),
            ice_servers: Vec::new(),
            url: String::new(),
            id: String::new(),
        };
        proof {
            assert(strs(r.files@) =~= Seq::empty());
            assert(ice_views(r.ice_servers@) =~= Seq::empty());
        }
        r
    }
}

/// A request to look up the files of one peer.
#[derive(Debug, Clone)]
pub struct FileLookupReq {
    pub server_id: String,
}

/// A request of a peer to be registered as a source of files.
#[derive(Debug)]
pub struct RegisterOrRefreshServerReq {
    pub server_id: String,
    pub files: Option<Vec<String>>,
    pub ice_candidates: Option<Vec<IceServer>>,
    pub url: String,
}

/// A request for the peers that serve a file.
#[derive(Debug, Clone)]
pub struct FindServerForFileReq {
    pub file_id: String,
}

/// The peers that serve a file.
#[derive(Debug)]
pub struct FindServerForFileRes {
    pub servers_info: Vec<ServerInfo>,
    pub success: bool,
}

/// Whether diagnostic messages of the debug level are to be shown.
#[derive(Debug, Clone, Copy)]
pub struct Logger {
    debug: bool,
}

impl Logger {
    pub fn new(debug: bool) -> (r: Logger)
        ensures
            r.shows_debug() == debug,
    {
        Logger { debug }
    }

    pub closed spec fn shows_debug(&self) -> bool {
        self.debug
    }

    /// Whether a message of the debug level is to be shown.
    pub fn is_debug(&self) -> (r: bool)
        ensures
            r == self.shows_debug(),
    {
        self.debug
    }
}

} // verus!
