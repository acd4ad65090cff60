use vstd::prelude::*;
use crate::error::TunnelError;
use crate::router::{extract, spec_extract, str_eq};

verus! {

/// One registered endpoint: its identifier, the port its agent dials, and
/// the handle through which its pool is reached.
pub struct Session<H> {
    pub id: String,
    pub port: u16,
    pub client: H,
}

/// `id` has an entry in `entries`.
pub open spec fn has_id(entries: Seq<(Seq<char>, u16)>, id: Seq<char>) -> bool {
    exists|i: int| 0 <= i < entries.len() && (#[trigger] entries[i]).0 == id
}

/// Registration of `id` on `port`, unless `id` is already there.
pub open spec fn put_spec(entries: Seq<(Seq<char>, u16)>, id: Seq<char>, port: u16) -> Seq<(Seq<char>, u16)> {
    if has_id(entries, id) {
        entries
    } else {
        entries.push((id, port))
    }
}

pub open spec fn unique_ids(entries: Seq<(Seq<char>, u16)>) -> bool {
    forall|i: int, j: int|
        0 <= i < entries.len() && 0 <= j < entries.len() && i != j ==> (#[trigger] entries[i]).0 != (#[trigger] entries[j]).0
}

/// The port on which `id` is registered.
pub open spec fn port_for(entries: Seq<(Seq<char>, u16)>, id: Seq<char>) -> u16 {
    entries[choose|i: int| 0 <= i < entries.len() && (#[trigger] entries[i]).0 == id].1
}

/// One resolution of `id`, given what binding a new listener would give
/// (`None`: no port could be had). A registered `id` keeps its port and needs
/// no bind; a new one is registered on the bound port, or nothing changes and
/// the result is `PortBindFailed`.
pub open spec fn spec_resolve(entries: Seq<(Seq<char>, u16)>, id: Seq<char>, bound: Option<u16>) -> (
    Seq<(Seq<char>, u16)>,
    Result<u16, TunnelError>,
) {
    if has_id(entries, id) {
        (entries, Ok(port_for(entries, id)))
    } else {
        match bound {
            None => (entries, Err(TunnelError::PortBindFailed)),
            Some(p) => (entries.push((id, p)), Ok(p)),
        }
    }
}

/// Resolutions of one `id`, one after another, each with its bind outcome:
/// the final entries, each result, and how many of them had to bind.
pub open spec fn resolve_all(entries: Seq<(Seq<char>, u16)>, id: Seq<char>, outcomes: Seq<Option<u16>>) -> (
    Seq<(Seq<char>, u16)>,
    Seq<Result<u16, TunnelError>>,
    nat,
)
    decreases outcomes.len(),
{
    if outcomes.len() == 0 {
        (entries, Seq::empty(), 0)
    } else {
        let first = spec_resolve(entries, id, outcomes[0]);
        let rest = resolve_all(first.0, id, outcomes.drop_first());
        (rest.0, seq![first.1] + rest.1, rest.2 + if has_id(entries, id) { 0nat } else { 1nat })
    }
}

pub open spec fn bound_port<H>(bound: Option<(u16, H)>) -> Option<u16> {
    match bound {
        Some(b) => Some(b.0),
        None => None,
    }
}

/// The endpoints and their sessions. Each identifier has at most one session.
pub struct ClientManager<H> {
    clients: Vec<Session<H>>,
}

pub open spec fn entry_of<H>(s: Session<H>) -> (Seq<char>, u16) {
    (s.id@, s.port)
}

impl<H> ClientManager<H> {
    /// The (identifier, port) pairs, in order of registration.
    pub closed spec fn entries(&self) -> Seq<(Seq<char>, u16)> {
        self.clients@.map_values(|s: Session<H>| entry_of(s))
    }

    pub closed spec fn handles(&self) -> Seq<H> {
        self.clients@.map_values(|s: Session<H>| s.client)
    }

    pub open spec fn wf(&self) -> bool {
        &&& unique_ids(self.entries())
        &&& self.handles().len() == self.entries().len()
    }

    /// A registry without endpoints.
    pub fn new() -> (r: Self)
        ensures
            r.wf(),
            r.entries() == Seq::<(Seq<char>, u16)>::empty(),
    {
        let r = ClientManager { clients: Vec::new() };
        proof {
            assert(r.entries() =~= Seq::<(Seq<char>, u16)>::empty());
            assert(r.handles() =~= Seq::<H>::empty());
        }
        r
    }

    /// Number of registered endpoints.
    pub fn tunnels_count(&self) -> (r: usize)
        ensures
            r == self.entries().len(),
    {
        self.clients.len()
    }

    /// Position of the session of `id`, if it is registered.
    pub fn find(&self, id: &str) -> (r: Option<usize>)
        requires
            self.wf(),
        ensures
            r is None <==> !has_id(self.entries(), id@),
            r matches Some(i) ==> i < self.entries().len() && self.entries()[i as int].0 == id@,
    {
        let mut i: usize = 0;
        while i < self.clients.len()
            invariant
                self.wf(),
                i <= self.clients@.len(),
                forall|j: int| 0 <= j < i ==> (#[trigger] self.entries()[j]).0 != id@,
            decreases self.clients@.len() - i,
        {
            assert(self.entries()[i as int] == entry_of(self.clients@[i as int]));
            if str_eq(self.clients[i].id.as_str(), id) {
                return Some(i);
            }
            i = i + 1;
        }
        None
    }

    /// The port of the session of `id`, or `EndpointNotFound`.
    pub fn port_of(&self, id: &str) -> (r: Result<u16, TunnelError>)
        requires
            self.wf(),
        ensures
            !has_id(self.entries(), id@) ==> r == Err::<u16, TunnelError>(TunnelError::EndpointNotFound),
            has_id(self.entries(), id@) ==> (r matches Ok(p) && exists|i: int|
                0 <= i < self.entries().len() && #[trigger] self.entries()[i] == (id@, p)),
    {
        match self.find(id) {
            Some(i) => {
                let p = self.clients[i].port;
                assert(self.entries()[i as int] == entry_of(self.clients@[i as int]));
                Ok(p)
            },
            None => Err(TunnelError::EndpointNotFound),
        }
    }

    /// The session at position `i`.
    pub fn session(&self, i: usize) -> (r: &Session<H>)
        requires
            self.wf(),
            i < self.entries().len(),
        ensures
            entry_of(*r) == self.entries()[i as int],
            r.client == self.handles()[i as int],
    {
        &self.clients[i]
    }

    /// Registers `url` on `port` with its session handle, unless it is
    /// registered already; in that case nothing changes. Returns whether it
    /// was added.
    pub fn put(&mut self, url: String, port: u16, client: H) -> (r: bool)
        requires
            old(self).wf(),
        ensures
            final(self).wf(),
            r == !has_id(old(self).entries(), url@),
            final(self).entries() == put_spec(old(self).entries(), url@, port),
            r ==> final(self).handles() == old(self).handles().push(client),
            !r ==> final(self).handles() == old(self).handles(),
    {
        match self.find(url.as_str()) {
            Some(_) => false,
            None => {
                let ghost e = self.entries();
                let ghost h = self.handles();
                self.clients.push(Session { id: url, port, client });
                proof {
                    assert(self.entries() =~= e.push((url@, port)));
                    assert(self.handles() =~= h.push(client));
                    assert(unique_ids(self.entries())) by {
                        assert forall|i: int, j: int|
                            0 <= i < self.entries().len() && 0 <= j < self.entries().len() && i != j
                            implies (#[trigger] self.entries()[i]).0 != (#[trigger] self.entries()[j]).0 by {
                            if i < e.len() && j < e.len() {
                                assert(e[i] == self.entries()[i]);
                                assert(e[j] == self.entries()[j]);
                            } else if i < e.len() {
                                assert(e[i] == self.entries()[i]);
                            } else {
                                assert(e[j] == self.entries()[j]);
                            }
                        }
                    }
                }
                true
            },
        }
    }

    /// Whether resolving `id` needs a new listener: it is not registered.
    pub fn needs_listener(&self, id: &str) -> (r: bool)
        requires
            self.wf(),
        ensures
            r == !has_id(self.entries(), id@),
    {
        self.find(id).is_none()
    }

    /// Resolves `id` given the outcome of binding a listener for it (its
    /// port and session handle, or `None` when no port could be had). A
    /// registered `id` returns its port and nothing changes; a new one is
    /// registered on the bound port, or gives `PortBindFailed` with nothing
    /// registered.
    pub fn resolve(&mut self, id: String, bound: Option<(u16, H)>) -> (r: Result<u16, TunnelError>)
        requires
            old(self).wf(),
        ensures
            final(self).wf(),
            (final(self).entries(), r) == spec_resolve(old(self).entries(), id@, bound_port(bound)),
            final(self).handles() == (match bound {
                Some(b) => if has_id(old(self).entries(), id@) {
                    old(self).handles()
                } else {
                    old(self).handles().push(b.1)
                },
                None => old(self).handles(),
            }),
    {
        match self.find(id.as_str()) {
            Some(i) => {
                let p = self.clients[i].port;
                proof {
                    let e = self.entries();
                    assert(e[i as int] == entry_of(self.clients@[i as int]));
                    let j = choose|j: int| 0 <= j < e.len() && (#[trigger] e[j]).0 == id@;
                    assert(e[j].0 == id@);
                    assert(j == i);
                }
                Ok(p)
            },
            None => match bound {
                None => Err(TunnelError::PortBindFailed),
                Some((p, client)) => {
                    self.put(id, p, client);
                    Ok(p)
                },
            },
        }
    }

    /// Routes a Host header to the position of its endpoint's session:
    /// `InvalidHost` when no endpoint identifier can be read from it,
    /// `EndpointNotFound` when that endpoint is not registered.
    pub fn route(&self, host: &str) -> (r: Result<usize, TunnelError>)
        requires
            self.wf(),
        ensures
            spec_extract(host@) is Err ==> r == Err::<usize, TunnelError>(TunnelError::InvalidHost),
            spec_extract(host@) matches Ok(id) ==> {
                &&& !has_id(self.entries(), id) ==> r == Err::<usize, TunnelError>(TunnelError::EndpointNotFound)
                &&& has_id(self.entries(), id) ==> (r matches Ok(i) && i < self.entries().len()
                    && self.entries()[i as int].0 == id)
            },
    {
        let id = match extract(host) {
            Ok(id) => id,
            Err(e) => return Err(e),
        };
        match self.find(id.as_str()) {
            Some(i) => Ok(i),
            None => Err(TunnelError::EndpointNotFound),
        }
    }
}

/// In a registry with unique identifiers, `port_for` gives the port of the
/// single entry of `id`.
proof fn port_for_unique(entries: Seq<(Seq<char>, u16)>, id: Seq<char>, i: int)
    requires
        unique_ids(entries),
        0 <= i < entries.len(),
        entries[i].0 == id,
    ensures
        port_for(entries, id) == entries[i].1,
{
    let j = choose|j: int| 0 <= j < entries.len() && (#[trigger] entries[j]).0 == id;
    assert(entries[j].0 == id);
}

proof fn resolve_all_present(entries: Seq<(Seq<char>, u16)>, id: Seq<char>, outcomes: Seq<Option<u16>>)
    requires
        has_id(entries, id),
    ensures
        resolve_all(entries, id, outcomes).0 == entries,
        resolve_all(entries, id, outcomes).2 == 0,
        resolve_all(entries, id, outcomes).1.len() == outcomes.len(),
        forall|k: int| 0 <= k < outcomes.len() ==>
            (#[trigger] resolve_all(entries, id, outcomes).1[k]) == Ok::<u16, TunnelError>(port_for(entries, id)),
    decreases outcomes.len(),
{
    if outcomes.len() > 0 {
        resolve_all_present(entries, id, outcomes.drop_first());
        let rest = resolve_all(entries, id, outcomes.drop_first());
        let all = resolve_all(entries, id, outcomes);
        assert forall|k: int| 0 <= k < outcomes.len() implies
            (#[trigger] all.1[k]) == Ok::<u16, TunnelError>(port_for(entries, id)) by {
            if k > 0 {
                assert(all.1[k] == rest.1[k - 1]);
            }
        }
    }
}

/// However many resolutions of a new identifier follow one another, when
/// the first bind succeeds only that one binds a listener: the identifier
/// gets exactly one entry, on that port, every resolution returns that port,
/// and nothing else changes.
pub proof fn single_session(entries: Seq<(Seq<char>, u16)>, id: Seq<char>, outcomes: Seq<Option<u16>>)
    requires
        unique_ids(entries),
        !has_id(entries, id),
        outcomes.len() > 0,
        outcomes[0] is Some,
    ensures
        ({
            let p = outcomes[0]->0;
            let res = resolve_all(entries, id, outcomes);
            &&& res.0 == entries.push((id, p))
            &&& unique_ids(res.0)
            &&& res.2 == 1
            &&& res.1.len() == outcomes.len()
            &&& forall|k: int| 0 <= k < outcomes.len() ==> (#[trigger] res.1[k]) == Ok::<u16, TunnelError>(p)
            &&& forall|i: int| 0 <= i < res.0.len() && (#[trigger] res.0[i]).0 == id ==> i == entries.len()
        }),
{
    let p = outcomes[0]->0;
    let first = entries.push((id, p));
    assert(first[entries.len() as int].0 == id);
    assert(spec_resolve(entries, id, outcomes[0]).0 == first);
    assert forall|i: int| 0 <= i < first.len() && (#[trigger] first[i]).0 == id implies i == entries.len() by {
        if i < entries.len() {
            assert(entries[i] == first[i]);
        }
    }
    assert forall|i: int, j: int|
        0 <= i < first.len() && 0 <= j < first.len() && i != j implies (#[trigger] first[i]).0 != (#[trigger] first[j]).0 by {
        if i < entries.len() && j < entries.len() {
            assert(entries[i] == first[i]);
            assert(entries[j] == first[j]);
        } else if i < entries.len() {
            assert(entries[i] == first[i]);
        } else if j < entries.len() {
            assert(entries[j] == first[j]);
        }
    }
    port_for_unique(first, id, entries.len() as int);
    resolve_all_present(first, id, outcomes.drop_first());
    let res = resolve_all(entries, id, outcomes);
    let rest = resolve_all(first, id, outcomes.drop_first());
    assert forall|k: int| 0 <= k < outcomes.len() implies (#[trigger] res.1[k]) == Ok::<u16, TunnelError>(p) by {
        if k > 0 {
            assert(res.1[k] == rest.1[k - 1]);
        }
    }
}

} // verus!
