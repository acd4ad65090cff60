use vstd::prelude::*;
use crate::error::TunnelError;

verus! {

/// The idle connections after `conn` joins them: it becomes the most recent.
pub open spec fn after_accept<C>(idle: Seq<C>, conn: C) -> Seq<C> {
    idle.push(conn)
}

/// The connection that the next acquisition hands out: the most recent one.
pub open spec fn next_taken<C>(idle: Seq<C>) -> C {
    idle.last()
}

/// The idle connections once the most recent one is handed out.
pub open spec fn after_take<C>(idle: Seq<C>) -> Seq<C> {
    idle.drop_last()
}

/// What one acquisition attempt decided.
pub enum Acquire<C> {
    /// A connection, now owned by the caller.
    Ready(C),
    /// The pool is empty and the deadline has not passed: wait for the agent.
    Wait,
    /// The pool stayed empty until the deadline.
    Failed(TunnelError),
}

/// One endpoint's session: its listening port and the pool of connections
/// the agent opened to it. Each connection is handed out once, most recent
/// first, and never comes back; idle plus handed-out connections stay within
/// `max_sockets`.
pub struct Client<C> {
    available_sockets: Vec<C>,
    port: Option<u16>,
    in_flight: usize,
    max_sockets: usize,
}

impl<C> Client<C> {
    pub closed spec fn idle(&self) -> Seq<C> {
        self.available_sockets@
    }

    pub closed spec fn spec_port(&self) -> Option<u16> {
        self.port
    }

    /// Connections handed out and not yet finished.
    pub closed spec fn spec_in_flight(&self) -> nat {
        self.in_flight as nat
    }

    pub closed spec fn spec_max_sockets(&self) -> nat {
        self.max_sockets as nat
    }

    pub open spec fn wf(&self) -> bool {
        self.idle().len() + self.spec_in_flight() <= self.spec_max_sockets()
    }

    pub open spec fn spec_has_room(&self) -> bool {
        self.idle().len() + self.spec_in_flight() < self.spec_max_sockets()
    }

    /// A session with no port yet and an empty pool of at most `max_sockets`.
    pub fn new(max_sockets: usize) -> (r: Self)
        ensures
            r.wf(),
            r.idle() == Seq::<C>::empty(),
            r.spec_port() == None::<u16>,
            r.spec_in_flight() == 0,
            r.spec_max_sockets() == max_sockets,
    {
        Client { available_sockets: Vec::new(), port: None, in_flight: 0, max_sockets }
    }

    /// Records the port the session's listener was bound to; a session is
    /// bound once and never again.
    pub fn listen(&mut self, port: u16) -> (r: Result<(), TunnelError>)
        ensures
            old(self).spec_port() is None ==> r is Ok && final(self).spec_port() == Some(port),
            old(self).spec_port() is Some ==> r == Err::<(), TunnelError>(TunnelError::AlreadyListening)
                && final(self).spec_port() == old(self).spec_port(),
            final(self).idle() == old(self).idle(),
            final(self).spec_in_flight() == old(self).spec_in_flight(),
            final(self).spec_max_sockets() == old(self).spec_max_sockets(),
    {
        if self.port.is_some() {
            return Err(TunnelError::AlreadyListening);
        }
        self.port = Some(port);
        Ok(())
    }

    pub fn port(&self) -> (r: Option<u16>)
        ensures
            r == self.spec_port(),
    {
        self.port
    }

    pub fn idle_count(&self) -> (r: usize)
        ensures
            r == self.idle().len(),
    {
        self.available_sockets.len()
    }

    pub fn in_flight(&self) -> (r: usize)
        ensures
            r == self.spec_in_flight(),
    {
        self.in_flight
    }

    pub fn max_sockets(&self) -> (r: usize)
        ensures
            r == self.spec_max_sockets(),
    {
        self.max_sockets
    }

    /// Whether one more agent connection fits under the cap.
    pub fn has_room(&self) -> (r: bool)
        requires
            self.wf(),
        ensures
            r == self.spec_has_room(),
    {
        self.available_sockets.len() < self.max_sockets - self.in_flight
    }

    /// Adds a newly accepted agent connection as the most recent idle one;
    /// at the cap the connection is handed back and the pool is unchanged.
    pub fn accept(&mut self, conn: C) -> (r: Result<(), C>)
        requires
            old(self).wf(),
        ensures
            final(self).wf(),
            old(self).spec_has_room() ==> r is Ok && final(self).idle() == after_accept(old(self).idle(), conn),
            !old(self).spec_has_room() ==> r == Err::<(), C>(conn) && final(self).idle() == old(self).idle(),
            final(self).spec_port() == old(self).spec_port(),
            final(self).spec_in_flight() == old(self).spec_in_flight(),
            final(self).spec_max_sockets() == old(self).spec_max_sockets(),
    {
        if !self.has_room() {
            return Err(conn);
        }
        self.available_sockets.push(conn);
        Ok(())
    }

    /// Hands out the most recently accepted idle connection, if any. It
    /// leaves the pool for good and counts as in flight until `finish`.
    pub fn take(&mut self) -> (r: Option<C>)
        requires
            old(self).wf(),
        ensures
            final(self).wf(),
            old(self).idle().len() == 0 ==> r is None && final(self).idle() == old(self).idle()
                && final(self).spec_in_flight() == old(self).spec_in_flight(),
            old(self).idle().len() > 0 ==> r == Some(next_taken(old(self).idle()))
                && final(self).idle() == after_take(old(self).idle())
                && final(self).spec_in_flight() == old(self).spec_in_flight() + 1,
            final(self).spec_port() == old(self).spec_port(),
            final(self).spec_max_sockets() == old(self).spec_max_sockets(),
    {
        let r = self.available_sockets.pop();
        if r.is_some() {
            self.in_flight = self.in_flight + 1;
        }
        r
    }

    /// One acquisition attempt at time `now_ms` for a caller whose wait ends
    /// at `deadline_ms`: a connection if one is idle, else a failure once the
    /// deadline is reached, else a request to wait.
    pub fn acquire(&mut self, now_ms: u64, deadline_ms: u64) -> (r: Acquire<C>)
        requires
            old(self).wf(),
        ensures
            final(self).wf(),
            old(self).idle().len() > 0 ==> r == Acquire::Ready(next_taken(old(self).idle()))
                && final(self).idle() == after_take(old(self).idle())
                && final(self).spec_in_flight() == old(self).spec_in_flight() + 1,
            old(self).idle().len() == 0 ==> final(self).idle() == old(self).idle()
                && final(self).spec_in_flight() == old(self).spec_in_flight(),
            old(self).idle().len() == 0 && now_ms >= deadline_ms
                ==> r == Acquire::<C>::Failed(TunnelError::NoAvailableConnection),
            old(self).idle().len() == 0 && now_ms < deadline_ms ==> r is Wait,
            final(self).spec_port() == old(self).spec_port(),
            final(self).spec_max_sockets() == old(self).spec_max_sockets(),
    {
        match self.take() {
            Some(c) => Acquire::Ready(c),
            None => {
                if now_ms >= deadline_ms {
                    Acquire::Failed(TunnelError::NoAvailableConnection)
                } else {
                    Acquire::Wait
                }
            },
        }
    }

    /// Ends the use of a handed-out connection, which is discarded: the idle
    /// connections stay as they are and room frees up under the cap.
    pub fn finish(&mut self)
        requires
            old(self).wf(),
        ensures
            final(self).wf(),
            final(self).idle() == old(self).idle(),
            old(self).spec_in_flight() > 0 ==> final(self).spec_in_flight() == old(self).spec_in_flight() - 1,
            old(self).spec_in_flight() == 0 ==> final(self).spec_in_flight() == 0,
            final(self).spec_port() == old(self).spec_port(),
            final(self).spec_max_sockets() == old(self).spec_max_sockets(),
    {
        if self.in_flight > 0 {
            self.in_flight = self.in_flight - 1;
        }
    }
}

/// Connections come out in the reverse of the order they were accepted: after
/// `c1`, `c2`, `c3` join a pool, the next three acquisitions return `c3`,
/// `c2`, `c1` and leave the pool as it was.
pub proof fn lifo_order<C>(idle: Seq<C>, c1: C, c2: C, c3: C)
    ensures
        ({
            let s3 = after_accept(after_accept(after_accept(idle, c1), c2), c3);
            let s2 = after_take(s3);
            let s1 = after_take(s2);
            &&& next_taken(s3) == c3
            &&& next_taken(s2) == c2
            &&& next_taken(s1) == c1
            &&& after_take(s1) == idle
        }),
{
    let s3 = after_accept(after_accept(after_accept(idle, c1), c2), c3);
    assert(after_take(s3) =~= after_accept(after_accept(idle, c1), c2));
    assert(after_take(after_take(s3)) =~= after_accept(idle, c1));
    assert(after_take(after_take(after_take(s3))) =~= idle);
}

/// A connection handed out is gone from the pool: among distinct connections
/// it is not among those that remain, and the pool shrinks by one.
pub proof fn taken_not_reobserved<C>(idle: Seq<C>)
    requires
        idle.len() > 0,
        idle.no_duplicates(),
    ensures
        !after_take(idle).contains(next_taken(idle)),
        after_take(idle).len() == idle.len() - 1,
        after_take(idle).no_duplicates(),
{
    let rest = after_take(idle);
    assert forall|i: int| 0 <= i < rest.len() implies rest[i] != next_taken(idle) by {
        assert(rest[i] == idle[i]);
        assert(next_taken(idle) == idle[idle.len() - 1]);
    }
}

/// The idle connections after `k` successive acquisitions.
pub open spec fn take_n<C>(idle: Seq<C>, k: nat) -> Seq<C>
    decreases k,
{
    if k == 0 {
        idle
    } else {
        after_take(take_n(idle, (k - 1) as nat))
    }
}

/// Successive acquisitions hand out the pool by position, most recent first,
/// each position once: the acquisition numbered `k` (from 0) hands out
/// position `len - 1 - k`, and what stays is the prefix before it. Among
/// distinct connections, no two acquisitions hand out the same one, and one
/// handed out is never in the pool afterwards.
pub proof fn drain_order<C>(idle: Seq<C>, n: nat)
    requires
        n <= idle.len(),
    ensures
        take_n(idle, n) == idle.subrange(0, idle.len() - n),
        forall|k: nat| k < n ==> #[trigger] next_taken(take_n(idle, k)) == idle[idle.len() - 1 - k],
        idle.no_duplicates() ==> forall|a: nat, b: nat|
            a < b < n ==> #[trigger] next_taken(take_n(idle, a)) != #[trigger] next_taken(take_n(idle, b)),
        idle.no_duplicates() ==> forall|a: nat, b: nat|
            a < b <= n ==> !(#[trigger] take_n(idle, b)).contains(#[trigger] next_taken(take_n(idle, a))),
    decreases n,
{
    if n > 0 {
        drain_order(idle, (n - 1) as nat);
        assert(take_n(idle, n) =~= idle.subrange(0, idle.len() - n));
    }
    assert forall|k: nat| k < n implies #[trigger] next_taken(take_n(idle, k)) == idle[idle.len() - 1 - k] by {
        drain_prefix(idle, k);
    }
    if idle.no_duplicates() {
        assert forall|a: nat, b: nat| a < b <= n implies
            !(#[trigger] take_n(idle, b)).contains(#[trigger] next_taken(take_n(idle, a))) by {
            drain_prefix(idle, a);
            drain_prefix(idle, b);
            let rest = take_n(idle, b);
            assert forall|i: int| 0 <= i < rest.len() implies rest[i] != next_taken(take_n(idle, a)) by {
                assert(rest[i] == idle[i]);
            }
        }
        assert forall|a: nat, b: nat| a < b < n implies
            #[trigger] next_taken(take_n(idle, a)) != #[trigger] next_taken(take_n(idle, b)) by {
            drain_prefix(idle, a);
            drain_prefix(idle, b);
        }
    }
}

proof fn drain_prefix<C>(idle: Seq<C>, k: nat)
    requires
        k <= idle.len(),
    ensures
        take_n(idle, k) == idle.subrange(0, idle.len() - k),
        k < idle.len() ==> next_taken(take_n(idle, k)) == idle[idle.len() - 1 - k],
    decreases k,
{
    if k > 0 {
        drain_prefix(idle, (k - 1) as nat);
        assert(take_n(idle, k) =~= idle.subrange(0, idle.len() - k));
    }
}

} // verus!
