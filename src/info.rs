use vstd::prelude::*;
use crate::registry::ClientManager;

verus! {

/// What the admin API reports for an endpoint: its identifier, the port its
/// agent dials, how many connections the agent may keep open, and its
/// public address.
pub struct ProxyInfo {
    pub id: String,
    pub port: u16,
    pub max_conn_count: u8,
    pub url: String,
}

/// Aggregate counts of the relay.
pub struct ApiStatus {
    pub tunnels_count: u16,
    pub tunels: String,
}

/// The public address of endpoint `id` under `domain`.
pub open spec fn spec_url(id: Seq<char>, domain: Seq<char>) -> Seq<char> {
    id + "."@ + domain
}

/// The report on endpoint `id` bound to `port` under `domain`.
pub fn proxy_info(id: &str, port: u16, max_conn_count: u8, domain: &str) -> (r: ProxyInfo)
    ensures
        r.id@ == id@,
        r.port == port,
        r.max_conn_count == max_conn_count,
        r.url@ == spec_url(id@, domain@),
{
    let url = String::from_str(id).concat(".").concat(domain);
    ProxyInfo { id: String::from_str(id), port, max_conn_count, url }
}

/// The identifiers of `entries`, separated by commas.
pub open spec fn joined_ids(entries: Seq<(Seq<char>, u16)>) -> Seq<char>
    decreases entries.len(),
{
    if entries.len() == 0 {
        Seq::empty()
    } else if entries.len() == 1 {
        entries[0].0
    } else {
        joined_ids(entries.drop_last()) + ","@ + entries.last().0
    }
}

/// `n`, or the largest `u16` when `n` does not fit.
pub open spec fn saturate_u16(n: nat) -> u16 {
    if n <= 0xffff {
        n as u16
    } else {
        0xffff
    }
}

impl<H> ClientManager<H> {
    /// The number of registered endpoints (saturated to `u16`) and their
    /// identifiers, comma-separated, in order of registration.
    pub fn status(&self) -> (r: ApiStatus)
        requires
            self.wf(),
        ensures
            r.tunnels_count == saturate_u16(self.entries().len()),
            r.tunels@ == joined_ids(self.entries()),
    {
        let n = self.tunnels_count();
        let mut names = String::new();
        let mut i: usize = 0;
        while i < n
            invariant
                self.wf(),
                n == self.entries().len(),
                i <= n,
                names@ == joined_ids(self.entries().subrange(0, i as int)),
            decreases n - i,
        {
            let s = self.session(i);
            proof {
                let sub = self.entries().subrange(0, i + 1);
                assert(sub.drop_last() =~= self.entries().subrange(0, i as int));
                assert(sub.last() == self.entries()[i as int]);
            }
            if i > 0 {
                names.append(",");
            }
            names.append(s.id.as_str());
            proof {
                if i == 0 {
                    assert(joined_ids(self.entries().subrange(0, 0)) =~= Seq::<char>::empty());
                    assert(names@ =~= joined_ids(self.entries().subrange(0, 1)));
                }
            }
            i = i + 1;
        }
        proof {
            assert(self.entries().subrange(0, n as int) =~= self.entries());
        }
        let count: u16 = if n <= 0xffff { n as u16 } else { 0xffff };
        ApiStatus { tunnels_count: count, tunels: names }
    }
}

} // verus!
