//! The client-side connector's decisions.
//!
//! Opening a client socket means: turn the host into a list of candidate
//! addresses (an IP literal is its own single candidate; a domain's
//! candidates are the resolver's answers, in order), then try the candidates
//! in order — bind an ephemeral local socket of the matching family,
//! attempt a kernel-level connect with a per-attempt timeout — and stop at
//! the first success. On exhaustion the last connect error wins. The
//! resolving, binding and connecting are outside work; the candidate
//! planning and the first-success / last-error-wins fold are decided here.

use vstd::prelude::*;

use crate::addr::{IpRepr, PeerAddr};
use crate::error::UdpError;

verus! {

/// The remote end as the user names it: an IP literal, or a domain name to
/// be resolved outside.
#[derive(Clone, Copy, Debug, PartialEq, Eq, Structural)]
pub enum HostRepr {
    V4(u32),
    V6(u128),
    Domain,
}

/// The candidate addresses to try, in order: a literal is its own single
/// candidate with the given port; a domain's candidates are the resolver's
/// answers, handed in as `resolved`, kept in answer order.
pub fn candidate_addrs(host: &HostRepr, port: u16, resolved: &Vec<PeerAddr>) -> (r: Vec<PeerAddr>)
    ensures
        host is Domain ==> r@ == resolved@,
        (host matches HostRepr::V4(ip) ==> r@ =~= seq![PeerAddr { ip: IpRepr::V4(*ip), port }]),
        (host matches HostRepr::V6(ip) ==> r@ =~= seq![PeerAddr { ip: IpRepr::V6(*ip), port }]),
{
    match host {
        HostRepr::V4(ip) => {
            let mut out: Vec<PeerAddr> = Vec::new();
            out.push(PeerAddr { ip: IpRepr::V4(*ip), port });
            out
        },
        HostRepr::V6(ip) => {
            let mut out: Vec<PeerAddr> = Vec::new();
            out.push(PeerAddr { ip: IpRepr::V6(*ip), port });
            out
        },
        HostRepr::Domain => {
            let n = resolved.len();
            let mut out: Vec<PeerAddr> = Vec::new();
            let mut i: usize = 0;
            while i < n
                invariant
                    n == resolved@.len(),
                    i <= n,
                    out@ =~= resolved@.take(i as int),
                decreases n - i,
            {
                out.push(resolved[i]);
                proof {
                    assert(resolved@.take(i as int + 1) =~= resolved@.take(i as int).push(
                        resolved@[i as int],
                    ));
                }
                i += 1;
            }
            proof {
                assert(resolved@.take(n as int) =~= resolved@);
            }
            out
        },
    }
}

/// How one candidate attempt ended.
#[derive(Clone, Copy, Debug, PartialEq, Eq, Structural)]
pub enum AttemptOutcome {
    /// Binding a local ephemeral socket of the candidate's family failed;
    /// the candidate is skipped and no error is recorded.
    BindFailed,
    /// The kernel-level connect succeeded: the search is over.
    Connected,
    /// Connect failed with this kernel error code; recorded, last one wins.
    ConnectFailed(u32),
    /// The per-attempt timeout elapsed; the candidate is skipped and no
    /// error is recorded.
    TimedOut,
}

/// Some outcome in `s` is `Connected`.
pub open spec fn any_connected(s: Seq<AttemptOutcome>) -> bool {
    exists|i: int| 0 <= i < s.len() && s[i] == AttemptOutcome::Connected
}

/// The error code of the last `ConnectFailed` in `s`, if any.
pub open spec fn last_connect_err(s: Seq<AttemptOutcome>) -> Option<u32>
    decreases s.len(),
{
    if s.len() == 0 {
        None
    } else {
        match s.last() {
            AttemptOutcome::ConnectFailed(e) => Some(e),
            _ => last_connect_err(s.drop_last()),
        }
    }
}

/// The running state of a candidate search: how many candidates were tried,
/// which one connected (if any), and the last connect error seen.
pub struct ConnectSearch {
    pub tried: usize,
    pub connected: Option<usize>,
    pub last_err: Option<u32>,
}

impl ConnectSearch {
    /// A search that has tried nothing yet.
    pub fn new() -> (s: ConnectSearch)
        ensures
            s.tried == 0,
            s.connected is None,
            s.last_err is None,
    {
        ConnectSearch { tried: 0, connected: None, last_err: None }
    }

    /// Fold in the outcome of the next candidate, in candidate order.
    /// Returns true exactly when this candidate connected: the caller stops
    /// trying. A failed connect updates the recorded error; a failed bind or
    /// a timeout records nothing.
    pub fn step(&mut self, outcome: AttemptOutcome) -> (done: bool)
        requires
            old(self).connected is None,
            old(self).tried < usize::MAX,
        ensures
            final(self).tried == old(self).tried + 1,
            done == (outcome == AttemptOutcome::Connected),
            final(self).connected == (if done {
                Some(old(self).tried)
            } else {
                None::<usize>
            }),
            final(self).last_err == (match outcome {
                AttemptOutcome::ConnectFailed(e) => Some(e),
                _ => old(self).last_err,
            }),
    {
        let index = self.tried;
        self.tried = self.tried + 1;
        match outcome {
            AttemptOutcome::Connected => {
                self.connected = Some(index);
                true
            },
            AttemptOutcome::ConnectFailed(e) => {
                self.last_err = Some(e);
                false
            },
            AttemptOutcome::BindFailed => false,
            AttemptOutcome::TimedOut => false,
        }
    }

    /// The search's result: the connected candidate's index, or a connect error
    /// carrying the last kernel error observed (none when every candidate
    /// failed to bind or timed out).
    pub fn finish(&self) -> (r: Result<usize, UdpError>)
        ensures
            match self.connected {
                Some(i) => r == Ok::<usize, UdpError>(i),
                None => r == Err::<usize, UdpError>(UdpError::Connect(self.last_err)),
            },
    {
        match self.connected {
            Some(i) => Ok(i),
            None => Err(UdpError::Connect(self.last_err)),
        }
    }
}

/// Walk a whole list of candidate outcomes in order: the first success
/// wins; on exhaustion no candidate connected and the last connect error —
/// if any attempt got as far as failing to connect — is reported.
pub fn select_candidate(outcomes: &Vec<AttemptOutcome>) -> (r: Result<usize, UdpError>)
    ensures
        match r {
            Ok(i) => i < outcomes@.len() && outcomes@[i as int] == AttemptOutcome::Connected
                && (forall|j: int| 0 <= j < i ==> outcomes@[j] != AttemptOutcome::Connected),
            Err(e) => !any_connected(outcomes@) && e == UdpError::Connect(
                last_connect_err(outcomes@),
            ),
        },
{
    let mut search = ConnectSearch::new();
    let n = outcomes.len();
    let mut i: usize = 0;
    while i < n
        invariant
            n == outcomes@.len(),
            i <= n,
            search.tried == i,
            search.connected is None,
            forall|j: int| 0 <= j < i ==> outcomes@[j] != AttemptOutcome::Connected,
            search.last_err == last_connect_err(outcomes@.take(i as int)),
        decreases n - i,
    {
        let done = search.step(outcomes[i]);
        proof {
            assert(outcomes@.take(i as int + 1).drop_last() =~= outcomes@.take(i as int));
            assert(outcomes@.take(i as int + 1).last() == outcomes@[i as int]);
        }
        if done {
            return Ok(i);
        }
        i += 1;
    }
    proof {
        assert(outcomes@.take(n as int) =~= outcomes@);
    }
    search.finish()
}

} // verus!
