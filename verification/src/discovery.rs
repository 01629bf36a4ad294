//! Device discovery: candidate serial endpoints are probed one after
//! another with an identity query, and the first that answers correctly
//! is adopted as the session's transport, replacing any previous one.
//! Enumerating, opening and probing the endpoints is I/O done by the
//! surrounding program; the acceptance rule and the adoption are decided
//! here.

use vstd::prelude::*;
use vstd::string::StringExecFns;

use crate::log::{appended, LogKind};
use crate::session::Session;

verus! {

/// Baud rate every candidate is opened with.
pub const DISCOVERY_BAUD: u32 = 9600;

/// Read and write timeout, in milliseconds, every candidate is opened
/// with.
pub const DISCOVERY_TIMEOUT_MS: u64 = 100;

/// Whether a probe reply identifies the device: status 0 and an 8-byte
/// payload, the serial number.
pub open spec fn probe_ok(reply: Option<(u8, Vec<u8>)>) -> bool {
    match reply {
        Some(sp) => sp.0 == 0 && sp.1@.len() == 8,
        None => false,
    }
}

/// Acceptance rule of one candidate's probe reply.
pub fn probe_accepts(reply: &Option<(u8, Vec<u8>)>) -> (r: bool)
    ensures
        r == probe_ok(*reply),
{
    match reply {
        Some((status, data)) => *status == 0 && data.len() == 8,
        None => false,
    }
}

/// The session after adopting a candidate: only the transport changes.
pub open spec fn adopt_spec(s: Session, id: u64) -> Session {
    Session { transport: Some(id), ..s }
}

/// Probe verdict on one candidate: a correct reply adopts the candidate
/// as the one active transport — the previous one, if any, is released by
/// its owner on this verdict — and discovery stops; anything else leaves
/// the session unchanged and the candidate is discarded, not retried.
pub fn discovery_step(s: &mut Session, candidate: u64, reply: &Option<(u8, Vec<u8>)>) -> (adopted:
    bool)
    ensures
        adopted == probe_ok(*reply),
        adopted ==> *final(s) == adopt_spec(*old(s), candidate),
        !adopted ==> *final(s) == *old(s),
{
    if probe_accepts(reply) {
        s.transport = Some(candidate);
        true
    } else {
        false
    }
}

/// Log how discovery ended: an `Info` record when a candidate was
/// adopted, an `Error` record when every candidate was probed in vain.
/// The interactive loop goes on either way.
pub fn note_discovery_result(s: &mut Session, adopted: bool)
    ensures
        adopted ==> appended(old(s).log@, final(s).log@, LogKind::Info, "Info"@, "Connected"@),
        !adopted ==> appended(
            old(s).log@,
            final(s).log@,
            LogKind::Error,
            "Error"@,
            "Unable to find a suitable port"@,
        ),
        final(s).slots == old(s).slots,
        final(s).conf == old(s).conf,
        final(s).last_payload == old(s).last_payload,
        final(s).transport == old(s).transport,
        final(s).selected == old(s).selected,
{
    if adopted {
        s.append_record(LogKind::Info, String::from_str("Info"), String::from_str("Connected"));
    } else {
        s.append_record(
            LogKind::Error,
            String::from_str("Error"),
            String::from_str("Unable to find a suitable port"),
        );
    }
}

/// The session and the number of candidates probed after running
/// discovery over a list of candidates and the replies their probes
/// would give, stopping at the first correct reply.
pub open spec fn discover_run(s: Session, ids: Seq<u64>, replies: Seq<Option<(u8, Vec<u8>)>>) -> (
    Session,
    int,
)
    decreases replies.len(),
{
    if replies.len() == 0 {
        (s, 0)
    } else if probe_ok(replies[0]) {
        (adopt_spec(s, ids[0]), 1)
    } else {
        let rest = discover_run(s, ids.drop_first(), replies.drop_first());
        (rest.0, 1 + rest.1)
    }
}

/// Discovery short-circuit: when the candidate at position `n` is the
/// first whose probe answers status 0 with an 8-byte payload, discovery
/// adopts exactly that candidate and probes exactly `n + 1` candidates —
/// none after it.
pub proof fn lemma_discovery_short_circuit(
    s: Session,
    ids: Seq<u64>,
    replies: Seq<Option<(u8, Vec<u8>)>>,
    n: int,
)
    requires
        ids.len() == replies.len(),
        0 <= n < replies.len(),
        probe_ok(replies[n]),
        forall|k: int| 0 <= k < n ==> !probe_ok(replies[k]),
    ensures
        discover_run(s, ids, replies) == (adopt_spec(s, ids[n]), n + 1),
    decreases n,
{
    if n > 0 {
        assert(!probe_ok(replies[0]));
        assert(forall|k: int|
            0 <= k < n - 1 ==> !probe_ok(replies.drop_first()[k])) by {
            assert(forall|k: int|
                0 <= k < n - 1 ==> replies.drop_first()[k] == replies[k + 1]);
        }
        lemma_discovery_short_circuit(s, ids.drop_first(), replies.drop_first(), n - 1);
        assert(replies.drop_first()[n - 1] == replies[n]);
        assert(ids.drop_first()[n - 1] == ids[n]);
    }
}

/// When no candidate answers correctly, every one is probed and the
/// session — its transport in particular — is left as it was.
pub proof fn lemma_discovery_not_found(
    s: Session,
    ids: Seq<u64>,
    replies: Seq<Option<(u8, Vec<u8>)>>,
)
    requires
        ids.len() == replies.len(),
        forall|k: int| 0 <= k < replies.len() ==> !probe_ok(replies[k]),
    ensures
        discover_run(s, ids, replies) == (s, replies.len() as int),
    decreases replies.len(),
{
    if replies.len() > 0 {
        assert(!probe_ok(replies[0]));
        assert(forall|k: int|
            0 <= k < replies.drop_first().len() ==> !probe_ok(replies.drop_first()[k])) by {
            assert(forall|k: int|
                0 <= k < replies.drop_first().len() ==> replies.drop_first()[k] == replies[k
                    + 1]);
        }
        lemma_discovery_not_found(s, ids.drop_first(), replies.drop_first());
    }
}

/// Exclusive transport ownership: adopting a candidate while a transport
/// was already active leaves exactly one transport active — the new one;
/// the old identity is no longer held anywhere in the session.
pub proof fn lemma_exclusive_transport(s: Session, id: u64, prev: u64)
    requires
        s.transport == Some(prev),
    ensures
        adopt_spec(s, id).transport == Some(id),
        forall|t: u64| adopt_spec(s, id).transport == Some(t) ==> t == id,
        prev != id ==> adopt_spec(s, id).transport != Some(prev),
{
}

/// The same, through a whole discovery run: a successful discovery over
/// candidates of which the one at `n` is the first to answer correctly
/// ends with that candidate as the only active transport, whatever
/// transport was active before.
pub proof fn lemma_discovery_replaces_transport(
    s: Session,
    ids: Seq<u64>,
    replies: Seq<Option<(u8, Vec<u8>)>>,
    n: int,
)
    requires
        ids.len() == replies.len(),
        0 <= n < replies.len(),
        probe_ok(replies[n]),
        forall|k: int| 0 <= k < n ==> !probe_ok(replies[k]),
    ensures
        discover_run(s, ids, replies).0.transport == Some(ids[n]),
        forall|t: u64| discover_run(s, ids, replies).0.transport == Some(t) ==> t == ids[n],
{
    lemma_discovery_short_circuit(s, ids, replies, n);
}

} // verus!
