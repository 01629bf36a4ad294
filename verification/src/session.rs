//! Session state and the command executor. The session owns the six saved
//! data slots, the saved configuration, the last successfully decoded
//! payload, the identity of the active transport, and the log. The
//! executor turns a command into a request frame and classifies the bytes
//! (or the failure) that came back, appending exactly one log record per
//! exchange.
//!
//! The serial I/O itself — opening a port, writing the request, blocking
//! for the reply — cannot happen here; the surrounding program performs it
//! and hands the outcome back as an [`ExchangeOutcome`].

use vstd::prelude::*;
use vstd::string::StringExecFns;

use crate::codec::{
    decode_checked, encode, frame_of, frame_ok, frame_shape_ok, payload_of, status_of, Cmd,
};
use crate::log::{appended, now_string, LogKind, LogRecord};
use crate::text::{dec_of, hex_upper, hex_upper_string, u8_dec_string};

verus! {

/// What the surrounding program observed when it tried to carry one
/// request frame to the device.
#[derive(Clone, Debug)]
pub enum ExchangeOutcome {
    /// No transport was active, so no I/O was attempted.
    NotConnected,
    /// The write or the read failed or timed out; the description is the
    /// I/O error's own.
    IoError(String),
    /// A reply was received into the receive buffer.
    Received(Vec<u8>),
}

/// In-memory session snapshot: scratch storage the user fills through
/// read and write operations, the active transport, and the log.
pub struct Session {
    /// Six 4-byte data slots, zero until first loaded.
    pub slots: Vec<Vec<u8>>,
    /// One 4-byte configuration value, zero until first read.
    pub conf: Vec<u8>,
    /// Payload of the last successfully decoded reply.
    pub last_payload: Option<Vec<u8>>,
    /// Identity of the active transport, if one is open; the surrounding
    /// program keeps the handle itself under the same identity.
    pub transport: Option<u64>,
    /// Records appended in the order the operations ran.
    pub log: Vec<LogRecord>,
    /// Log row currently selected for display.
    pub selected: Option<usize>,
}

impl Session {
    /// Shape invariant: six slots of four bytes and a four-byte
    /// configuration.
    pub open spec fn wf(self) -> bool {
        &&& self.slots@.len() == 6
        &&& forall|k: int| 0 <= k < 6 ==> self.slots@[k]@.len() == 4
        &&& self.conf@.len() == 4
    }

    /// Fresh disconnected session: all slots and the configuration hold
    /// zero bytes, nothing decoded yet, empty log.
    pub fn new() -> (s: Session)
        ensures
            s.wf(),
            forall|k: int| 0 <= k < 6 ==> s.slots@[k]@ == seq![0u8, 0u8, 0u8, 0u8],
            s.conf@ == seq![0u8, 0u8, 0u8, 0u8],
            s.last_payload is None,
            s.transport is None,
            s.log@.len() == 0,
            s.selected is None,
    {
        let mut slots: Vec<Vec<u8>> = Vec::new();
        let mut k: usize = 0;
        while k < 6
            invariant
                k <= 6,
                slots@.len() == k,
                forall|j: int| 0 <= j < k ==> slots@[j]@ == seq![0u8, 0u8, 0u8, 0u8],
            decreases 6 - k,
        {
            slots.push(zero_word());
            k += 1;
        }
        Session {
            slots,
            conf: zero_word(),
            last_payload: None,
            transport: None,
            log: Vec::new(),
            selected: None,
        }
    }

    /// Whether a transport is active.
    pub fn has_transport(&self) -> (r: bool)
        ensures
            r == (self.transport is Some),
    {
        self.transport.is_some()
    }

    /// Append one log record of the given kind, label and data, stamped
    /// with the current wall-clock time. Nothing else changes.
    pub fn append_record(&mut self, kind: LogKind, label: String, data: String)
        ensures
            appended(old(self).log@, final(self).log@, kind, label@, data@),
            final(self).slots == old(self).slots,
            final(self).conf == old(self).conf,
            final(self).last_payload == old(self).last_payload,
            final(self).transport == old(self).transport,
            final(self).selected == old(self).selected,
    {
        let timestamp = now_string();
        self.log.push(LogRecord { kind, timestamp, label, data });
        proof {
            assert(self.log@.drop_last() =~= old(self).log@);
        }
    }

    /// Encode the request for a command, or report that no transport is
    /// active (in which case no frame is produced and no I/O may be
    /// attempted).
    pub fn begin_exchange(&self, cmd: Cmd, payload: &Vec<u8>) -> (r: Option<Vec<u8>>)
        requires
            payload@.len() <= 127,
        ensures
            match r {
                Some(f) => self.transport is Some && f@ == frame_of(
                    0,
                    cmd.opcode_spec(),
                    payload@,
                ),
                None => self.transport is None,
            },
    {
        if self.transport.is_some() {
            Some(build_request(cmd, payload))
        } else {
            None
        }
    }

    /// Classify the outcome of one exchange. Exactly one log record is
    /// appended whatever happened. A reply is accepted only if it passes
    /// the frame integrity gate; its status and payload are then returned
    /// and the payload becomes the last successful payload, logged as a
    /// `Response` record with the status in decimal and the payload in
    /// uppercase hexadecimal. Every failure yields an `Error` record and
    /// leaves the rest of the session unchanged.
    pub fn finish_exchange(&mut self, outcome: ExchangeOutcome) -> (r: Option<(u8, Vec<u8>)>)
        ensures
            final(self).slots == old(self).slots,
            final(self).conf == old(self).conf,
            final(self).transport == old(self).transport,
            final(self).selected == old(self).selected,
            match outcome {
                ExchangeOutcome::NotConnected => r is None && final(self).last_payload == old(
                    self,
                ).last_payload && appended(
                    old(self).log@,
                    final(self).log@,
                    LogKind::Error,
                    "Error"@,
                    "Port not active"@,
                ),
                ExchangeOutcome::IoError(msg) => r is None && final(self).last_payload == old(
                    self,
                ).last_payload && appended(
                    old(self).log@,
                    final(self).log@,
                    LogKind::Error,
                    "Error"@,
                    msg@,
                ),
                ExchangeOutcome::Received(buf) => if frame_shape_ok(buf@) && frame_ok(buf@) {
                    &&& r matches Some(sp) && sp.0 == status_of(buf@) && sp.1@ == payload_of(
                        buf@,
                    )
                    &&& final(self).last_payload matches Some(p) && p@ == payload_of(buf@)
                    &&& appended(
                        old(self).log@,
                        final(self).log@,
                        LogKind::Response,
                        dec_of(status_of(buf@)),
                        hex_upper(payload_of(buf@)),
                    )
                } else {
                    &&& r is None
                    &&& final(self).last_payload == old(self).last_payload
                    &&& appended(
                        old(self).log@,
                        final(self).log@,
                        LogKind::Error,
                        "Error"@,
                        "Data corrupted"@,
                    )
                },
            },
    {
        match outcome {
            ExchangeOutcome::NotConnected => {
                self.append_record(
                    LogKind::Error,
                    String::from_str("Error"),
                    String::from_str("Port not active"),
                );
                None
            },
            ExchangeOutcome::IoError(msg) => {
                self.append_record(LogKind::Error, String::from_str("Error"), msg);
                None
            },
            ExchangeOutcome::Received(buf) => {
                match decode_checked(&buf) {
                    Ok((status, payload)) => {
                        let stored = copy_bytes(&payload);
                        self.last_payload = Some(stored);
                        self.append_record(
                            LogKind::Response,
                            u8_dec_string(status),
                            hex_upper_string(&payload),
                        );
                        Some((status, payload))
                    },
                    Err(_) => {
                        self.append_record(
                            LogKind::Error,
                            String::from_str("Error"),
                            String::from_str("Data corrupted"),
                        );
                        None
                    },
                }
            },
        }
    }

    /// Accept a bulk-read payload: exactly 24 bytes are split into six
    /// 4-byte slots in index order; any other length leaves every slot at
    /// its prior value.
    pub fn store_slots(&mut self, payload: &Vec<u8>) -> (updated: bool)
        requires
            old(self).wf(),
        ensures
            final(self).wf(),
            updated == (payload@.len() == 24),
            updated ==> forall|k: int|
                0 <= k < 6 ==> final(self).slots@[k]@ == payload@.subrange(4 * k, 4 * k + 4),
            !updated ==> final(self).slots == old(self).slots,
            final(self).conf == old(self).conf,
            final(self).last_payload == old(self).last_payload,
            final(self).transport == old(self).transport,
            final(self).log == old(self).log,
            final(self).selected == old(self).selected,
    {
        if payload.len() == 24 {
            let mut new_slots: Vec<Vec<u8>> = Vec::new();
            let mut k: usize = 0;
            while k < 6
                invariant
                    k <= 6,
                    payload@.len() == 24,
                    new_slots@.len() == k,
                    forall|j: int|
                        0 <= j < k ==> new_slots@[j]@ == payload@.subrange(4 * j, 4 * j + 4),
                decreases 6 - k,
            {
                let mut word: Vec<u8> = Vec::new();
                let mut t: usize = 0;
                while t < 4
                    invariant
                        t <= 4,
                        k < 6,
                        payload@.len() == 24,
                        word@ == payload@.subrange(4 * k as int, 4 * k + t),
                    decreases 4 - t,
                {
                    word.push(payload[4 * k + t]);
                    t += 1;
                    proof {
                        assert(payload@.subrange(4 * k as int, 4 * k + t - 1).push(
                            payload@[4 * k + t - 1],
                        ) =~= payload@.subrange(4 * k as int, 4 * k + t));
                    }
                }
                new_slots.push(word);
                k += 1;
            }
            self.slots = new_slots;
            true
        } else {
            false
        }
    }

    /// Accept a configuration-read payload: exactly 4 bytes become the
    /// saved configuration and an `Info` record with the bytes in
    /// hexadecimal is appended; any other length changes nothing.
    pub fn store_conf(&mut self, payload: &Vec<u8>) -> (updated: bool)
        requires
            old(self).wf(),
        ensures
            final(self).wf(),
            updated == (payload@.len() == 4),
            updated ==> final(self).conf@ == payload@ && appended(
                old(self).log@,
                final(self).log@,
                LogKind::Info,
                "Info"@,
                "Saved conf "@ + hex_upper(payload@),
            ),
            !updated ==> final(self).conf == old(self).conf && final(self).log == old(self).log,
            final(self).slots == old(self).slots,
            final(self).last_payload == old(self).last_payload,
            final(self).transport == old(self).transport,
            final(self).selected == old(self).selected,
    {
        if payload.len() == 4 {
            self.conf = copy_bytes(payload);
            let data = String::from_str("Saved conf ").concat(hex_upper_string(payload).as_str());
            self.append_record(LogKind::Info, String::from_str("Info"), data);
            true
        } else {
            false
        }
    }

    /// One bulk-read attempt is done when the exchange produced a reply
    /// whose payload holds exactly the six slots; the slots are then
    /// stored. The reply's status byte plays no part. Anything else
    /// leaves the session unchanged, and the attempt is to be retried.
    pub fn bulk_read_attempt(&mut self, reply: &Option<(u8, Vec<u8>)>) -> (done: bool)
        requires
            old(self).wf(),
        ensures
            final(self).wf(),
            done == (reply matches Some(sp) && sp.1@.len() == 24),
            done ==> (reply matches Some(sp) && forall|k: int|
                0 <= k < 6 ==> final(self).slots@[k]@ == sp.1@.subrange(4 * k, 4 * k + 4)),
            !done ==> final(self).slots == old(self).slots,
            final(self).conf == old(self).conf,
            final(self).last_payload == old(self).last_payload,
            final(self).transport == old(self).transport,
            final(self).log == old(self).log,
            final(self).selected == old(self).selected,
    {
        match reply {
            Some((_, d)) => self.store_slots(d),
            None => false,
        }
    }

    /// The request payload that writes slot `i`: the 1-based slot
    /// selector followed by the slot's four bytes.
    pub fn slot_write_payload(&self, i: usize) -> (r: Vec<u8>)
        requires
            self.wf(),
            i < 6,
        ensures
            r@ == seq![(i + 1) as u8] + self.slots@[i as int]@,
            r@.len() == 5,
    {
        let mut r: Vec<u8> = Vec::new();
        r.push(i as u8 + 1);
        let mut t: usize = 0;
        while t < 4
            invariant
                t <= 4,
                i < 6,
                self.wf(),
                r@ == seq![(i + 1) as u8] + self.slots@[i as int]@.subrange(0, t as int),
            decreases 4 - t,
        {
            r.push(self.slots[i][t]);
            t += 1;
            proof {
                assert(seq![(i + 1) as u8] + self.slots@[i as int]@.subrange(0, t - 1).push(
                    self.slots@[i as int]@[t - 1],
                ) =~= seq![(i + 1) as u8] + self.slots@[i as int]@.subrange(0, t as int));
            }
        }
        proof {
            assert(self.slots@[i as int]@.subrange(0, 4) =~= self.slots@[i as int]@);
        }
        r
    }

    /// A slot write succeeded when the device answered with status 0; an
    /// `Info` record with the written bytes is then appended. Any other
    /// outcome changes nothing, and the attempt is to be retried.
    pub fn note_slot_write(&mut self, i: usize, reply: &Option<(u8, Vec<u8>)>) -> (ok: bool)
        requires
            old(self).wf(),
            i < 6,
        ensures
            final(self).wf(),
            ok == (reply matches Some(sp) && sp.0 == 0),
            ok ==> appended(
                old(self).log@,
                final(self).log@,
                LogKind::Info,
                "Info"@,
                "Wrote "@ + hex_upper(old(self).slots@[i as int]@),
            ),
            !ok ==> final(self).log == old(self).log,
            final(self).slots == old(self).slots,
            final(self).conf == old(self).conf,
            final(self).last_payload == old(self).last_payload,
            final(self).transport == old(self).transport,
            final(self).selected == old(self).selected,
    {
        let ok = match reply {
            Some((s, _)) => *s == 0,
            None => false,
        };
        if ok {
            let data = String::from_str("Wrote ").concat(
                hex_upper_string(&self.slots[i]).as_str(),
            );
            self.append_record(LogKind::Info, String::from_str("Info"), data);
        }
        ok
    }

    /// Select the newest log row, as done after appending.
    pub fn select_last(&mut self)
        ensures
            final(self).selected == if old(self).log@.len() > 0 {
                Some((old(self).log@.len() - 1) as usize)
            } else {
                None::<usize>
            },
            final(self).slots == old(self).slots,
            final(self).conf == old(self).conf,
            final(self).last_payload == old(self).last_payload,
            final(self).transport == old(self).transport,
            final(self).log == old(self).log,
    {
        if self.log.len() > 0 {
            let n = self.log.len();
            self.selected = Some(n - 1);
        } else {
            self.selected = None;
        }
    }

    /// Move the selection one row down, stopping at the newest row.
    pub fn select_next(&mut self)
        ensures
            final(self).selected == match old(self).selected {
                Some(i) => if old(self).log@.len() > 0 {
                    if i + 1 < old(self).log@.len() {
                        Some((i + 1) as usize)
                    } else {
                        Some((old(self).log@.len() - 1) as usize)
                    }
                } else {
                    Some(i)
                },
                None => None::<usize>,
            },
            final(self).slots == old(self).slots,
            final(self).conf == old(self).conf,
            final(self).last_payload == old(self).last_payload,
            final(self).transport == old(self).transport,
            final(self).log == old(self).log,
    {
        match self.selected {
            Some(i) => {
                let n = self.log.len();
                if n > 0 {
                    if i < n - 1 {
                        self.selected = Some(i + 1);
                    } else {
                        self.selected = Some(n - 1);
                    }
                }
            },
            None => {},
        }
    }

    /// Move the selection one row up, stopping at the first row.
    pub fn select_prev(&mut self)
        ensures
            final(self).selected == match old(self).selected {
                Some(i) => Some(if i > 0 {
                    (i - 1) as usize
                } else {
                    0usize
                }),
                None => None::<usize>,
            },
            final(self).slots == old(self).slots,
            final(self).conf == old(self).conf,
            final(self).last_payload == old(self).last_payload,
            final(self).transport == old(self).transport,
            final(self).log == old(self).log,
    {
        match self.selected {
            Some(i) => {
                if i > 0 {
                    self.selected = Some(i - 1);
                } else {
                    self.selected = Some(0);
                }
            },
            None => {},
        }
    }

    /// Select the first log row.
    pub fn select_first(&mut self)
        ensures
            final(self).selected == Some(0usize),
            final(self).slots == old(self).slots,
            final(self).conf == old(self).conf,
            final(self).last_payload == old(self).last_payload,
            final(self).transport == old(self).transport,
            final(self).log == old(self).log,
    {
        self.selected = Some(0);
    }
}

/// The request frame for a command: this tool always addresses station 0.
pub fn build_request(cmd: Cmd, payload: &Vec<u8>) -> (r: Vec<u8>)
    requires
        payload@.len() <= 127,
    ensures
        r@ == frame_of(0, cmd.opcode_spec(), payload@),
{
    encode(0, cmd.opcode(), payload)
}

/// Selector bytes of the read command that fetches all six data slots.
pub fn read_slots_selector() -> (r: Vec<u8>)
    ensures
        r@ == seq![0u8, 1u8],
{
    let mut r: Vec<u8> = Vec::new();
    r.push(0);
    r.push(1);
    proof {
        assert(r@ =~= seq![0u8, 1u8]);
    }
    r
}

/// Selector bytes of the read command that fetches the configuration.
pub fn read_conf_selector() -> (r: Vec<u8>)
    ensures
        r@ == seq![0u8, 0u8],
{
    let mut r: Vec<u8> = Vec::new();
    r.push(0);
    r.push(0);
    proof {
        assert(r@ =~= seq![0u8, 0u8]);
    }
    r
}

fn zero_word() -> (r: Vec<u8>)
    ensures
        r@ == seq![0u8, 0u8, 0u8, 0u8],
{
    let mut r: Vec<u8> = Vec::new();
    r.push(0);
    r.push(0);
    r.push(0);
    r.push(0);
    proof {
        assert(r@ =~= seq![0u8, 0u8, 0u8, 0u8]);
    }
    r
}

fn copy_bytes(v: &Vec<u8>) -> (r: Vec<u8>)
    ensures
        r@ == v@,
{
    let mut r: Vec<u8> = Vec::new();
    let mut i: usize = 0;
    while i < v.len()
        invariant
            i <= v@.len(),
            r@ == v@.subrange(0, i as int),
        decreases v@.len() - i,
    {
        r.push(v[i]);
        i += 1;
        proof {
            assert(v@.subrange(0, i - 1).push(v@[i - 1]) =~= v@.subrange(0, i as int));
        }
    }
    proof {
        assert(v@.subrange(0, v@.len() as int) =~= v@);
    }
    r
}

} // verus!
