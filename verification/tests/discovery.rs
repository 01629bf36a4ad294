use serframe::discovery::{
    discovery_step, note_discovery_result, probe_accepts, DISCOVERY_BAUD, DISCOVERY_TIMEOUT_MS,
};
use serframe::log::LogKind;
use serframe::session::Session;

#[test]
fn discovery_parameters_are_fixed() {
    assert_eq!(DISCOVERY_BAUD, 9600);
    assert_eq!(DISCOVERY_TIMEOUT_MS, 100);
}

#[test]
fn probe_acceptance_rule() {
    assert!(probe_accepts(&Some((0, vec![1, 2, 3, 4, 5, 6, 7, 8]))));
    // Non-zero status is a device-reported failure.
    assert!(!probe_accepts(&Some((1, vec![1, 2, 3, 4, 5, 6, 7, 8]))));
    // A serial number has exactly eight bytes.
    assert!(!probe_accepts(&Some((0, vec![1, 2, 3, 4, 5, 6, 7]))));
    assert!(!probe_accepts(&Some((0, vec![0; 9]))));
    // A failed exchange never identifies a device.
    assert!(!probe_accepts(&None));
}

#[test]
fn discovery_adopts_the_first_matching_candidate_and_stops() {
    let serial = vec![9, 9, 9, 9, 9, 9, 9, 9];
    let replies: Vec<Option<(u8, Vec<u8>)>> = vec![
        None,
        Some((2, serial.clone())),
        Some((0, vec![0; 4])),
        Some((0, serial.clone())),
        Some((0, serial.clone())),
    ];
    let mut s = Session::new();
    let mut probed = 0;
    let mut adopted_id = None;
    for (id, reply) in replies.iter().enumerate() {
        probed += 1;
        if discovery_step(&mut s, id as u64, reply) {
            adopted_id = Some(id as u64);
            break;
        }
    }
    assert_eq!(probed, 4);
    assert_eq!(adopted_id, Some(3));
    assert_eq!(s.transport, Some(3));
}

#[test]
fn failed_probes_leave_the_session_unchanged() {
    let mut s = Session::new();
    assert!(!discovery_step(&mut s, 5, &Some((1, vec![0; 8]))));
    assert!(s.transport.is_none());
    assert!(s.log.is_empty());
}

#[test]
fn adoption_replaces_the_previous_transport() {
    let mut s = Session::new();
    assert!(discovery_step(&mut s, 1, &Some((0, vec![0; 8]))));
    assert_eq!(s.transport, Some(1));
    // A later successful discovery while a transport is active: exactly
    // one transport is active afterward, the new one.
    assert!(discovery_step(&mut s, 7, &Some((0, vec![1; 8]))));
    assert_eq!(s.transport, Some(7));
}

#[test]
fn discovery_result_is_logged() {
    let mut s = Session::new();
    note_discovery_result(&mut s, true);
    assert_eq!(s.log.len(), 1);
    assert_eq!(s.log[0].kind, LogKind::Info);
    assert_eq!(s.log[0].label, "Info");
    assert_eq!(s.log[0].data, "Connected");
    note_discovery_result(&mut s, false);
    assert_eq!(s.log.len(), 2);
    assert_eq!(s.log[1].kind, LogKind::Error);
    assert_eq!(s.log[1].data, "Unable to find a suitable port");
}

#[test]
fn no_candidate_matches_means_no_transport() {
    let mut s = Session::new();
    let replies: Vec<Option<(u8, Vec<u8>)>> =
        vec![None, Some((3, vec![0; 8])), Some((0, vec![0; 2]))];
    let mut adopted = false;
    for (id, reply) in replies.iter().enumerate() {
        if discovery_step(&mut s, id as u64, reply) {
            adopted = true;
            break;
        }
    }
    assert!(!adopted);
    assert!(s.transport.is_none());
}
