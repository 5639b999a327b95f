use mac_sniff::button::{ButtonEvent, ButtonState};
use mac_sniff::dedup::{
    MacSet, QueuePoll, ScanSession, SessionStep, SCAN_SESSION_BUDGET_MS, STATUS_UPDATE_INTERVAL_MS,
};
use mac_sniff::mac::MacAddress;
use mac_sniff::store::{decode_mac_log, save_mac_log};

#[test]
fn inserting_the_same_address_many_times_keeps_size_one() {
    let mut set = MacSet::new();
    let mac = MacAddress::new(0xAA, 0xAA, 0xAA, 0xAA, 0xAA, 0xAA);
    for _ in 0..50 {
        set.insert(mac);
    }
    assert_eq!(set.len(), 1);
    assert!(set.contains(&mac));
}

#[test]
fn inserting_distinct_addresses_keeps_them_all() {
    let mut set = MacSet::new();
    for i in 0..100u8 {
        set.insert(MacAddress::new(i, 0, 0, 0, 0, i));
    }
    assert_eq!(set.len(), 100);
    for i in 0..100u8 {
        assert!(set.contains(&MacAddress::new(i, 0, 0, 0, 0, i)));
    }
    assert!(!set.contains(&MacAddress::new(0, 1, 0, 0, 0, 0)));
}

#[test]
fn session_finishes_when_budget_elapses() {
    let mut session = ScanSession::new(SCAN_SESSION_BUDGET_MS, 1000);
    assert_eq!(session.step(1100, QueuePoll::Empty), SessionStep::Carry);
    assert_eq!(
        session.step(1000 + SCAN_SESSION_BUDGET_MS - 1, QueuePoll::Empty),
        SessionStep::StatusUpdate { seconds_remaining: 1, unique_count: 0 }
    );
    assert_eq!(
        session.step(1000 + SCAN_SESSION_BUDGET_MS, QueuePoll::Empty),
        SessionStep::Finished
    );
}

#[test]
fn session_finishes_at_once_on_disconnect() {
    let mut session = ScanSession::new(SCAN_SESSION_BUDGET_MS, 0);
    assert_eq!(session.step(100, QueuePoll::Disconnected), SessionStep::Finished);
    assert_eq!(session.macs.len(), 0);
}

#[test]
fn session_reports_status_every_interval() {
    let mut session = ScanSession::new(SCAN_SESSION_BUDGET_MS, 0);
    assert_eq!(session.step(100, QueuePoll::Empty), SessionStep::Carry);
    let step = session.step(STATUS_UPDATE_INTERVAL_MS, QueuePoll::Empty);
    assert_eq!(
        step,
        SessionStep::StatusUpdate { seconds_remaining: 27, unique_count: 0 }
    );
    // The interval restarts from the update just issued.
    assert_eq!(
        session.step(STATUS_UPDATE_INTERVAL_MS + 100, QueuePoll::Empty),
        SessionStep::Carry
    );
}

#[test]
fn scan_session_scenario_dedups_and_saves_two_addresses() {
    let aa = MacAddress::new(0xAA, 0xAA, 0xAA, 0xAA, 0xAA, 0xAA);
    let bb = MacAddress::new(0xBB, 0xBB, 0xBB, 0xBB, 0xBB, 0xBB);
    let mut button = ButtonState::new();
    let mut session = ScanSession::new(SCAN_SESSION_BUDGET_MS, 0);
    // The producer emits AA five times and BB once, interleaved with empty
    // polls and button no-ops.
    let feed = [
        QueuePoll::Received(aa),
        QueuePoll::Empty,
        QueuePoll::Received(aa),
        QueuePoll::Received(bb),
        QueuePoll::Empty,
        QueuePoll::Received(aa),
        QueuePoll::Received(aa),
        QueuePoll::Empty,
        QueuePoll::Received(aa),
    ];
    let mut now = 0u64;
    for poll in feed {
        now += 100;
        button.update_button_state(false, now as u32);
        assert_eq!(button.check_button_event(), ButtonEvent::Idle);
        assert_ne!(session.step(now, poll), SessionStep::Finished);
    }
    let finished = session.step(SCAN_SESSION_BUDGET_MS, QueuePoll::Empty);
    assert_eq!(finished, SessionStep::Finished);
    assert_eq!(session.macs.len(), 2);
    // Saving the session's set yields a header count of 2 and exactly those
    // two addresses, in some order.
    let macs = session.macs.addresses();
    let (name, data) = save_mac_log(macs, 4096, 0, 77).expect("plenty of space");
    assert_eq!(name, "scan_77.bin");
    assert_eq!(&data[0..4], &[2, 0, 0, 0]);
    assert_eq!(data.len(), 16);
    let read_back = decode_mac_log(&data).expect("well-formed log");
    assert_eq!(read_back.len(), 2);
    assert!(read_back.contains(&aa));
    assert!(read_back.contains(&bb));
}
