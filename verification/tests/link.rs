use allvu::codec::Decoded;
use allvu::connection::{Connection, IoFailure, LinkError, LinkState, Policy};
use allvu::packet::{ConnectionPacket, PacketType, MAX_PAYLOAD_LEN};

fn ready(id: u32) -> Connection {
    let mut link = Connection::new(id);
    assert!(link.begin_handshake());
    assert!(link.mark_ready());
    link
}

#[test]
fn a_new_link_is_connecting_and_clean() {
    let link = Connection::new(7);
    assert_eq!(link, Connection { id: 7, penalty: 0, failures: 0, state: LinkState::Connecting });
}

#[test]
fn the_handshake_is_entered_and_left_in_order() {
    let mut link = Connection::new(1);
    assert!(!link.mark_ready());
    assert_eq!(link.state, LinkState::Connecting);
    assert!(link.begin_handshake());
    assert_eq!(link.state, LinkState::Handshaking);
    assert!(!link.begin_handshake());
    assert!(link.mark_ready());
    assert_eq!(link.state, LinkState::Ready);
    assert!(!link.mark_ready());
}

#[test]
fn standard_policy_values() {
    let policy = Policy::standard();
    assert_eq!(policy.exclusion_threshold, 8);
    assert_eq!(policy.max_consecutive_failures, 5);
    assert_eq!(policy.success_credit, 1);
    assert_eq!(policy.idle_decay, 0);
}

#[test]
fn a_failure_degrades_and_a_success_restores() {
    let policy = Policy::standard();
    let mut link = ready(1);
    assert!(!link.record_failure(false, &policy));
    assert_eq!(link, Connection { id: 1, penalty: 1, failures: 1, state: LinkState::Degraded });
    assert!(!link.record_failure(false, &policy));
    assert_eq!(link, Connection { id: 1, penalty: 2, failures: 2, state: LinkState::Degraded });
    link.record_success(&policy);
    assert_eq!(link, Connection { id: 1, penalty: 1, failures: 0, state: LinkState::Ready });
    link.record_success(&policy);
    link.record_success(&policy);
    assert_eq!(link, Connection { id: 1, penalty: 0, failures: 0, state: LinkState::Ready });
}

#[test]
fn a_link_over_the_failure_bound_closes_exactly_once() {
    let policy = Policy { exclusion_threshold: 100, max_consecutive_failures: 3, success_credit: 1, idle_decay: 0 };
    let mut link = ready(4);
    let mut closings = 0;
    for n in 1..=10u32 {
        if link.record_failure(false, &policy) {
            closings += 1;
            assert_eq!(n, 4);
        }
    }
    assert_eq!(closings, 1);
    assert_eq!(link, Connection { id: 4, penalty: 4, failures: 4, state: LinkState::Closed });
    link.record_success(&policy);
    assert_eq!(link.state, LinkState::Closed);
    assert!(!link.close());
}

#[test]
fn a_success_between_failures_starts_the_count_anew() {
    let policy = Policy { exclusion_threshold: 100, max_consecutive_failures: 2, success_credit: 0, idle_decay: 0 };
    let mut link = ready(4);
    for _ in 0..5 {
        assert!(!link.record_failure(false, &policy));
        assert!(!link.record_failure(false, &policy));
        link.record_success(&policy);
    }
    assert_eq!(link, Connection { id: 4, penalty: 10, failures: 0, state: LinkState::Ready });
    assert!(!link.record_failure(false, &policy));
    assert!(!link.record_failure(false, &policy));
    assert!(link.record_failure(false, &policy));
}

#[test]
fn a_fatal_failure_closes_at_once() {
    let policy = Policy::standard();
    let mut link = ready(2);
    assert!(link.record_failure(true, &policy));
    assert_eq!(link, Connection { id: 2, penalty: 1, failures: 1, state: LinkState::Closed });
    assert!(!link.record_failure(true, &policy));
    assert_eq!(link.penalty, 1);
}

#[test]
fn a_failure_in_the_handshake_closes_the_link() {
    let policy = Policy::standard();
    let mut link = Connection::new(2);
    link.begin_handshake();
    assert!(link.record_failure(false, &policy));
    assert_eq!(link.state, LinkState::Closed);
}

#[test]
fn a_link_over_the_threshold_stays_degraded_until_enough_successes() {
    let policy = Policy { exclusion_threshold: 2, max_consecutive_failures: 10, success_credit: 1, idle_decay: 0 };
    let mut link = ready(1);
    for _ in 0..4 {
        link.record_failure(false, &policy);
    }
    assert_eq!(link.penalty, 4);
    link.record_success(&policy);
    assert_eq!(link, Connection { id: 1, penalty: 3, failures: 0, state: LinkState::Degraded });
    link.record_success(&policy);
    assert_eq!(link, Connection { id: 1, penalty: 2, failures: 0, state: LinkState::Ready });
}

#[test]
fn a_credit_of_the_maximum_clears_the_penalty() {
    let policy = Policy { exclusion_threshold: 2, max_consecutive_failures: 10, success_credit: u32::MAX, idle_decay: 0 };
    let mut link = ready(1);
    for _ in 0..7 {
        link.record_failure(false, &policy);
    }
    link.record_success(&policy);
    assert_eq!(link, Connection { id: 1, penalty: 0, failures: 0, state: LinkState::Ready });
}

#[test]
fn penalty_and_failures_saturate() {
    let policy = Policy { exclusion_threshold: 2, max_consecutive_failures: u32::MAX, success_credit: 1, idle_decay: 0 };
    let mut link = Connection { id: 1, penalty: u32::MAX, failures: u32::MAX, state: LinkState::Ready };
    assert!(!link.record_failure(false, &policy));
    assert_eq!(link, Connection { id: 1, penalty: u32::MAX, failures: u32::MAX, state: LinkState::Degraded });
}

#[test]
fn close_reports_the_transition_once() {
    let mut link = ready(3);
    assert!(link.close());
    assert!(!link.close());
    assert_eq!(link.state, LinkState::Closed);
}

#[test]
fn read_counts_a_frame_as_a_success() {
    let policy = Policy::standard();
    let mut link = ready(1);
    link.record_failure(false, &policy);
    let p = ConnectionPacket { packet_type: PacketType::MediaData, packet_data: vec![1, 2] };
    let bytes = p.to_bytes();
    assert_eq!(link.read(&bytes, false, &policy), Ok(Decoded::Frame(p, 7)));
    assert_eq!(link, Connection { id: 1, penalty: 0, failures: 0, state: LinkState::Ready });
}

#[test]
fn read_of_a_part_changes_nothing() {
    let policy = Policy::standard();
    let mut link = ready(1);
    assert_eq!(link.read(&[20, 0, 0], false, &policy), Ok(Decoded::Incomplete(2)));
    assert_eq!(link, ready(1));
}

#[test]
fn read_of_a_broken_frame_closes_the_link() {
    let policy = Policy::standard();
    let mut link = ready(1);
    assert_eq!(link.read(&[77, 0, 0, 0, 0], false, &policy), Err(LinkError::ProtocolViolation));
    assert_eq!(link, Connection { id: 1, penalty: 1, failures: 1, state: LinkState::Closed });
    assert_eq!(link.read(&[20, 0, 0, 0, 0], false, &policy), Err(LinkError::LinkClosed));
}

#[test]
fn read_at_the_end_of_the_stream_reports_the_close() {
    let policy = Policy::standard();
    let mut link = ready(1);
    assert_eq!(link.read(&[], true, &policy), Err(LinkError::ConnectionClosed));
    assert_eq!(link.state, LinkState::Closed);
}

#[test]
fn write_gives_the_frame_or_says_why_not() {
    let mut link = ready(1);
    let p = ConnectionPacket { packet_type: PacketType::MediaData, packet_data: vec![1, 2] };
    assert_eq!(link.write(&p), Ok(vec![20, 0, 0, 0, 2, 1, 2]));
    let big = ConnectionPacket {
        packet_type: PacketType::MediaData,
        packet_data: vec![0; MAX_PAYLOAD_LEN as usize + 1],
    };
    assert_eq!(link.write(&big), Err(LinkError::ProtocolViolation));
    link.close();
    assert_eq!(link.write(&p), Err(LinkError::LinkClosed));
    assert_eq!(link.write(&big), Err(LinkError::LinkClosed));
}

#[test]
fn only_a_broken_transport_is_fatal() {
    assert!(IoFailure::Broken.is_fatal());
    assert!(!IoFailure::TimedOut.is_fatal());
    assert!(!IoFailure::Interrupted.is_fatal());
    assert!(!IoFailure::WouldBlock.is_fatal());
}

#[test]
fn time_heals_where_the_policy_has_a_decay() {
    let policy = Policy { exclusion_threshold: 2, max_consecutive_failures: 10, success_credit: 1, idle_decay: 2 };
    let mut link = ready(1);
    for _ in 0..5 {
        link.record_failure(false, &policy);
    }
    assert_eq!(link, Connection { id: 1, penalty: 5, failures: 5, state: LinkState::Degraded });
    link.tick(&policy);
    assert_eq!(link, Connection { id: 1, penalty: 3, failures: 5, state: LinkState::Degraded });
    link.tick(&policy);
    assert_eq!(link, Connection { id: 1, penalty: 1, failures: 5, state: LinkState::Ready });
    link.tick(&policy);
    assert_eq!(link, Connection { id: 1, penalty: 0, failures: 5, state: LinkState::Ready });
    link.record_failure(false, &policy);
    assert_eq!(link, Connection { id: 1, penalty: 1, failures: 6, state: LinkState::Degraded });
}

#[test]
fn time_heals_nothing_where_the_policy_has_no_decay() {
    let policy = Policy::standard();
    let mut link = ready(1);
    link.record_failure(false, &policy);
    let before = link;
    link.tick(&policy);
    assert_eq!(link, before);
    let decaying = Policy { exclusion_threshold: 2, max_consecutive_failures: 10, success_credit: 1, idle_decay: 9 };
    let mut handshaking = Connection { id: 3, penalty: 4, failures: 0, state: LinkState::Handshaking };
    handshaking.tick(&decaying);
    assert_eq!(handshaking, Connection { id: 3, penalty: 0, failures: 0, state: LinkState::Handshaking });
    let mut gone = Connection { id: 4, penalty: 4, failures: 1, state: LinkState::Closed };
    gone.tick(&decaying);
    assert_eq!(gone, Connection { id: 4, penalty: 4, failures: 1, state: LinkState::Closed });
}
