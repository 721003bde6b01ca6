use devrouter::bridge::{bridge_step, is_complete, new_bridge, DirEvent, DirState, Direction};

#[test]
fn clean_bridge_both_sides_send_then_close() {
    let mut st = new_bridge();
    st = bridge_step(st, Direction::AToB, DirEvent::Data(b"abc".to_vec()));
    st = bridge_step(st, Direction::BToA, DirEvent::Data(b"hello".to_vec()));
    st = bridge_step(st, Direction::AToB, DirEvent::Data(b"defg".to_vec()));
    st = bridge_step(st, Direction::AToB, DirEvent::Eof);
    assert!(!is_complete(&st));
    st = bridge_step(st, Direction::BToA, DirEvent::Eof);
    assert!(is_complete(&st));
    assert_eq!(st.first_error, None);
    assert_eq!(st.a_to_b.forwarded, 7);
    assert_eq!(st.b_to_a.forwarded, 5);
    assert_eq!(st.a_to_b.state, DirState::Closed);
    assert_eq!(st.b_to_a.state, DirState::Closed);
}

#[test]
fn one_sided_close_does_not_end_the_bridge() {
    let mut st = new_bridge();
    st = bridge_step(st, Direction::AToB, DirEvent::Eof);
    assert_eq!(st.a_to_b.state, DirState::Closed);
    assert_eq!(st.b_to_a.state, DirState::Open);
    assert!(!is_complete(&st));
    // The other direction still delivers its in-flight bytes.
    st = bridge_step(st, Direction::BToA, DirEvent::Data(b"late bytes".to_vec()));
    assert_eq!(st.b_to_a.forwarded, 10);
}

#[test]
fn error_tears_down_both_directions_and_is_reported() {
    let mut st = new_bridge();
    st = bridge_step(st, Direction::AToB, DirEvent::Data(b"ab".to_vec()));
    st = bridge_step(st, Direction::AToB, DirEvent::Fail(b"connection reset".to_vec()));
    assert!(is_complete(&st));
    assert_eq!(st.a_to_b.state, DirState::Failed);
    assert_eq!(st.b_to_a.state, DirState::Closed);
    assert_eq!(st.first_error, Some(b"connection reset".to_vec()));
}

#[test]
fn first_error_wins() {
    let mut st = new_bridge();
    st = bridge_step(st, Direction::AToB, DirEvent::Fail(b"first".to_vec()));
    st = bridge_step(st, Direction::BToA, DirEvent::Fail(b"second".to_vec()));
    assert_eq!(st.first_error, Some(b"first".to_vec()));
    assert!(is_complete(&st));
}

#[test]
fn finished_bridge_is_inert() {
    let mut st = new_bridge();
    st = bridge_step(st, Direction::AToB, DirEvent::Eof);
    st = bridge_step(st, Direction::BToA, DirEvent::Eof);
    let snapshot = st.clone();
    st = bridge_step(st, Direction::AToB, DirEvent::Data(b"too late".to_vec()));
    st = bridge_step(st, Direction::BToA, DirEvent::Fail(b"late".to_vec()));
    assert_eq!(st, snapshot);
}
