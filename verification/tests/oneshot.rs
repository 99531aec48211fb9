use rust_atomics::oneshot::{receive_claim_result, send_claim_result, ChannelError, OneShotFlags, OneShotModel};

#[test]
fn oneshot_flags_single_send_single_receive() {
    let mut f = OneShotFlags::new();
    assert!(!f.is_ready());
    assert_eq!(f.claim_receive(), Err(ChannelError::NoMessage));
    assert_eq!(f.claim_send(), Ok(()));
    assert_eq!(f.claim_send(), Err(ChannelError::AlreadySent));
    assert!(!f.is_ready_acquire());
    f.publish();
    assert!(f.is_ready());
    assert!(f.holds_message());
    assert_eq!(f.claim_receive(), Ok(()));
    assert_eq!(f.claim_receive(), Err(ChannelError::NoMessage));
    assert!(!f.holds_message());
}

#[test]
fn oneshot_messages() {
    assert_eq!(ChannelError::AlreadySent.message(), "can't send more than one message!");
    assert_eq!(ChannelError::NoMessage.message(), "no message available!");
    assert_eq!(send_claim_result(true), Err(ChannelError::AlreadySent));
    assert_eq!(send_claim_result(false), Ok(()));
    assert_eq!(receive_claim_result(false), Err(ChannelError::NoMessage));
    assert_eq!(receive_claim_result(true), Ok(()));
}

#[test]
fn oneshot_model_hello_world() {
    let mut m: OneShotModel<&'static str> = OneShotModel::new();
    assert_eq!(m.receive(), Err(ChannelError::NoMessage));
    assert_eq!(m.claim_send(), Ok(()));
    m.write("Hello, World!");
    assert_eq!(m.claim_send(), Err(ChannelError::AlreadySent));
    assert!(!m.holds_message());
    m.publish();
    assert!(m.holds_message());
    assert_eq!(m.receive(), Ok("Hello, World!"));
    assert_eq!(m.receive(), Err(ChannelError::NoMessage));
    assert_eq!(m.received, 1);
    assert!(!m.holds_message());
}
