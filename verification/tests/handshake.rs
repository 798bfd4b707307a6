use bridgetest::handshake::{
    handshake_step, login_account, HandshakeAction, HandshakeEvent, HandshakeState, LoginAccount,
};

#[test]
fn login_accounts() {
    assert_eq!(login_account(false, ""), Some(LoginAccount::Offline));
    assert_eq!(login_account(true, "me@example.org"), Some(LoginAccount::Microsoft));
    assert_eq!(login_account(true, "not-an-address"), None);
}

#[test]
fn login_exchange() {
    let (s, a) = handshake_step(HandshakeState::AwaitInit, HandshakeEvent::OtherClientPacket);
    assert_eq!((s, a), (HandshakeState::AwaitInit, HandshakeAction::Drop));
    let (s, a) = handshake_step(s, HandshakeEvent::ClientInit);
    assert_eq!((s, a), (HandshakeState::AwaitAuth, HandshakeAction::SendHello));
    let (s, a) = handshake_step(s, HandshakeEvent::OtherClientPacket);
    assert_eq!((s, a), (HandshakeState::AwaitLogin, HandshakeAction::AcceptAndJoin));
    let (s, a) = handshake_step(s, HandshakeEvent::OtherServerEvent);
    assert_eq!((s, a), (HandshakeState::AwaitLogin, HandshakeAction::Drop));
    let (s, a) = handshake_step(s, HandshakeEvent::ServerLogin);
    assert_eq!((s, a), (HandshakeState::Done, HandshakeAction::StartPlay));
    assert_eq!(handshake_step(s, HandshakeEvent::ServerLogin), (HandshakeState::Done, HandshakeAction::Drop));
}
