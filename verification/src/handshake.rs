//! Logging in: the exchange with the client before play starts, and the
//! account the proxy joins the server with.
use vstd::prelude::*;
use crate::text::contains_char;

verus! {

/// The account to join the server with.
#[derive(Clone, Copy, Debug, PartialEq, Eq, Structural)]
pub enum LoginAccount {
    /// A Microsoft account, by its e-mail address.
    Microsoft,
    /// An offline account under the player's name.
    Offline,
}

/// The account to join with: in online mode a Microsoft account, which
/// needs an e-mail address (one with an "@"); `None` when the address is
/// not one, and the proxy cannot log in.
pub fn login_account(online_mode: bool, email: &str) -> (r: Option<LoginAccount>)
    ensures
        !online_mode ==> r == Some(LoginAccount::Offline),
        online_mode && email@.contains('@') ==> r == Some(LoginAccount::Microsoft),
        online_mode && !email@.contains('@') ==> r is None,
{
    if !online_mode {
        Some(LoginAccount::Offline)
    } else if contains_char(email, '@') {
        Some(LoginAccount::Microsoft)
    } else {
        None
    }
}

/// Where the login exchange stands.
#[derive(Clone, Copy, Debug, PartialEq, Eq, Structural)]
pub enum HandshakeState {
    /// Waiting for the client's init packet.
    AwaitInit,
    /// Hello sent, waiting for the client's authentication reply.
    AwaitAuth,
    /// Joining the server, waiting for its login confirmation.
    AwaitLogin,
    /// Logged in on both sides.
    Done,
}

/// What arrives during the login exchange.
#[derive(Clone, Copy, Debug, PartialEq, Eq, Structural)]
pub enum HandshakeEvent {
    /// The client's init packet.
    ClientInit,
    /// Any other client packet.
    OtherClientPacket,
    /// The server confirmed the login.
    ServerLogin,
    /// Any other server event.
    OtherServerEvent,
}

/// What the proxy does in answer.
#[derive(Clone, Copy, Debug, PartialEq, Eq, Structural)]
pub enum HandshakeAction {
    /// Ignore it (with a warning).
    Drop,
    /// Answer the init with hello.
    SendHello,
    /// Accept the client's authentication and join the server.
    AcceptAndJoin,
    /// Play starts.
    StartPlay,
}

/// One step of the login exchange: the client must send init first, is
/// then answered with hello, and its next packet is taken as its
/// authentication, upon which the proxy joins the server; the server's
/// login confirmation ends the exchange. Anything else is dropped.
pub open spec fn next_handshake(state: HandshakeState, event: HandshakeEvent) -> (HandshakeState, HandshakeAction) {
    match (state, event) {
        (HandshakeState::AwaitInit, HandshakeEvent::ClientInit) => (
            HandshakeState::AwaitAuth,
            HandshakeAction::SendHello,
        ),
        (HandshakeState::AwaitAuth, HandshakeEvent::ClientInit) => (
            HandshakeState::AwaitLogin,
            HandshakeAction::AcceptAndJoin,
        ),
        (HandshakeState::AwaitAuth, HandshakeEvent::OtherClientPacket) => (
            HandshakeState::AwaitLogin,
            HandshakeAction::AcceptAndJoin,
        ),
        (HandshakeState::AwaitLogin, HandshakeEvent::ServerLogin) => (
            HandshakeState::Done,
            HandshakeAction::StartPlay,
        ),
        _ => (state, HandshakeAction::Drop),
    }
}

/// One step of the login exchange (see `next_handshake`).
pub fn handshake_step(state: HandshakeState, event: HandshakeEvent) -> (r: (HandshakeState, HandshakeAction))
    ensures
        r == next_handshake(state, event),
{
    match (state, event) {
        (HandshakeState::AwaitInit, HandshakeEvent::ClientInit) => (
            HandshakeState::AwaitAuth,
            HandshakeAction::SendHello,
        ),
        (HandshakeState::AwaitAuth, HandshakeEvent::ClientInit) => (
            HandshakeState::AwaitLogin,
            HandshakeAction::AcceptAndJoin,
        ),
        (HandshakeState::AwaitAuth, HandshakeEvent::OtherClientPacket) => (
            HandshakeState::AwaitLogin,
            HandshakeAction::AcceptAndJoin,
        ),
        (HandshakeState::AwaitLogin, HandshakeEvent::ServerLogin) => (
            HandshakeState::Done,
            HandshakeAction::StartPlay,
        ),
        _ => (state, HandshakeAction::Drop),
    }
}

/// Play never starts before the server confirmed the login, the client's
/// init must come before anything is answered, and once play has started
/// no further event changes the state.
pub proof fn law_play_starts_only_on_login(state: HandshakeState, event: HandshakeEvent)
    ensures
        (next_handshake(state, event).0 == HandshakeState::Done && state != HandshakeState::Done) ==> (
        state == HandshakeState::AwaitLogin && event == HandshakeEvent::ServerLogin),
        state == HandshakeState::AwaitInit && event != HandshakeEvent::ClientInit ==> next_handshake(
            state,
            event,
        ) == (HandshakeState::AwaitInit, HandshakeAction::Drop),
        state == HandshakeState::Done ==> next_handshake(state, event) == (
            HandshakeState::Done,
            HandshakeAction::Drop,
        ),
{
}

} // verus!
