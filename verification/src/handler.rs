use vstd::prelude::*;
use crate::frame::{Frame, FrameModel};
use crate::registry::{PeerAddr, Registry};
use futures_channel::mpsc::UnboundedSender;

verus! {

/// The body of the response sent when an upgrade asks for any path other
/// than the configured route.
pub fn not_found_body() -> (r: &'static str)
    ensures
        r@ == "This is not the endpoint you're looking for"@,
{
    "This is not the endpoint you're looking for"
}

/// The HTTP status of that response.
pub const NOT_FOUND_STATUS: u16 = 404;

/// What the handshake gate tells the framing layer to answer when it
/// refuses an upgrade: an HTTP status and a plain-text body.
#[derive(Debug)]
pub struct Reject {
    pub status: u16,
    pub body: String,
}

/// The handshake gate: an upgrade is accepted exactly when the requested
/// path equals the configured route, character for character. Any other
/// path is refused with status 404 and the fixed body; the registry is
/// never involved — a refused connection has no peer.
pub fn route_decision(path: &str, route: &str) -> (r: Result<(), Reject>)
    ensures
        r is Ok <==> path@ == route@,
        r is Err ==> r->Err_0.status == NOT_FOUND_STATUS && r->Err_0.body@ == "This is not the endpoint you're looking for"@,
{
    let p = path.to_owned();
    let q = route.to_owned();
    if p == q {
        Ok(())
    } else {
        Err(Reject { status: NOT_FOUND_STATUS, body: not_found_body().to_owned() })
    }
}

/// The phase a connection handler is in. `Handshaking` covers accepting the
/// TCP connection and the WebSocket upgrade; `Ready` is the broadcasting
/// phase, the only one in which the peer is registered; `Draining` is the
/// teardown between the first side finishing and the peer's removal;
/// `Closed` is terminal.
#[derive(PartialEq, Eq, Structural, Clone, Copy, Debug)]
pub enum Phase {
    Handshaking,
    Ready,
    Draining,
    Closed,
}

/// What happens to a connection handler, as seen by its state machine.
#[derive(PartialEq, Eq, Structural, Clone, Copy, Debug)]
pub enum HandlerEvent {
    /// The upgrade completed and the requested path equals the route.
    UpgradeAccepted,
    /// The upgrade failed, or the requested path differs from the route.
    UpgradeRejected,
    /// Either the read side or the write side finished, by end-of-stream
    /// or by an error; the first such event ends the Ready phase.
    SideFinished,
    /// The peer's entry has been removed and both halves released.
    TeardownDone,
}

/// What the handler must do on a transition.
#[derive(PartialEq, Eq, Structural, Clone, Copy, Debug)]
pub enum HandlerAction {
    /// Build a fresh outbound queue and insert the peer into the registry.
    Register,
    /// Answer the refused upgrade with 404 and close; touch nothing else.
    RejectAndClose,
    /// Remove the peer from the registry and release both halves.
    Deregister,
    /// Nothing to do.
    Stay,
}

/// The connection handler's transition relation. Events that cannot occur
/// in a phase leave the phase unchanged and demand nothing.
pub open spec fn spec_step(p: Phase, e: HandlerEvent) -> (Phase, HandlerAction) {
    match (p, e) {
        (Phase::Handshaking, HandlerEvent::UpgradeAccepted) => (Phase::Ready, HandlerAction::Register),
        (Phase::Handshaking, HandlerEvent::UpgradeRejected) => (Phase::Closed, HandlerAction::RejectAndClose),
        (Phase::Ready, HandlerEvent::SideFinished) => (Phase::Draining, HandlerAction::Deregister),
        (Phase::Draining, HandlerEvent::TeardownDone) => (Phase::Closed, HandlerAction::Stay),
        _ => (p, HandlerAction::Stay),
    }
}

/// One step of the connection handler's state machine.
pub fn step(p: Phase, e: HandlerEvent) -> (r: (Phase, HandlerAction))
    ensures
        r == spec_step(p, e),
{
    match (p, e) {
        (Phase::Handshaking, HandlerEvent::UpgradeAccepted) => (Phase::Ready, HandlerAction::Register),
        (Phase::Handshaking, HandlerEvent::UpgradeRejected) => (Phase::Closed, HandlerAction::RejectAndClose),
        (Phase::Ready, HandlerEvent::SideFinished) => (Phase::Draining, HandlerAction::Deregister),
        (Phase::Draining, HandlerEvent::TeardownDone) => (Phase::Closed, HandlerAction::Stay),
        (same, _) => (same, HandlerAction::Stay),
    }
}

/// Membership law, registration half: a handler is told to register its
/// peer exactly when it enters Ready — on the accepted upgrade out of
/// Handshaking, and never in any other phase or on any other event. So the
/// registry gains an identity only for a handler that is now Ready.
pub proof fn lemma_register_iff_enter_ready(p: Phase, e: HandlerEvent)
    ensures
        spec_step(p, e).1 == HandlerAction::Register <==> (p != Phase::Ready && spec_step(
            p,
            e,
        ).0 == Phase::Ready),
        spec_step(p, e).1 == HandlerAction::Register <==> (p == Phase::Handshaking && e
            == HandlerEvent::UpgradeAccepted),
{
}

/// Membership law, removal half: a handler is told to remove its peer
/// exactly when it leaves Ready — on the first side to finish — and never
/// in any other phase. Together with the registration half, a peer stands
/// in the registry exactly while its handler is Ready.
pub proof fn lemma_deregister_iff_leave_ready(p: Phase, e: HandlerEvent)
    ensures
        spec_step(p, e).1 == HandlerAction::Deregister <==> (p == Phase::Ready && spec_step(
            p,
            e,
        ).0 != Phase::Ready),
        spec_step(p, e).1 == HandlerAction::Deregister <==> (p == Phase::Ready && e
            == HandlerEvent::SideFinished),
{
}

/// Handshake-gate law: a rejected upgrade closes the connection without any
/// registry action — the only transition that registers is the accepted
/// upgrade, so a refused path leaves the registry exactly as it was.
pub proof fn lemma_reject_touches_nothing(p: Phase)
    ensures
        spec_step(p, HandlerEvent::UpgradeRejected).1 != HandlerAction::Register,
        spec_step(p, HandlerEvent::UpgradeRejected).1 != HandlerAction::Deregister,
        p == Phase::Handshaking ==> spec_step(p, HandlerEvent::UpgradeRejected).0 == Phase::Closed,
{
}

/// One connection as its handler sees it: the peer's identity, the token
/// drawn for this connection — unique across connections, so that a stale
/// teardown cannot erase a newer connection's entry — and the phase the
/// handler is in.
pub struct Conn {
    pub addr: PeerAddr,
    pub token: u64,
    pub phase: Phase,
}

impl Conn {
    /// A freshly accepted TCP connection: the handshake is still ahead.
    pub fn begin(addr: PeerAddr, token: u64) -> (c: Conn)
        ensures
            c.addr == addr,
            c.token == token,
            c.phase == Phase::Handshaking,
    {
        Conn { addr, token, phase: Phase::Handshaking }
    }

    /// The upgrade, decided and acted on in one step. When the requested
    /// path equals the route the peer enters Ready and is registered under
    /// this connection's token with `tx` as its outbound queue; on any
    /// other path the connection closes with the fixed refusal and the
    /// registry is left exactly as it was — a refused upgrade never touches
    /// membership. Peers other than this one are untouched either way.
    pub fn upgrade(
        &mut self,
        reg: &mut Registry,
        path: &str,
        route: &str,
        tx: UnboundedSender<Frame>,
    ) -> (r: Result<(), Reject>)
        requires
            old(self).phase == Phase::Handshaking,
            old(reg).wf(),
        ensures
            final(self).addr == old(self).addr,
            final(self).token == old(self).token,
            final(reg).wf(),
            r is Ok <==> path@ == route@,
            r is Ok ==> final(self).phase == Phase::Ready && final(reg).has(old(self).addr)
                && final(reg).token_of(old(self).addr) == old(self).token && final(reg).sent_of(
                old(self).addr,
            ) == Seq::<FrameModel>::empty(),
            r is Err ==> final(self).phase == Phase::Closed && *final(reg) == *old(reg)
                && r->Err_0.status == NOT_FOUND_STATUS
                && r->Err_0.body@ == "This is not the endpoint you're looking for"@,
            forall|b: PeerAddr| b != old(self).addr ==> final(reg).has(b) == old(reg).has(b),
            forall|b: PeerAddr|
                b != old(self).addr && old(reg).has(b) ==> final(reg).token_of(b) == old(
                    reg,
                ).token_of(b) && final(reg).sent_of(b) == old(reg).sent_of(b),
    {
        match route_decision(path, route) {
            Ok(()) => {
                let (next, _action) = step(self.phase, HandlerEvent::UpgradeAccepted);
                reg.insert(self.addr, self.token, tx);
                self.phase = next;
                Ok(())
            },
            Err(rej) => {
                let (next, _action) = step(self.phase, HandlerEvent::UpgradeRejected);
                self.phase = next;
                Err(rej)
            },
        }
    }

    /// The first of the two sides has finished: the handler leaves Ready
    /// for Draining and removes its own entry — and only its own. The
    /// removal compares the token, so when a newer connection from the same
    /// address has replaced the entry, the registry is left exactly as it
    /// was; every other peer is untouched in every case.
    pub fn side_finished(&mut self, reg: &mut Registry)
        requires
            old(self).phase == Phase::Ready,
            old(reg).wf(),
        ensures
            final(self).addr == old(self).addr,
            final(self).token == old(self).token,
            final(self).phase == Phase::Draining,
            final(reg).wf(),
            old(reg).has(old(self).addr) && old(reg).token_of(old(self).addr) == old(self).token
                ==> !final(reg).has(old(self).addr),
            !(old(reg).has(old(self).addr) && old(reg).token_of(old(self).addr) == old(
                self,
            ).token) ==> *final(reg) == *old(reg),
            forall|b: PeerAddr| b != old(self).addr ==> final(reg).has(b) == old(reg).has(b),
            forall|b: PeerAddr|
                b != old(self).addr && old(reg).has(b) ==> final(reg).token_of(b) == old(
                    reg,
                ).token_of(b) && final(reg).sent_of(b) == old(reg).sent_of(b),
    {
        let (next, _action) = step(self.phase, HandlerEvent::SideFinished);
        reg.remove(self.addr, self.token);
        self.phase = next;
    }

    /// Both halves are released: the handler reaches its terminal phase.
    pub fn teardown_done(&mut self)
        requires
            old(self).phase == Phase::Draining,
        ensures
            final(self).addr == old(self).addr,
            final(self).token == old(self).token,
            final(self).phase == Phase::Closed,
    {
        let (next, _action) = step(self.phase, HandlerEvent::TeardownDone);
        self.phase = next;
    }
}

/// Once Closed, a handler stays Closed and never acts again.
pub proof fn lemma_closed_is_terminal(e: HandlerEvent)
    ensures
        spec_step(Phase::Closed, e).0 == Phase::Closed,
        spec_step(Phase::Closed, e).1 == HandlerAction::Stay,
{
}

} // verus!
