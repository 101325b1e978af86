//! The swap session: one record per user, moved through commit, reveal and
//! cancel, and the protocol fee taken after a revealed swap.
use vstd::prelude::*;
use crate::authority::SigningCapability;
use crate::codec::{digests_equal, verifies, verify_commitment};
use crate::descriptor::{decodable, decode_descriptor, CallDescriptor};
use crate::error::CustomError;

verus! {

/// The per-user session record. `user` owns it; `commitment` is the active
/// commitment, all zero bytes when there is none; `revealed` is set by a
/// successful reveal; `bump` is the nonce of the session's derived authority,
/// stored when the session is created and reused from then on.
#[derive(Clone, Copy, Debug)]
pub struct SwapSession {
    pub user: [u8; 32],
    pub commitment: [u8; 32],
    pub revealed: bool,
    pub bump: u8,
}

/// The mathematical model of a session.
pub struct SessionView {
    pub user: Seq<u8>,
    pub commitment: Seq<u8>,
    pub revealed: bool,
    pub bump: u8,
}

impl View for SwapSession {
    type V = SessionView;

    open spec fn view(&self) -> SessionView {
        SessionView {
            user: self.user@,
            commitment: self.commitment@,
            revealed: self.revealed,
            bump: self.bump,
        }
    }
}

/// The commitment of a session with no active commitment.
pub open spec fn zero_digest() -> Seq<u8> {
    Seq::new(32, |i: int| 0u8)
}

/// Where a session stands in its lifecycle.
#[derive(Clone, Copy, Debug, PartialEq, Eq, Structural)]
pub enum SessionState {
    Uncommitted,
    Committed,
    Revealed,
}

/// The lifecycle state of a session: revealed, else committed unless the
/// commitment is all zero bytes.
pub open spec fn state_of(s: SessionView) -> SessionState {
    if s.revealed {
        SessionState::Revealed
    } else if s.commitment == zero_digest() {
        SessionState::Uncommitted
    } else {
        SessionState::Committed
    }
}

/// The lifecycle state of `session`.
pub fn session_state(session: &SwapSession) -> (r: SessionState)
    ensures
        r == state_of(session@),
{
    if session.revealed {
        return SessionState::Revealed;
    }
    let zero: [u8; 32] = [0u8; 32];
    assert(zero@ =~= zero_digest());
    if digests_equal(&session.commitment, &zero) {
        SessionState::Uncommitted
    } else {
        SessionState::Committed
    }
}

/// The outcome of a commit on a session slot, empty before the user's first
/// commit.
pub open spec fn commit_outcome(slot: Option<SessionView>, user: Seq<u8>) -> Result<(), CustomError> {
    match slot {
        None => Ok(()),
        Some(s) => if s.user != user {
            Err(CustomError::Unauthorized)
        } else if s.revealed {
            Err(CustomError::AlreadyRevealed)
        } else {
            Ok(())
        },
    }
}

/// The slot after a commit: a new session owned by `user` with nonce `bump`,
/// or the existing one with the new commitment; unchanged when refused.
pub open spec fn after_commit(slot: Option<SessionView>, user: Seq<u8>, commitment: Seq<u8>, bump: u8) -> Option<SessionView> {
    match slot {
        None => Some(SessionView { user, commitment, revealed: false, bump }),
        Some(s) => if commit_outcome(slot, user) is Ok {
            Some(SessionView { user: s.user, commitment, revealed: false, bump: s.bump })
        } else {
            slot
        },
    }
}

/// Commits `user` to `commitment`. On an empty slot it creates the session,
/// with `bump` as the nonce of its derived authority; on an existing one it
/// replaces the commitment and keeps the stored nonce. A revealed session must
/// be cancelled before it takes a new commitment.
pub fn commit_swap(slot: &mut Option<SwapSession>, user: &[u8; 32], commitment: &[u8; 32], bump: u8) -> (r: Result<(), CustomError>)
    ensures
        r == commit_outcome(view_slot(*old(slot)), user@),
        view_slot(*final(slot)) == after_commit(view_slot(*old(slot)), user@, commitment@, bump),
{
    match slot {
        None => {
            *slot = Some(SwapSession { user: *user, commitment: *commitment, revealed: false, bump });
            Ok(())
        },
        Some(s) => {
            if !digests_equal(&s.user, user) {
                return Err(CustomError::Unauthorized);
            }
            if s.revealed {
                return Err(CustomError::AlreadyRevealed);
            }
            s.commitment = *commitment;
            s.revealed = false;
            Ok(())
        },
    }
}

/// The model of a session slot.
pub open spec fn view_slot(slot: Option<SwapSession>) -> Option<SessionView> {
    match slot {
        None => None,
        Some(s) => Some(s@),
    }
}

/// The outcome of a cancel.
pub open spec fn cancel_outcome(s: SessionView, user: Seq<u8>) -> Result<(), CustomError> {
    if s.user != user {
        Err(CustomError::Unauthorized)
    } else {
        Ok(())
    }
}

/// The session after a cancel: no commitment and not revealed, unless refused.
pub open spec fn after_cancel(s: SessionView, user: Seq<u8>) -> SessionView {
    if s.user != user {
        s
    } else {
        SessionView { user: s.user, commitment: zero_digest(), revealed: false, bump: s.bump }
    }
}

/// Cancels the session's commitment: the commitment becomes all zero bytes and
/// the session is no longer revealed. Only the owner may cancel.
pub fn cancel_commitment(session: &mut SwapSession, user: &[u8; 32]) -> (r: Result<(), CustomError>)
    ensures
        r == cancel_outcome(old(session)@, user@),
        final(session)@ == after_cancel(old(session)@, user@),
{
    if !digests_equal(&session.user, user) {
        return Err(CustomError::Unauthorized);
    }
    session.commitment = [0u8; 32];
    session.revealed = false;
    assert(session.commitment@ =~= zero_digest());
    Ok(())
}

/// The parameters of a structured route for the swap router.
#[derive(Clone, Copy, Debug)]
pub struct RouteParams {
    pub id: u64,
    pub quoted_out_amount: u64,
    pub slippage_bps: u16,
    pub platform_fee_bps: u8,
}

/// How the external swap is described: a structured route, or a serialized
/// call descriptor.
#[derive(Clone, Debug)]
pub enum Dispatch {
    Route(RouteParams),
    Descriptor(Vec<u8>),
}

/// The external call that a successful reveal hands out.
#[derive(Clone, Debug)]
pub enum SwapCall {
    /// Route `in_amount` through the router `target` along `route`.
    Route { target: [u8; 32], in_amount: u64, route: RouteParams },
    /// Make the call that the decoded descriptor describes.
    Instruction(CallDescriptor),
}

/// A revealed swap waiting for its external call: the call, the capability
/// that signs it, and the session as it was before the reveal.
#[derive(Clone, Debug)]
pub struct PendingSwap {
    pub call: SwapCall,
    pub signer: SigningCapability,
    pub prior: SwapSession,
}

/// The model of a dispatch.
pub enum DispatchView {
    Route(RouteParams),
    Descriptor(Seq<u8>),
}

impl View for Dispatch {
    type V = DispatchView;

    open spec fn view(&self) -> DispatchView {
        match self {
            Dispatch::Route(route) => DispatchView::Route(*route),
            Dispatch::Descriptor(bytes) => DispatchView::Descriptor(bytes@),
        }
    }
}

/// Why a serialized descriptor cannot be used with the allow-listed router,
/// if it cannot: it must decode, and name the router as its target.
pub open spec fn descriptor_error(bytes: Seq<u8>, router: Seq<u8>) -> Option<CustomError> {
    if !decodable(bytes) {
        Some(CustomError::DeserializeFailed)
    } else if bytes.subrange(0, 32) != router {
        Some(CustomError::InvalidExternalTarget)
    } else {
        None
    }
}

/// Why a dispatch cannot be used with the allow-listed router, if it cannot.
pub open spec fn dispatch_error(dispatch: DispatchView, router: Seq<u8>) -> Option<CustomError> {
    match dispatch {
        DispatchView::Route(_) => None,
        DispatchView::Descriptor(bytes) => descriptor_error(bytes, router),
    }
}

/// Why a reveal is refused, if it is: the checks in order.
pub open spec fn reveal_error(
    s: SessionView,
    user: Seq<u8>,
    salt: Seq<u8>,
    token_in: Seq<u8>,
    token_out: Seq<u8>,
    amount: u64,
    dispatch: DispatchView,
    router: Seq<u8>,
) -> Option<CustomError> {
    if s.user != user {
        Some(CustomError::Unauthorized)
    } else if s.revealed {
        Some(CustomError::AlreadyRevealed)
    } else if !verifies(s.commitment, token_in, token_out, amount, salt) {
        Some(CustomError::CommitmentMismatch)
    } else {
        dispatch_error(dispatch, router)
    }
}

/// The call that a reveal hands out for `dispatch`.
pub open spec fn call_matches(call: SwapCall, dispatch: DispatchView, router: Seq<u8>, amount: u64) -> bool {
    match dispatch {
        DispatchView::Route(route) => call matches SwapCall::Route { target, in_amount, route: r } && target@
            == router && in_amount == amount && r == route,
        DispatchView::Descriptor(bytes) => call matches SwapCall::Instruction(d) && d.wf() && d.spec_bytes()
            == bytes,
    }
}

/// The capability that signs for the session's derived authority: the
/// session's owner and its stored nonce, never a nonce found anew.
pub fn signing_capability(session: &SwapSession) -> (r: SigningCapability)
    ensures
        r.owner@ == session.user@,
        r.nonce == session.bump,
{
    SigningCapability { owner: session.user, nonce: session.bump }
}

/// Checks a reveal against the session and, when every check passes, marks the
/// session revealed and hands out the external call, signed by the session's
/// capability. The checks, in order: the caller owns the session
/// (`Unauthorized`), it is not revealed yet (`AlreadyRevealed`), the parameters
/// and salt hash to the stored commitment (`CommitmentMismatch`), and a
/// descriptor decodes (`DeserializeFailed`) and targets `router`
/// (`InvalidExternalTarget`). The session is marked revealed before the
/// descriptor is decoded; a refusal leaves it as it was.
pub fn reveal_and_swap(
    session: &mut SwapSession,
    user: &[u8; 32],
    salt: &[u8; 32],
    token_in: &[u8; 32],
    token_out: &[u8; 32],
    amount: u64,
    dispatch: &Dispatch,
    router: &[u8; 32],
) -> (r: Result<PendingSwap, CustomError>)
    ensures
        match r {
            Ok(p) => {
                &&& reveal_error(old(session)@, user@, salt@, token_in@, token_out@, amount, dispatch@, router@) is None
                &&& final(session)@ == SessionView { revealed: true, ..old(session)@ }
                &&& call_matches(p.call, dispatch@, router@, amount)
                &&& p.signer.owner@ == old(session).user@
                &&& p.signer.nonce == old(session).bump
                &&& p.prior == *old(session)
            },
            Err(e) => {
                &&& reveal_error(old(session)@, user@, salt@, token_in@, token_out@, amount, dispatch@, router@) == Some(e)
                &&& *final(session) == *old(session)
            },
        },
{
    if !digests_equal(&session.user, user) {
        return Err(CustomError::Unauthorized);
    }
    if session.revealed {
        return Err(CustomError::AlreadyRevealed);
    }
    if !verify_commitment(&session.commitment, token_in, token_out, amount, salt) {
        return Err(CustomError::CommitmentMismatch);
    }
    let prior = *session;
    session.revealed = true;
    let signer = signing_capability(&prior);
    let call = match dispatch {
        Dispatch::Route(route) => SwapCall::Route { target: *router, in_amount: amount, route: *route },
        Dispatch::Descriptor(bytes) => {
            match decode_descriptor(bytes.as_slice()) {
                None => {
                    *session = prior;
                    return Err(CustomError::DeserializeFailed);
                },
                Some(d) => {
                    proof {
                        assert(d.target@ == bytes@.subrange(0, 32));
                    }
                    if !digests_equal(&d.target, router) {
                        *session = prior;
                        return Err(CustomError::InvalidExternalTarget);
                    }
                    SwapCall::Instruction(d)
                },
            }
        },
    };
    Ok(PendingSwap { call, signer, prior })
}

/// Concludes a reveal once the external call has run: on success the session
/// stays revealed; on failure it returns to its state before the reveal, so
/// the reveal may be tried again, and `ExternalSwapFailed` is reported.
pub fn settle_swap(session: &mut SwapSession, pending: PendingSwap, succeeded: bool) -> (r: Result<(), CustomError>)
    ensures
        succeeded ==> r == Ok::<(), CustomError>(()) && *final(session) == *old(session),
        !succeeded ==> r == Err::<(), CustomError>(CustomError::ExternalSwapFailed) && *final(session)
            == pending.prior,
{
    if succeeded {
        Ok(())
    } else {
        *session = pending.prior;
        Err(CustomError::ExternalSwapFailed)
    }
}

/// The protocol fee on `amount`: 0.1 %, rounded down.
pub open spec fn protocol_fee(amount: u64) -> u64 {
    amount / 1000
}

/// The outcome of a fee collection: the fee taken, or why none may be taken.
/// Only the owner of a revealed session may collect; a fee that rounds to zero
/// or exceeds the proceeds balance is skipped, not refused.
pub open spec fn fee_outcome(s: SessionView, user: Seq<u8>, amount: u64, balance: u64) -> Result<u64, CustomError> {
    if s.user != user {
        Err(CustomError::Unauthorized)
    } else if !s.revealed {
        Err(CustomError::SwapNotRevealed)
    } else if protocol_fee(amount) == 0 || balance < protocol_fee(amount) {
        Ok(0)
    } else {
        Ok(protocol_fee(amount))
    }
}

/// Decides the protocol fee on a revealed swap of `amount`, given the balance
/// of the proceeds account. A positive result is to be transferred from the
/// proceeds to the treasury, signed by the session's capability; zero means no
/// transfer. The session is not changed.
pub fn collect_protocol_fee(session: &SwapSession, user: &[u8; 32], amount: u64, balance: u64) -> (r: Result<u64, CustomError>)
    ensures
        r == fee_outcome(session@, user@, amount, balance),
        r matches Ok(fee) ==> fee <= balance,
        protocol_fee(amount) == 0 && session.user@ == user@ && session.revealed ==> r == Ok::<u64, CustomError>(0),
{
    if !digests_equal(&session.user, user) {
        return Err(CustomError::Unauthorized);
    }
    if !session.revealed {
        return Err(CustomError::SwapNotRevealed);
    }
    let fee = amount / 1000;
    if fee > 0 && balance >= fee {
        Ok(fee)
    } else {
        Ok(0)
    }
}

/// Cancelling twice in a row ends in the same state as cancelling once, and
/// the second cancel has the outcome of the first: for the owner, both succeed
/// and leave no commitment and no reveal.
pub proof fn lemma_cancel_idempotent(s: SessionView, user: Seq<u8>)
    ensures
        after_cancel(after_cancel(s, user), user) == after_cancel(s, user),
        cancel_outcome(after_cancel(s, user), user) == cancel_outcome(s, user),
        s.user == user ==> {
            &&& cancel_outcome(s, user) is Ok
            &&& after_cancel(s, user).commitment == zero_digest()
            &&& !after_cancel(s, user).revealed
        },
{
}

/// Every operation invoked by anyone but the session's owner fails with
/// `Unauthorized` and leaves the session as it was.
pub proof fn lemma_unauthorized_rejected(
    s: SessionView,
    user: Seq<u8>,
    commitment: Seq<u8>,
    bump: u8,
    salt: Seq<u8>,
    token_in: Seq<u8>,
    token_out: Seq<u8>,
    amount: u64,
    dispatch: DispatchView,
    router: Seq<u8>,
    balance: u64,
)
    requires
        s.user != user,
    ensures
        commit_outcome(Some(s), user) == Err::<(), CustomError>(CustomError::Unauthorized),
        after_commit(Some(s), user, commitment, bump) == Some(s),
        cancel_outcome(s, user) == Err::<(), CustomError>(CustomError::Unauthorized),
        after_cancel(s, user) == s,
        reveal_error(s, user, salt, token_in, token_out, amount, dispatch, router) == Some(
            CustomError::Unauthorized,
        ),
        fee_outcome(s, user, amount, balance) == Err::<u64, CustomError>(CustomError::Unauthorized),
{
}

/// The lifecycle moves between its three states as follows: an accepted
/// commit of a non-zero digest leaves the session `Committed`, an accepted
/// cancel leaves it `Uncommitted` from any state, a reveal leaves it
/// `Revealed`, and the owner's commit on a `Revealed` session is refused.
pub proof fn lemma_lifecycle_transitions(s: SessionView, user: Seq<u8>, commitment: Seq<u8>, bump: u8)
    ensures
        commitment != zero_digest() && commit_outcome(Some(s), user) is Ok ==> (after_commit(
            Some(s),
            user,
            commitment,
            bump,
        ) matches Some(t) && state_of(t) == SessionState::Committed),
        commitment != zero_digest() ==> (after_commit(None, user, commitment, bump) matches Some(t)
            && state_of(t) == SessionState::Committed),
        cancel_outcome(s, user) is Ok ==> state_of(after_cancel(s, user)) == SessionState::Uncommitted,
        state_of(SessionView { revealed: true, ..s }) == SessionState::Revealed,
        state_of(s) == SessionState::Revealed && s.user == user ==> commit_outcome(Some(s), user)
            == Err::<(), CustomError>(CustomError::AlreadyRevealed),
{
}

} // verus!
