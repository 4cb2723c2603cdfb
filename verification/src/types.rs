//! Data model of the payment gateway: identifiers, requests, internal
//! commands, processor replies, responses, and the error taxonomy.

use vstd::prelude::*;

use crate::records::PaymentCustomRecords;

verus! {

/// A 256-bit hash uniquely identifying a payment attempt.
#[derive(Clone, Copy, Debug, PartialEq, Eq)]
pub struct Hash256 {
    pub bytes: [u8; 32],
}

/// A node's public key (33-byte compressed form).
#[derive(Clone, Copy, Debug, PartialEq, Eq)]
pub struct Pubkey {
    pub bytes: [u8; 33],
}

/// A channel identified by its funding transaction hash and output index.
#[derive(Clone, Copy, Debug, PartialEq, Eq)]
pub struct OutPoint {
    pub tx_hash: Hash256,
    pub index: u32,
}

/// Asset-type descriptor for non-native-token payments.
#[derive(Clone, Debug, PartialEq, Eq)]
pub struct Script {
    pub code_hash: Hash256,
    pub hash_type: u8,
    pub args: Vec<u8>,
}

/// A hop hint is a hint for a node to use a specific channel: an advisory
/// forwarding edge handed in with a payment request.
#[derive(Clone, Copy, Debug, PartialEq, Eq)]
pub struct HopHint {
    /// The public key of the node.
    pub pubkey: Pubkey,
    /// The outpoint of the channel.
    pub channel_outpoint: OutPoint,
    /// The fee rate to use this hop to forward the payment.
    pub fee_rate: u64,
    /// The TLC expiry delta to use this hop to forward the payment.
    pub tlc_expiry_delta: u64,
}

/// The routing subsystem's own hop-hint shape, as carried inside the internal
/// command.
#[derive(Clone, Copy, Debug, PartialEq, Eq)]
pub struct NetworkHopHint {
    pub pubkey: Pubkey,
    pub channel_outpoint: OutPoint,
    pub fee_rate: u64,
    pub tlc_expiry_delta: u64,
}

/// The internal hint a wire hint converts into: same edge, field for field.
pub open spec fn network_hint_of(h: HopHint) -> NetworkHopHint {
    NetworkHopHint {
        pubkey: h.pubkey,
        channel_outpoint: h.channel_outpoint,
        fee_rate: h.fee_rate,
        tlc_expiry_delta: h.tlc_expiry_delta,
    }
}

impl core::convert::From<HopHint> for NetworkHopHint {
    fn from(hop_hint: HopHint) -> (r: Self) {
        NetworkHopHint {
            pubkey: hop_hint.pubkey,
            channel_outpoint: hop_hint.channel_outpoint,
            fee_rate: hop_hint.fee_rate,
            tlc_expiry_delta: hop_hint.tlc_expiry_delta,
        }
    }
}

impl vstd::std_specs::convert::FromSpecImpl<HopHint> for NetworkHopHint {
    open spec fn obeys_from_spec() -> bool {
        true
    }

    open spec fn from_spec(h: HopHint) -> Self {
        network_hint_of(h)
    }
}

/// Observable status of a payment session. `Created` and `Inflight` are
/// non-terminal; `Success` and `Failed` are terminal and immutable once
/// reached.
#[derive(Clone, Copy, Debug, PartialEq, Eq)]
pub enum PaymentSessionStatus {
    /// The session exists but no attempt is on the network yet.
    Created,
    /// An attempt is on the network and awaiting resolution.
    Inflight,
    /// The payment settled; terminal.
    Success,
    /// The payment failed; terminal.
    Failed,
}

impl PaymentSessionStatus {
    /// The status admits no further transition.
    pub open spec fn is_terminal(self) -> bool {
        self is Success || self is Failed
    }

    /// The session state machine: `Created` steps to `Inflight`, `Inflight`
    /// settles to `Success` or `Failed`, and nothing else moves.
    pub open spec fn spec_can_step(self, next: Self) -> bool {
        ||| (self is Created && next is Inflight)
        ||| (self is Inflight && (next is Success || next is Failed))
    }

    /// The wire name of the status.
    pub fn name(&self) -> (r: &'static str)
        ensures
            *self is Created ==> r@ == "Created"@,
            *self is Inflight ==> r@ == "Inflight"@,
            *self is Success ==> r@ == "Success"@,
            *self is Failed ==> r@ == "Failed"@,
    {
        match self {
            PaymentSessionStatus::Created => "Created",
            PaymentSessionStatus::Inflight => "Inflight",
            PaymentSessionStatus::Success => "Success",
            PaymentSessionStatus::Failed => "Failed",
        }
    }

    /// Whether the state machine admits a transition from `self` to `next`.
    pub fn can_step(self, next: Self) -> (r: bool)
        ensures
            r == self.spec_can_step(next),
    {
        match (self, next) {
            (PaymentSessionStatus::Created, PaymentSessionStatus::Inflight) => true,
            (PaymentSessionStatus::Inflight, PaymentSessionStatus::Success) => true,
            (PaymentSessionStatus::Inflight, PaymentSessionStatus::Failed) => true,
            _ => false,
        }
    }
}

/// Terminal statuses are immutable: no transition leaves them.
pub proof fn lemma_terminal_status_immutable(s: PaymentSessionStatus, next: PaymentSessionStatus)
    requires
        s.is_terminal(),
    ensures
        !s.spec_can_step(next),
{
}

/// Parameters of a `get_payment` call.
#[derive(Clone, Copy, Debug, PartialEq, Eq)]
pub struct GetPaymentCommandParams {
    /// The payment hash of the payment to retrieve.
    pub payment_hash: Hash256,
}

/// The hop-by-hop path a payment took, included in responses only when the
/// diagnostic flag asks for it.
#[derive(Clone, Debug, PartialEq, Eq)]
pub struct SessionRoute {
    pub nodes: Vec<RouteNode>,
}

/// One hop of a session route.
#[derive(Clone, Debug, PartialEq, Eq)]
pub struct RouteNode {
    pub pubkey: Pubkey,
    pub amount: u128,
    pub channel_outpoint: OutPoint,
}

/// The wire response of `send_payment` and `get_payment`.
#[derive(Clone, Debug, PartialEq, Eq)]
pub struct GetPaymentCommandResult {
    /// The payment hash of the payment.
    pub payment_hash: Hash256,
    /// The status of the payment.
    pub status: PaymentSessionStatus,
    /// The time the payment was created at, in milliseconds from UNIX epoch.
    pub created_at: u64,
    /// The time the payment was last updated at, in milliseconds from UNIX
    /// epoch.
    pub last_updated_at: u64,
    /// The error message if the payment failed.
    pub failed_error: Option<String>,
    /// Fee paid for the payment (estimated, for a dry run).
    pub fee: u128,
    /// The custom records included in the payment.
    pub custom_records: Option<PaymentCustomRecords>,
    /// The route information for the payment, under the diagnostic flag only.
    pub router: Option<SessionRoute>,
}

impl GetPaymentCommandResult {
    /// Response invariant: a session is never updated before it is created,
    /// and a diagnostic message is present exactly on failure.
    pub open spec fn wf(&self) -> bool {
        &&& self.created_at <= self.last_updated_at
        &&& (self.status is Failed <==> self.failed_error is Some)
    }
}

/// Parameters of a `send_payment` call. Every field except target
/// identification is optional; absent booleans default to `false`.
#[derive(Clone, Debug, PartialEq, Eq)]
pub struct SendPaymentCommandParams {
    /// The identifier of the payment target.
    pub target_pubkey: Option<Pubkey>,
    /// The amount of the payment.
    pub amount: Option<u128>,
    /// The hash to use within the payment's HTLC.
    pub payment_hash: Option<Hash256>,
    /// The TLC expiry delta for the final hop, in milliseconds.
    pub final_tlc_expiry_delta: Option<u64>,
    /// The TLC expiry limit for the whole payment, in milliseconds.
    pub tlc_expiry_limit: Option<u64>,
    /// The encoded invoice to send to the recipient.
    pub invoice: Option<String>,
    /// The payment timeout in seconds.
    pub timeout: Option<u64>,
    /// The maximum fee the sender is willing to pay.
    pub max_fee_amount: Option<u128>,
    /// Max parts for the payment, only used for multi-part payments.
    pub max_parts: Option<u64>,
    /// Keysend payment.
    pub keysend: Option<bool>,
    /// UDT type script for the payment.
    pub udt_type_script: Option<Script>,
    /// Allow self payment, default is false.
    pub allow_self_payment: Option<bool>,
    /// Custom records for the payment.
    pub custom_records: Option<PaymentCustomRecords>,
    /// Optional route hints to reach the destination through private
    /// channels.
    pub hop_hints: Option<Vec<HopHint>>,
    /// Validate and cost the payment without side effects, default is false.
    pub dry_run: Option<bool>,
}

/// The canonical internal command a valid request normalizes into.
#[derive(Clone, Debug, PartialEq, Eq)]
pub struct SendPaymentCommand {
    pub target_pubkey: Option<Pubkey>,
    pub amount: Option<u128>,
    pub payment_hash: Option<Hash256>,
    pub final_tlc_expiry_delta: Option<u64>,
    pub tlc_expiry_limit: Option<u64>,
    pub invoice: Option<String>,
    pub timeout: Option<u64>,
    pub max_fee_amount: Option<u128>,
    pub max_parts: Option<u64>,
    pub keysend: Option<bool>,
    pub udt_type_script: Option<Script>,
    pub allow_self_payment: bool,
    pub custom_records: Option<PaymentCustomRecords>,
    pub hop_hints: Option<Vec<NetworkHopHint>>,
    pub dry_run: bool,
}

/// A command handed to the asynchronous command processor. The processor
/// answers each command over a single-use reply slot owned by the caller.
#[derive(Clone, Debug, PartialEq, Eq)]
pub enum ProcessorCommand {
    /// Execute a payment: reserves funds, emits network messages, persists a
    /// session. The only mutating variant.
    SendPayment(SendPaymentCommand),
    /// Validate and cost a payment without side effects: the sanctioned
    /// read-only entry a dry run dispatches to.
    QuotePayment(SendPaymentCommand),
    /// Read the latest snapshot of a payment session.
    GetPayment(Hash256),
}

impl ProcessorCommand {
    /// Whether executing the command may change the processor's persisted
    /// state.
    pub open spec fn is_mutating(self) -> bool {
        self is SendPayment
    }
}

/// A payment snapshot as the processor reports it.
#[derive(Clone, Debug, PartialEq, Eq)]
pub struct ProcessorPaymentReply {
    pub payment_hash: Hash256,
    pub status: PaymentSessionStatus,
    pub created_at: u64,
    pub last_updated_at: u64,
    pub failed_error: Option<String>,
    pub fee: u128,
    pub custom_records: Option<PaymentCustomRecords>,
    pub router: Option<SessionRoute>,
}

impl ProcessorPaymentReply {
    /// Snapshot invariant, mirrored by the response it projects into.
    pub open spec fn wf(&self) -> bool {
        &&& self.created_at <= self.last_updated_at
        &&& (self.status is Failed <==> self.failed_error is Some)
    }
}

/// Everything one outstanding processor call can resolve to: exactly one of
/// these, never none and never two.
#[derive(Clone, Debug, PartialEq, Eq)]
pub enum CallOutcome {
    /// The processor executed the command and reported a snapshot.
    Reply(ProcessorPaymentReply),
    /// The processor executed the command and the payment itself failed
    /// before a session was created.
    DomainError(String),
    /// The processor is not running or its mailbox is gone.
    Unreachable,
    /// No reply arrived within the configured call deadline.
    TimedOut,
}

/// Semantically invalid request, rejected before any dispatch.
#[derive(Clone, Copy, Debug, PartialEq, Eq)]
pub enum ValidationError {
    /// Neither `payment_hash` nor `invoice` can yield a payment identifier.
    MissingPaymentIdentifier,
}

/// Stable classification of a wire-level failure.
#[derive(Clone, Copy, Debug, PartialEq, Eq)]
pub enum WireErrorKind {
    /// A numeric or binary field could not be decoded; client error, never
    /// retried.
    MalformedEncoding,
    /// The request is structurally valid but semantically invalid; client
    /// error, never dispatched.
    Validation,
    /// The command processor is not available; the caller may retry.
    Unreachable,
    /// No reply within the call deadline; the caller may retry with backoff.
    Timeout,
    /// The processor executed the command but the payment itself failed.
    Domain,
}

/// JSON-RPC error code for a call that reached the node but failed to
/// execute: bridge-level and domain failures alike.
pub const CALL_EXECUTION_FAILED_CODE: i32 = -32000;

/// JSON-RPC error code for a request rejected before any dispatch.
pub const INVALID_PARAMS_CODE: i32 = -32602;

/// The wire error object: a stable numeric code, a structured kind telling
/// "the node is unresponsive" apart from "the payment itself failed", and a
/// human-readable message.
#[derive(Clone, Debug, PartialEq, Eq)]
pub struct WireError {
    pub code: i32,
    pub kind: WireErrorKind,
    pub message: String,
}

} // verus!
