//! The gateway pipeline: normalize a request into the canonical internal
//! command, choose the processor command to dispatch, and project the
//! processor's reply — or a bridge-level failure — into the wire response.
//!
//! The gateway is stateless per call: normalization and projection are pure,
//! synchronous transformations, and the only suspension point — awaiting the
//! processor's reply — lives outside this crate. The dispatch loop hands the
//! awaited [`CallOutcome`] back in, and every invocation resolves to exactly
//! one outcome.

use vstd::prelude::*;

use crate::codec::CodecError;
use crate::codec::encode_bytes;
use crate::codec::encode_u128;
use crate::codec::encode_u64;
use crate::codec::spec_encode_bytes;
use crate::codec::spec_encode_uint;
use crate::records::encode_records;
use crate::records::spec_encode_records;
use crate::records::wire_view;
use crate::types::CALL_EXECUTION_FAILED_CODE;
use crate::types::CallOutcome;
use crate::types::GetPaymentCommandParams;
use crate::types::GetPaymentCommandResult;
use crate::types::Hash256;
use crate::types::HopHint;
use crate::types::INVALID_PARAMS_CODE;
use crate::types::NetworkHopHint;
use crate::types::PaymentSessionStatus;
use crate::types::ProcessorCommand;
use crate::types::ProcessorPaymentReply;
use crate::types::SendPaymentCommand;
use crate::types::SendPaymentCommandParams;
use crate::types::ValidationError;
use crate::types::WireError;
use crate::types::WireErrorKind;
use crate::types::network_hint_of;

verus! {

/// An absent optional boolean defaults to `false`.
pub open spec fn spec_default_false(b: Option<bool>) -> bool {
    match b {
        Some(x) => x,
        None => false,
    }
}

/// A request can yield a payment identifier: a hash is given outright, or an
/// invoice is given for the routing subsystem to resolve one from.
pub open spec fn spec_has_identifier(params: SendPaymentCommandParams) -> bool {
    params.payment_hash is Some || params.invoice is Some
}

/// The command `c` is exactly the normalized form of `params`: every field
/// carried over, absent booleans defaulted to `false`, hop hints converted
/// elementwise.
pub open spec fn is_normalized_command(
    c: SendPaymentCommand,
    params: SendPaymentCommandParams,
) -> bool {
    &&& c.target_pubkey == params.target_pubkey
    &&& c.amount == params.amount
    &&& c.payment_hash == params.payment_hash
    &&& c.final_tlc_expiry_delta == params.final_tlc_expiry_delta
    &&& c.tlc_expiry_limit == params.tlc_expiry_limit
    &&& c.invoice == params.invoice
    &&& c.timeout == params.timeout
    &&& c.max_fee_amount == params.max_fee_amount
    &&& c.max_parts == params.max_parts
    &&& c.keysend == params.keysend
    &&& c.udt_type_script == params.udt_type_script
    &&& c.allow_self_payment == spec_default_false(params.allow_self_payment)
    &&& c.custom_records == params.custom_records
    &&& c.dry_run == spec_default_false(params.dry_run)
    &&& (params.hop_hints is None ==> c.hop_hints is None)
    &&& (params.hop_hints matches Some(h) ==> c.hop_hints matches Some(nh) && nh@.len()
        == h@.len() && (forall|i: int| 0 <= i < h@.len() ==> nh@[i] == network_hint_of(h@[i])))
}

fn convert_hop_hints(hints: &Vec<HopHint>) -> (r: Vec<NetworkHopHint>)
    ensures
        r@.len() == hints@.len(),
        forall|i: int| 0 <= i < hints@.len() ==> r@[i] == network_hint_of(hints@[i]),
{
    let mut out: Vec<NetworkHopHint> = Vec::new();
    let mut i: usize = 0;
    while i < hints.len()
        invariant
            i <= hints@.len(),
            out@.len() == i,
            forall|j: int| 0 <= j < i ==> out@[j] == network_hint_of(hints@[j]),
        decreases hints@.len() - i,
    {
        out.push(NetworkHopHint::from(hints[i]));
        i += 1;
    }
    out
}

/// Normalize a payment request into the canonical internal command, or
/// reject it.
///
/// A request that can yield no payment identifier — neither `payment_hash`
/// nor `invoice` present — fails with `MissingPaymentIdentifier`, and only
/// such a request does. Everything else is shaped, never resolved: defaults
/// applied, hop hints converted elementwise, records and scripts carried
/// through untouched. No invoice resolution, no route computation, no I/O.
pub fn normalize_request(params: SendPaymentCommandParams) -> (r: Result<
    SendPaymentCommand,
    ValidationError,
>)
    ensures
        r is Ok <==> spec_has_identifier(params),
        r matches Err(e) ==> e == ValidationError::MissingPaymentIdentifier,
        r matches Ok(c) ==> is_normalized_command(c, params),
{
    if params.payment_hash.is_none() && params.invoice.is_none() {
        return Err(ValidationError::MissingPaymentIdentifier);
    }
    let hop_hints = match params.hop_hints {
        None => None,
        Some(hints) => Some(convert_hop_hints(&hints)),
    };
    Ok(
        SendPaymentCommand {
            target_pubkey: params.target_pubkey,
            amount: params.amount,
            payment_hash: params.payment_hash,
            final_tlc_expiry_delta: params.final_tlc_expiry_delta,
            tlc_expiry_limit: params.tlc_expiry_limit,
            invoice: params.invoice,
            timeout: params.timeout,
            max_fee_amount: params.max_fee_amount,
            max_parts: params.max_parts,
            keysend: params.keysend,
            udt_type_script: params.udt_type_script,
            allow_self_payment: match params.allow_self_payment {
                Some(b) => b,
                None => false,
            },
            custom_records: params.custom_records,
            hop_hints,
            dry_run: match params.dry_run {
                Some(b) => b,
                None => false,
            },
        },
    )
}

/// Normalize a `send_payment` request and choose the processor command for
/// it: the mutating `SendPayment` for a live request, the read-only
/// `QuotePayment` for a dry run. A request without a payment identifier is
/// rejected here and never reaches the processor.
pub fn prepare_send_payment(params: SendPaymentCommandParams) -> (r: Result<
    ProcessorCommand,
    WireError,
>)
    ensures
        r is Ok <==> spec_has_identifier(params),
        r matches Err(e) ==> e.kind == WireErrorKind::Validation && e.code == INVALID_PARAMS_CODE,
        r matches Ok(cmd) ==> (match cmd {
            ProcessorCommand::SendPayment(c) => !spec_default_false(params.dry_run)
                && is_normalized_command(c, params),
            ProcessorCommand::QuotePayment(c) => spec_default_false(params.dry_run)
                && is_normalized_command(c, params),
            ProcessorCommand::GetPayment(_) => false,
        }),
        r matches Ok(cmd) ==> (cmd.is_mutating() <==> !spec_default_false(params.dry_run)),
{
    let command = match normalize_request(params) {
        Ok(c) => c,
        Err(_) => {
            return Err(
                WireError {
                    code: INVALID_PARAMS_CODE,
                    kind: WireErrorKind::Validation,
                    message: "missing payment identifier: payment_hash or invoice is required".to_owned(),
                },
            );
        },
    };
    if command.dry_run {
        Ok(ProcessorCommand::QuotePayment(command))
    } else {
        Ok(ProcessorCommand::SendPayment(command))
    }
}

/// The client-error response a codec failure on any numeric or binary field
/// surfaces as: rejected before any dispatch occurs, never retried.
pub fn codec_failure_error(e: CodecError) -> (r: WireError)
    ensures
        r.kind == WireErrorKind::MalformedEncoding,
        r.code == INVALID_PARAMS_CODE,
        r.message@ == "malformed field encoding: expected a 0x-prefixed hexadecimal text in range"@,
{
    match e {
        CodecError::MalformedEncoding => WireError {
            code: INVALID_PARAMS_CODE,
            kind: WireErrorKind::MalformedEncoding,
            message: "malformed field encoding: expected a 0x-prefixed hexadecimal text in range".to_owned(),
        },
    }
}

/// The processor command of a `get_payment` request: a read of the latest
/// session snapshot, never mutating.
pub fn prepare_get_payment(params: &GetPaymentCommandParams) -> (r: ProcessorCommand)
    ensures
        r == ProcessorCommand::GetPayment(params.payment_hash),
        !r.is_mutating(),
{
    ProcessorCommand::GetPayment(params.payment_hash)
}

/// The wire response a processor snapshot projects into: every field carried
/// over, the diagnostic route included only when the configuration flag asks
/// for it.
pub open spec fn spec_project(reply: ProcessorPaymentReply, include_router: bool) -> GetPaymentCommandResult {
    GetPaymentCommandResult {
        payment_hash: reply.payment_hash,
        status: reply.status,
        created_at: reply.created_at,
        last_updated_at: reply.last_updated_at,
        failed_error: reply.failed_error,
        fee: reply.fee,
        custom_records: reply.custom_records,
        router: if include_router {
            reply.router
        } else {
            None
        },
    }
}

/// Project a processor snapshot into the wire response shape. The response
/// invariant (`last_updated_at >= created_at`, diagnostic present exactly on
/// failure) is inherited from the snapshot's own.
pub fn project_reply(reply: ProcessorPaymentReply, include_router: bool) -> (r: GetPaymentCommandResult)
    requires
        reply.wf(),
    ensures
        r == spec_project(reply, include_router),
        r.wf(),
{
    let router = if include_router {
        reply.router
    } else {
        None
    };
    GetPaymentCommandResult {
        payment_hash: reply.payment_hash,
        status: reply.status,
        created_at: reply.created_at,
        last_updated_at: reply.last_updated_at,
        failed_error: reply.failed_error,
        fee: reply.fee,
        custom_records: reply.custom_records,
        router,
    }
}

/// Whether a processor snapshot satisfies the invariant the gateway demands
/// of it before projection; the dispatch loop tests this at the boundary.
pub fn reply_is_wf(reply: &ProcessorPaymentReply) -> (r: bool)
    ensures
        r == reply.wf(),
{
    let diagnostic_matches = match (&reply.status, &reply.failed_error) {
        (PaymentSessionStatus::Failed, Some(_)) => true,
        (PaymentSessionStatus::Failed, None) => false,
        (_, Some(_)) => false,
        (_, None) => true,
    };
    reply.created_at <= reply.last_updated_at && diagnostic_matches
}

/// Resolve one awaited processor call to its wire result: a projected
/// response exactly when the processor replied with a snapshot, and a wire
/// error of the matching kind — domain failure, processor unreachable, or
/// deadline elapsed — otherwise. Every outcome resolves; none is dropped.
pub fn resolve_call(outcome: CallOutcome, include_router: bool) -> (r: Result<
    GetPaymentCommandResult,
    WireError,
>)
    requires
        outcome matches CallOutcome::Reply(rep) ==> rep.wf(),
    ensures
        r is Ok <==> outcome is Reply,
        outcome matches CallOutcome::Reply(rep) ==> r == Ok::<GetPaymentCommandResult, WireError>(
            spec_project(rep, include_router),
        ) && r->Ok_0.wf(),
        outcome matches CallOutcome::DomainError(msg) ==> (r matches Err(e) && e.kind
            == WireErrorKind::Domain && e.code == CALL_EXECUTION_FAILED_CODE && e.message == msg),
        outcome is Unreachable ==> (r matches Err(e) && e.kind == WireErrorKind::Unreachable
            && e.code == CALL_EXECUTION_FAILED_CODE && e.message@
            == "payment call failed: the command processor is unreachable"@),
        outcome is TimedOut ==> (r matches Err(e) && e.kind == WireErrorKind::Timeout && e.code
            == CALL_EXECUTION_FAILED_CODE && e.message@
            == "payment call failed: no reply within the configured deadline"@),
{
    match outcome {
        CallOutcome::Reply(reply) => Ok(project_reply(reply, include_router)),
        CallOutcome::DomainError(msg) => Err(
            WireError { code: CALL_EXECUTION_FAILED_CODE, kind: WireErrorKind::Domain, message: msg },
        ),
        CallOutcome::Unreachable => Err(
            WireError {
                code: CALL_EXECUTION_FAILED_CODE,
                kind: WireErrorKind::Unreachable,
                message: "payment call failed: the command processor is unreachable".to_owned(),
            },
        ),
        CallOutcome::TimedOut => Err(
            WireError {
                code: CALL_EXECUTION_FAILED_CODE,
                kind: WireErrorKind::Timeout,
                message: "payment call failed: no reply within the configured deadline".to_owned(),
            },
        ),
    }
}

/// The response as it crosses the wire: every integer field carried as a
/// `0x` hexadecimal text, the payment hash as a byte-string text, the custom
/// records as encoded key/value text pairs. Text fields that need no codec
/// stay as they are.
#[derive(Clone, Debug, PartialEq, Eq)]
pub struct WirePaymentResult {
    /// The payment hash, as a byte-string text.
    pub payment_hash: Vec<u8>,
    /// The status; its wire name is `status.name()`.
    pub status: PaymentSessionStatus,
    /// Creation time, as a 64-bit value text.
    pub created_at: Vec<u8>,
    /// Last update time, as a 64-bit value text.
    pub last_updated_at: Vec<u8>,
    /// The error message if the payment failed.
    pub failed_error: Option<String>,
    /// The fee, as a 128-bit value text.
    pub fee: Vec<u8>,
    /// The custom records, each key and value as its text.
    pub custom_records: Option<Vec<(Vec<u8>, Vec<u8>)>>,
}

/// Apply the wire codec to a response: hash and integers become their
/// canonical `0x` texts, custom records their canonical pair list, and
/// everything else is carried over unchanged.
pub fn project_to_wire(r: GetPaymentCommandResult) -> (w: WirePaymentResult)
    ensures
        w.payment_hash@ == spec_encode_bytes(r.payment_hash.bytes@),
        w.status == r.status,
        w.created_at@ == spec_encode_uint(r.created_at as nat),
        w.last_updated_at@ == spec_encode_uint(r.last_updated_at as nat),
        w.failed_error == r.failed_error,
        w.fee@ == spec_encode_uint(r.fee as nat),
        r.custom_records is None <==> w.custom_records is None,
        r.custom_records matches Some(m) ==> w.custom_records matches Some(pairs) && wire_view(
            pairs@,
        ) == spec_encode_records(m.entries()),
{
    let custom_records = match &r.custom_records {
        None => None,
        Some(m) => Some(encode_records(m)),
    };
    WirePaymentResult {
        payment_hash: encode_bytes(r.payment_hash.bytes.as_slice()),
        status: r.status,
        created_at: encode_u64(r.created_at),
        last_updated_at: encode_u64(r.last_updated_at),
        failed_error: r.failed_error,
        fee: encode_u128(r.fee),
        custom_records,
    }
}

/// `get_payment` is an idempotent read. The gateway holds no state of its
/// own: the command it issues is a function of the identifier alone, and the
/// response is a function of the snapshot the processor answers with. Two
/// calls with the same identifier, between which nothing changed — so the
/// processor reports the same snapshot — yield identical results.
pub proof fn lemma_get_payment_idempotent(
    h1: Hash256,
    h2: Hash256,
    rep1: ProcessorPaymentReply,
    rep2: ProcessorPaymentReply,
    include_router: bool,
)
    requires
        h1 == h2,
        rep1 == rep2,
    ensures
        ProcessorCommand::GetPayment(h1) == ProcessorCommand::GetPayment(h2),
        spec_project(rep1, include_router) == spec_project(rep2, include_router),
{
}

} // verus!
