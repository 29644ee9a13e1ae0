//! TCAP transactions as plain values, and their wire form.
use crate::transport::msu::copy_octets;
use ::tcap::Component as WireComponent;
use ::tcap::TcapMessage as WireTransaction;
use vstd::prelude::*;

verus! {

/// The kind of a transaction message.
#[derive(Clone, Copy, PartialEq, Eq, Structural, Debug)]
pub enum TcKind {
    Unidirectional,
    Begin,
    Continue,
    End,
    Abort,
}

/// The application context of a dialogue portion, as object-identifier arcs.
#[derive(Clone, Debug, PartialEq, Eq)]
pub enum TcContext {
    /// None.
    Absent,
    /// From a dialogue request (AARQ).
    Request(Vec<u32>),
    /// From a dialogue response (AARE).
    Response(Vec<u32>),
}

/// What a [`TcContext`] holds.
pub enum ContextModel {
    Absent,
    Request(Seq<u32>),
    Response(Seq<u32>),
}

impl View for TcContext {
    type V = ContextModel;

    open spec fn view(&self) -> ContextModel {
        match *self {
            TcContext::Absent => ContextModel::Absent,
            TcContext::Request(a) => ContextModel::Request(a@),
            TcContext::Response(a) => ContextModel::Response(a@),
        }
    }
}

/// The octets of an optional vector.
pub open spec fn octets(o: Option<Vec<u8>>) -> Option<Seq<u8>> {
    match o {
        Some(v) => Some(v@),
        None => None,
    }
}

/// A copy of optional octets.
pub fn copy_some(o: &Option<Vec<u8>>) -> (r: Option<Vec<u8>>)
    ensures
        octets(r) == octets(*o),
{
    match o {
        Some(v) => Some(copy_octets(v)),
        None => None,
    }
}

/// A received component. An operation or error code is `None` when it is a global
/// one rather than a local number.
#[derive(Clone, Debug, PartialEq, Eq)]
pub enum TcComponent {
    /// An Invoke.
    Invoke { invoke_id: i64, operation: Option<i64>, parameter: Option<Vec<u8>> },
    /// A ReturnResult, last or not, that carries a result.
    ResultWith { invoke_id: i64, operation: Option<i64>, parameter: Option<Vec<u8>> },
    /// A ReturnResult, last or not, that carries none.
    ResultEmpty { invoke_id: i64 },
    /// A ReturnError.
    Error { invoke_id: i64, error: Option<i64> },
    /// A Reject.
    Reject { invoke_id: i64 },
}

/// What a [`TcComponent`] holds.
pub enum ComponentModel {
    Invoke { invoke_id: i64, operation: Option<i64>, parameter: Option<Seq<u8>> },
    ResultWith { invoke_id: i64, operation: Option<i64>, parameter: Option<Seq<u8>> },
    ResultEmpty { invoke_id: i64 },
    Error { invoke_id: i64, error: Option<i64> },
    Reject { invoke_id: i64 },
}

impl View for TcComponent {
    type V = ComponentModel;

    open spec fn view(&self) -> ComponentModel {
        match *self {
            TcComponent::Invoke { invoke_id, operation, parameter } => ComponentModel::Invoke {
                invoke_id,
                operation,
                parameter: octets(parameter),
            },
            TcComponent::ResultWith {
                invoke_id,
                operation,
                parameter,
            } => ComponentModel::ResultWith { invoke_id, operation, parameter: octets(parameter) },
            TcComponent::ResultEmpty { invoke_id } => ComponentModel::ResultEmpty { invoke_id },
            TcComponent::Error { invoke_id, error } => ComponentModel::Error { invoke_id, error },
            TcComponent::Reject { invoke_id } => ComponentModel::Reject { invoke_id },
        }
    }
}

/// What a list of components holds.
pub open spec fn component_models(s: Seq<TcComponent>) -> Seq<ComponentModel> {
    s.map_values(|c: TcComponent| c@)
}

/// A received transaction message. A transaction id that its kind does not carry
/// is empty.
#[derive(Clone, Debug, PartialEq, Eq)]
pub struct TcMessage {
    pub kind: TcKind,
    pub otid: Vec<u8>,
    pub dtid: Vec<u8>,
    pub context: TcContext,
    pub components: Vec<TcComponent>,
}

/// What a [`TcMessage`] holds.
pub struct TcModel {
    pub kind: TcKind,
    pub otid: Seq<u8>,
    pub dtid: Seq<u8>,
    pub context: ContextModel,
    pub components: Seq<ComponentModel>,
}

impl View for TcMessage {
    type V = TcModel;

    open spec fn view(&self) -> TcModel {
        TcModel {
            kind: self.kind,
            otid: self.otid@,
            dtid: self.dtid@,
            context: self.context@,
            components: component_models(self.components@),
        }
    }
}

/// A message of this kind carries an originating transaction id.
pub open spec fn has_otid(k: TcKind) -> bool {
    k == TcKind::Begin || k == TcKind::Continue
}

/// A message of this kind carries a destination transaction id.
pub open spec fn has_dtid(k: TcKind) -> bool {
    k == TcKind::Continue || k == TcKind::End || k == TcKind::Abort
}

/// The outcome of decoding a message.
pub open spec fn transaction_outcome(r: Result<TcMessage, String>) -> Result<TcModel, Seq<char>> {
    match r {
        Ok(m) => Ok(m@),
        Err(e) => Err(e@),
    }
}

/// What an optional message holds.
pub open spec fn transaction_of(o: Option<TcMessage>) -> Option<TcModel> {
    match o {
        Some(m) => Some(m@),
        None => None,
    }
}

/// `tcap::TcapMessage`.
#[verifier::external_type_specification]
#[verifier::external_body]
pub struct ExWireTransaction(::tcap::TcapMessage);

/// `tcap::Component`.
#[verifier::external_type_specification]
#[verifier::external_body]
pub struct ExWireComponent(::tcap::Component);

/// `tcap::ReturnResult`.
#[verifier::external_type_specification]
#[verifier::external_body]
pub struct ExReturnResult(::tcap::ReturnResult);

/// `tcap::OperationCode`.
#[verifier::external_type_specification]
#[verifier::external_body]
pub struct ExOperationCode(::tcap::OperationCode);

/// `tcap::DialoguePortion`.
#[verifier::external_type_specification]
#[verifier::external_body]
pub struct ExDialoguePortion(::tcap::DialoguePortion);

/// The local number of a `tcap::OperationCode`.
#[verifier::external_body]
fn local_in(op: ::tcap::OperationCode) -> Option<i64> {
    match op {
        ::tcap::OperationCode::Local(v) => Some(v),
        ::tcap::OperationCode::Global(_) => None,
    }
}

/// Moves the fields of a `tcap::ReturnResult`.
#[verifier::external_body]
fn result_in(r: ::tcap::ReturnResult) -> TcComponent {
    let invoke_id = r.invoke_id;
    match r.result {
        Some(v) => TcComponent::ResultWith { invoke_id, operation: local_in(v.operation_code), parameter: v.parameter.map(|p| p.as_bytes().to_vec()) },
        None => TcComponent::ResultEmpty { invoke_id },
    }
}

/// Moves the fields of a `tcap::Component`. A linked id, an error parameter and a
/// reject's problem are left behind.
#[verifier::external_body]
fn component_in(c: WireComponent) -> TcComponent {
    match c {
        WireComponent::Invoke(i) => TcComponent::Invoke { invoke_id: i.invoke_id, operation: local_in(i.operation_code), parameter: i.parameter.map(|p| p.as_bytes().to_vec()) },
        WireComponent::ReturnResultLast(r) => result_in(r),
        WireComponent::ReturnResultNotLast(r) => result_in(r),
        WireComponent::ReturnError(e) => TcComponent::Error { invoke_id: e.invoke_id, error: match e.error_code { ::tcap::ErrorCode::Local(v) => Some(v), ::tcap::ErrorCode::Global(_) => None } },
        WireComponent::Reject(r) => TcComponent::Reject { invoke_id: r.invoke_id },
    }
}

/// The application context of a `tcap::DialoguePortion`, through its
/// `dialogue_pdu`.
#[verifier::external_body]
fn context_in(portion: Option<::tcap::DialoguePortion>) -> TcContext {
    match portion.and_then(|p| p.dialogue_pdu()) {
        Some(::tcap::DialoguePdu::Aarq { application_context_name, .. }) => TcContext::Request(application_context_name.as_ref().to_vec()),
        Some(::tcap::DialoguePdu::Aare { application_context_name, .. }) => TcContext::Response(application_context_name.as_ref().to_vec()),
        Some(::tcap::DialoguePdu::Abrt { .. }) => TcContext::Absent,
        None => TcContext::Absent,
    }
}

/// Puts the fields of a decoded transaction together.
#[verifier::external_body]
fn message_in(kind: TcKind, otid: Vec<u8>, dtid: Vec<u8>, portion: Option<::tcap::DialoguePortion>, components: Option<Vec<WireComponent>>) -> TcMessage {
    let components = components.unwrap_or_default().into_iter().map(component_in).collect();
    TcMessage { kind, otid, dtid, context: context_in(portion), components }
}

/// Moves the fields of a `tcap::TcapMessage`.
#[verifier::external_body]
fn transaction_in(m: ::tcap::TcapMessage) -> TcMessage {
    match m {
        WireTransaction::Unidirectional(u) => message_in(TcKind::Unidirectional, vec![], vec![], u.dialogue_portion, Some(u.components)),
        WireTransaction::Begin(b) => message_in(TcKind::Begin, b.otid.to_vec(), vec![], b.dialogue_portion, b.components),
        WireTransaction::Continue(c) => message_in(TcKind::Continue, c.otid.to_vec(), c.dtid.to_vec(), c.dialogue_portion, c.components),
        WireTransaction::End(e) => message_in(TcKind::End, vec![], e.dtid.to_vec(), e.dialogue_portion, e.components),
        WireTransaction::Abort(a) => message_in(TcKind::Abort, vec![], a.dtid.to_vec(), None, None),
    }
}

/// What `tcap::decode` makes of some octets: the message, or the text of its
/// error.
pub uninterp spec fn tcap_decoded(bytes: Seq<u8>) -> Result<TcModel, Seq<char>>;

/// Calls `tcap::decode` and moves the fields of what it returns. The outcome is
/// the named one; an id that the kind does not carry is empty.
///
/// The decoder calls itself once for each level at which an octet string nests, so a
/// string nested tens of thousands of levels deep uses up the stack.
#[verifier::external_body]
pub(crate) fn tcap_decode(bytes: &[u8]) -> (r: Result<TcMessage, String>)
    ensures
        transaction_outcome(r) == tcap_decoded(bytes@),
        r matches Ok(m) ==> (!has_otid(m.kind) ==> m.otid@.len() == 0) && (!has_dtid(m.kind)
            ==> m.dtid@.len() == 0),
{
    ::tcap::decode(bytes).map(transaction_in).map_err(|e| e.to_string())
}

/// The transaction message in some octets, if they decode to one.
pub open spec fn transaction_in_octets(bytes: Seq<u8>) -> Option<TcModel> {
    match tcap_decoded(bytes) {
        Ok(t) => Some(t),
        Err(_) => None,
    }
}

// ── Outbound ────────────────────────────────────────────────────────────────

/// A component staged for sending. Its codes are local ones.
#[derive(Clone, Debug, PartialEq, Eq)]
pub enum Staged {
    /// An Invoke.
    Invoke { invoke_id: i64, operation: i64, parameter: Option<Vec<u8>> },
    /// A ReturnResultLast.
    ResultLast { invoke_id: i64, operation: i64, parameter: Option<Vec<u8>> },
    /// A ReturnError.
    Error { invoke_id: i64, error: i64 },
}

/// What a [`Staged`] component holds.
pub enum StagedModel {
    Invoke { invoke_id: i64, operation: i64, parameter: Option<Seq<u8>> },
    ResultLast { invoke_id: i64, operation: i64, parameter: Option<Seq<u8>> },
    Error { invoke_id: i64, error: i64 },
}

impl View for Staged {
    type V = StagedModel;

    open spec fn view(&self) -> StagedModel {
        match *self {
            Staged::Invoke { invoke_id, operation, parameter } => StagedModel::Invoke {
                invoke_id,
                operation,
                parameter: octets(parameter),
            },
            Staged::ResultLast { invoke_id, operation, parameter } => StagedModel::ResultLast {
                invoke_id,
                operation,
                parameter: octets(parameter),
            },
            Staged::Error { invoke_id, error } => StagedModel::Error { invoke_id, error },
        }
    }
}

/// What a list of staged components holds.
pub open spec fn staged_models(s: Seq<Staged>) -> Seq<StagedModel> {
    s.map_values(|c: Staged| c@)
}

/// Who aborts a dialogue.
#[derive(Clone, Copy, PartialEq, Eq, Structural, Debug)]
pub enum AbortBy {
    /// The dialogue user.
    User,
    /// The dialogue provider.
    Provider,
}

/// A transaction message to send. A context, where there is one, rides along as a
/// dialogue request in a Begin and as an accepting dialogue response in a
/// Continue or End.
#[derive(Clone, Debug, PartialEq, Eq)]
pub enum Outgoing {
    Begin { otid: Vec<u8>, context: Option<Vec<u32>>, components: Vec<Staged> },
    Continue { otid: Vec<u8>, dtid: Vec<u8>, context: Option<Vec<u32>>, components: Vec<Staged> },
    End { dtid: Vec<u8>, context: Option<Vec<u32>>, components: Vec<Staged> },
    Abort { dtid: Vec<u8>, by: AbortBy },
}

/// The arcs of an optional context.
pub open spec fn arcs(o: Option<Vec<u32>>) -> Option<Seq<u32>> {
    match o {
        Some(v) => Some(v@),
        None => None,
    }
}

/// What an [`Outgoing`] message holds.
pub enum OutgoingModel {
    Begin { otid: Seq<u8>, context: Option<Seq<u32>>, components: Seq<StagedModel> },
    Continue {
        otid: Seq<u8>,
        dtid: Seq<u8>,
        context: Option<Seq<u32>>,
        components: Seq<StagedModel>,
    },
    End { dtid: Seq<u8>, context: Option<Seq<u32>>, components: Seq<StagedModel> },
    Abort { dtid: Seq<u8>, by: AbortBy },
}

impl View for Outgoing {
    type V = OutgoingModel;

    open spec fn view(&self) -> OutgoingModel {
        match *self {
            Outgoing::Begin { otid, context, components } => OutgoingModel::Begin {
                otid: otid@,
                context: arcs(context),
                components: staged_models(components@),
            },
            Outgoing::Continue { otid, dtid, context, components } => OutgoingModel::Continue {
                otid: otid@,
                dtid: dtid@,
                context: arcs(context),
                components: staged_models(components@),
            },
            Outgoing::End { dtid, context, components } => OutgoingModel::End {
                dtid: dtid@,
                context: arcs(context),
                components: staged_models(components@),
            },
            Outgoing::Abort { dtid, by } => OutgoingModel::Abort { dtid: dtid@, by },
        }
    }
}

/// Moves the fields into a `tcap::Component` with local codes.
#[verifier::external_body]
fn component_out(c: Staged) -> WireComponent {
    match c {
        Staged::Invoke { invoke_id, operation, parameter } => WireComponent::Invoke(::tcap::Invoke { invoke_id, linked_id: None, operation_code: ::tcap::OperationCode::Local(operation), parameter: parameter.map(::rasn::types::Any::new) }),
        Staged::ResultLast { invoke_id, operation, parameter } => WireComponent::ReturnResultLast(::tcap::ReturnResult { invoke_id, result: Some(::tcap::ReturnResultValue { operation_code: ::tcap::OperationCode::Local(operation), parameter: parameter.map(::rasn::types::Any::new) }) }),
        Staged::Error { invoke_id, error } => WireComponent::ReturnError(::tcap::ReturnError { invoke_id, error_code: ::tcap::ErrorCode::Local(error), parameter: None }),
    }
}

/// Moves the components; none are left out as an absent component portion.
#[verifier::external_body]
fn portion_out(components: Option<Vec<Staged>>) -> Option<Vec<WireComponent>> {
    components.map(|v| v.into_iter().map(component_out).collect())
}

/// What `tcap::encode` makes of a message: its octets, or the text of its error. A
/// message without components goes out without a component portion; a context that
/// is not an object identifier goes out as no dialogue portion.
pub uninterp spec fn tcap_encoded(m: OutgoingModel) -> Result<Seq<u8>, Seq<char>>;

/// The outcome of encoding a message.
pub open spec fn written(r: Result<Vec<u8>, String>) -> Result<Seq<u8>, Seq<char>> {
    match r {
        Ok(v) => Ok(v@),
        Err(e) => Err(e@),
    }
}

/// A component list as a component portion: none for an empty one.
fn some_components(components: Vec<Staged>) -> (r: Option<Vec<Staged>>)
    ensures
        components@.len() == 0 <==> r is None,
        r matches Some(v) ==> v == components,
{
    if components.len() == 0 {
        None
    } else {
        Some(components)
    }
}

/// What a component portion holds.
pub open spec fn portion_models(o: Option<Vec<Staged>>) -> Seq<StagedModel> {
    match o {
        Some(v) => staged_models(v@),
        None => Seq::empty(),
    }
}

/// Whether the codec can write a context. It packs the first two arcs of an object
/// identifier into one number, so a context that begins like one needs a second
/// arc, and one that leaves the sum in range.
pub open spec fn writable(context: Option<Seq<u32>>) -> bool {
    context matches Some(c) ==> c.len() == 0 || c[0] > 2 || (c.len() >= 2 && c[1] <= 0xFFFF_FFAF)
}

/// The context of a message to send.
pub open spec fn context_of(m: OutgoingModel) -> Option<Seq<u32>> {
    match m {
        OutgoingModel::Begin { otid, context, components } => context,
        OutgoingModel::Continue { otid, dtid, context, components } => context,
        OutgoingModel::End { dtid, context, components } => context,
        OutgoingModel::Abort { dtid, by } => None,
    }
}

fn is_writable(context: &Option<Vec<u32>>) -> (r: bool)
    ensures
        r == writable(arcs(*context)),
{
    match context {
        Some(c) => c.len() == 0 || c[0] > 2 || (c.len() >= 2 && c[1] <= 0xFFFF_FFAF),
        None => true,
    }
}

/// Calls `tcap::encode` on a Begin with these fields; the context goes through
/// `rasn::types::Oid::new` and `tcap::DialoguePortion::aarq`.
#[verifier::external_body]
fn encode_begin(otid: Vec<u8>, context: Option<Vec<u32>>, components: Option<Vec<Staged>>) -> (r: Result<Vec<u8>, String>)
    requires
        writable(arcs(context)),
        components matches Some(v) ==> v@.len() > 0,
    ensures
        written(r) == tcap_encoded(
            OutgoingModel::Begin {
                otid: otid@,
                context: arcs(context),
                components: portion_models(components),
            },
        ),
{
    let dialogue_portion = context.and_then(|a| ::rasn::types::Oid::new(&a).map(::tcap::DialoguePortion::aarq));
    let m = ::tcap::Begin { otid: otid.into(), dialogue_portion, components: portion_out(components) };
    ::tcap::encode(&WireTransaction::Begin(m)).map_err(|e| e.to_string())
}

/// Calls `tcap::encode` on a Continue with these fields; the context goes through
/// `rasn::types::Oid::new` and `tcap::DialoguePortion::aare_accept`.
#[verifier::external_body]
fn encode_continue(otid: Vec<u8>, dtid: Vec<u8>, context: Option<Vec<u32>>, components: Option<Vec<Staged>>) -> (r: Result<Vec<u8>, String>)
    requires
        writable(arcs(context)),
        components matches Some(v) ==> v@.len() > 0,
    ensures
        written(r) == tcap_encoded(
            OutgoingModel::Continue {
                otid: otid@,
                dtid: dtid@,
                context: arcs(context),
                components: portion_models(components),
            },
        ),
{
    let dialogue_portion = context.and_then(|a| ::rasn::types::Oid::new(&a).map(::tcap::DialoguePortion::aare_accept));
    let m = ::tcap::Continue { otid: otid.into(), dtid: dtid.into(), dialogue_portion, components: portion_out(components) };
    ::tcap::encode(&WireTransaction::Continue(m)).map_err(|e| e.to_string())
}

/// Calls `tcap::encode` on an End with these fields; the context goes through
/// `rasn::types::Oid::new` and `tcap::DialoguePortion::aare_accept`.
#[verifier::external_body]
fn encode_end(dtid: Vec<u8>, context: Option<Vec<u32>>, components: Option<Vec<Staged>>) -> (r: Result<Vec<u8>, String>)
    requires
        writable(arcs(context)),
        components matches Some(v) ==> v@.len() > 0,
    ensures
        written(r) == tcap_encoded(
            OutgoingModel::End {
                dtid: dtid@,
                context: arcs(context),
                components: portion_models(components),
            },
        ),
{
    let dialogue_portion = context.and_then(|a| ::rasn::types::Oid::new(&a).map(::tcap::DialoguePortion::aare_accept));
    let m = ::tcap::End { dtid: dtid.into(), dialogue_portion, components: portion_out(components) };
    ::tcap::encode(&WireTransaction::End(m)).map_err(|e| e.to_string())
}

/// Calls `tcap::encode` on an Abort whose reason is what
/// `tcap::DialoguePortion::abrt` gives for the source.
#[verifier::external_body]
fn encode_abort(dtid: Vec<u8>, by: AbortBy) -> (r: Result<Vec<u8>, String>)
    ensures
        written(r) == tcap_encoded(OutgoingModel::Abort { dtid: dtid@, by }),
{
    let source = match by {
        AbortBy::User => ::tcap::AbortSource::DialogueServiceUser,
        AbortBy::Provider => ::tcap::AbortSource::DialogueServiceProvider,
    };
    let reason = Some(::tcap::DialoguePortion::abrt(source).external);
    ::tcap::encode(&WireTransaction::Abort(::tcap::Abort { dtid: dtid.into(), reason })).map_err(|e| e.to_string())
}

/// Why a message could not be written.
#[derive(Clone, Debug, PartialEq, Eq)]
pub enum Unwritten {
    /// Its application context cannot be written.
    Context,
    /// The codec refused it, with its text.
    Codec(String),
}

/// What an [`Unwritten`] says.
pub enum UnwrittenModel {
    Context,
    Codec(Seq<char>),
}

impl View for Unwritten {
    type V = UnwrittenModel;

    open spec fn view(&self) -> UnwrittenModel {
        match *self {
            Unwritten::Context => UnwrittenModel::Context,
            Unwritten::Codec(t) => UnwrittenModel::Codec(t@),
        }
    }
}

/// The octets of a message to send, or why it cannot be written.
pub open spec fn transaction_octets(m: OutgoingModel) -> Result<Seq<u8>, UnwrittenModel> {
    if writable(context_of(m)) {
        match tcap_encoded(m) {
            Ok(v) => Ok(v),
            Err(t) => Err(UnwrittenModel::Codec(t)),
        }
    } else {
        Err(UnwrittenModel::Context)
    }
}

/// The outcome of writing a message.
pub open spec fn transaction_written(r: Result<Vec<u8>, Unwritten>) -> Result<
    Seq<u8>,
    UnwrittenModel,
> {
    match r {
        Ok(v) => Ok(v@),
        Err(e) => Err(e@),
    }
}

fn refused(r: Result<Vec<u8>, String>) -> (out: Result<Vec<u8>, Unwritten>)
    ensures
        transaction_written(out) == match written(r) {
            Ok(v) => Ok::<Seq<u8>, UnwrittenModel>(v),
            Err(t) => Err(UnwrittenModel::Codec(t)),
        },
{
    match r {
        Ok(v) => Ok(v),
        Err(t) => Err(Unwritten::Codec(t)),
    }
}

/// Encodes a message to send. It fails if its context cannot be written or the
/// codec refuses the message.
pub fn encode_transaction(m: Outgoing) -> (r: Result<Vec<u8>, Unwritten>)
    ensures
        transaction_written(r) == transaction_octets(m@),
{
    match m {
        Outgoing::Begin { otid, context, components } => {
            if !is_writable(&context) {
                return Err(Unwritten::Context);
            }
            let ghost all = staged_models(components@);
            let portion = some_components(components);
            proof {
                assert(portion_models(portion) =~= all);
            }
            refused(encode_begin(otid, context, portion))
        },
        Outgoing::Continue { otid, dtid, context, components } => {
            if !is_writable(&context) {
                return Err(Unwritten::Context);
            }
            let ghost all = staged_models(components@);
            let portion = some_components(components);
            proof {
                assert(portion_models(portion) =~= all);
            }
            refused(encode_continue(otid, dtid, context, portion))
        },
        Outgoing::End { dtid, context, components } => {
            if !is_writable(&context) {
                return Err(Unwritten::Context);
            }
            let ghost all = staged_models(components@);
            let portion = some_components(components);
            proof {
                assert(portion_models(portion) =~= all);
            }
            refused(encode_end(dtid, context, portion))
        },
        Outgoing::Abort { dtid, by } => refused(encode_abort(dtid, by)),
    }
}

} // verus!
