//! The decoded view of a MAP/CAP message that content rules match on.
use crate::content::operation::{operation_of_code, Operation};
use crate::sccp::message::{slice_text, MessageModel, Unitdata};
use crate::text::{digit, digit_of};
use crate::transaction::{
    octets, tcap_decode, transaction_in_octets, transaction_of, ComponentModel, TcComponent, TcKind,
    TcMessage, TcModel, copy_some, component_models,
};
use crate::content::forward_sm::{mo_forward_read, read_mo_forward};
use vstd::prelude::*;
use vstd::string::*;

verus! {

/// A read-only view of a MAP/CAP message: the fields a content rule can inspect.
#[derive(Clone, Debug, PartialEq, Eq)]
pub struct MapView {
    /// The operation, if its code is a recognised one.
    pub operation: Option<Operation>,
    /// The calling-party digits.
    pub cgpa_gt: Option<String>,
    /// The called-party digits.
    pub cdpa_gt: Option<String>,
    /// The subscriber's IMSI, in decimal digits.
    pub imsi: Option<String>,
    /// The MSISDN, in decimal digits.
    pub msisdn: Option<String>,
}

/// What a [`MapView`] holds.
pub struct ViewModel {
    pub operation: Option<Operation>,
    pub cgpa_gt: Option<Seq<char>>,
    pub cdpa_gt: Option<Seq<char>>,
    pub imsi: Option<Seq<char>>,
    pub msisdn: Option<Seq<char>>,
}

/// The text of an optional string.
pub open spec fn text_of(o: Option<String>) -> Option<Seq<char>> {
    match o {
        Some(s) => Some(s@),
        None => None,
    }
}

impl View for MapView {
    type V = ViewModel;

    open spec fn view(&self) -> ViewModel {
        ViewModel {
            operation: self.operation,
            cgpa_gt: text_of(self.cgpa_gt),
            cdpa_gt: text_of(self.cdpa_gt),
            imsi: text_of(self.imsi),
            msisdn: text_of(self.msisdn),
        }
    }
}

/// What an optional view holds.
pub open spec fn view_of(o: Option<MapView>) -> Option<ViewModel> {
    match o {
        Some(v) => Some(v@),
        None => None,
    }
}

impl Default for MapView {
    /// A view that holds nothing.
    fn default() -> (r: MapView)
        ensures
            r@ == (ViewModel {
                operation: None,
                cgpa_gt: None,
                cdpa_gt: None,
                imsi: None,
                msisdn: None,
            }),
    {
        MapView { operation: None, cgpa_gt: None, cdpa_gt: None, imsi: None, msisdn: None }
    }
}

// ── Digits ──────────────────────────────────────────────────────────────────

/// The digits packed two to an octet, low half first. Anything but a decimal
/// digit ends them.
pub open spec fn tbcd(bytes: Seq<u8>) -> Seq<char>
    decreases bytes.len(),
{
    if bytes.len() == 0 {
        Seq::empty()
    } else {
        let lo = bytes[0] as nat % 16;
        let hi = bytes[0] as nat / 16;
        if lo > 9 {
            Seq::empty()
        } else if hi > 9 {
            seq![digit(lo)]
        } else {
            seq![digit(lo), digit(hi)] + tbcd(bytes.drop_first())
        }
    }
}

/// Decodes packed digits from position `from` on.
fn tbcd_from(bytes: &Vec<u8>, from: usize) -> (r: String)
    requires
        from <= bytes@.len(),
    ensures
        r@ == tbcd(bytes@.subrange(from as int, bytes@.len() as int)),
{
    let mut out = String::new();
    let mut i: usize = from;
    let ghost all = bytes@.subrange(from as int, bytes@.len() as int);
    proof {
        assert(out@ + tbcd(all) =~= tbcd(all));
    }
    while i < bytes.len()
        invariant
            from <= i <= bytes@.len(),
            all == bytes@.subrange(from as int, bytes@.len() as int),
            out@ + tbcd(bytes@.subrange(i as int, bytes@.len() as int)) == tbcd(all),
        decreases bytes.len() - i,
    {
        let ghost rest = bytes@.subrange(i as int, bytes@.len() as int);
        let ghost before = out@;
        proof {
            assert(rest.drop_first() =~= bytes@.subrange(i + 1, bytes@.len() as int));
        }
        let lo: u8 = bytes[i] % 16;
        if lo > 9 {
            proof {
                assert(out@ =~= tbcd(all));
            }
            return out;
        }
        out.push(digit_of(lo as u64));
        let hi: u8 = bytes[i] / 16;
        if hi > 9 {
            proof {
                assert(out@ =~= before + tbcd(rest));
            }
            return out;
        }
        out.push(digit_of(hi as u64));
        proof {
            assert(before + tbcd(rest) =~= out@ + tbcd(rest.drop_first()));
        }
        i += 1;
    }
    proof {
        assert(out@ =~= tbcd(all));
    }
    out
}

/// Decodes packed digits.
pub fn tbcd_slice(bytes: &Vec<u8>) -> (r: String)
    ensures
        r@ == tbcd(bytes@),
{
    proof {
        assert(bytes@.subrange(0, bytes@.len() as int) =~= bytes@);
    }
    tbcd_from(bytes, 0)
}

/// The digits of an address string: they follow one octet of numbering
/// information.
pub open spec fn address_digits(bytes: Seq<u8>) -> Seq<char> {
    if bytes.len() == 0 {
        Seq::empty()
    } else {
        tbcd(bytes.drop_first())
    }
}

/// Decodes the digits of an address string.
pub fn addr_digits(bytes: &Vec<u8>) -> (r: String)
    ensures
        r@ == address_digits(bytes@),
{
    if bytes.len() == 0 {
        String::new()
    } else {
        proof {
            assert(bytes@.subrange(1, bytes@.len() as int) =~= bytes@.drop_first());
        }
        tbcd_from(bytes, 1)
    }
}

// ── Subscriber identity ─────────────────────────────────────────────────────

/// The octets of the IMSI in an `UpdateLocationArg`, where `rasn::ber::decode` reads one from
/// an argument.
pub uninterp spec fn update_location_imsi(arg: Seq<u8>) -> Option<Seq<u8>>;

/// Calls `rasn::ber::decode` for a `gsm_map::operations::location::UpdateLocationArg`
/// and takes its IMSI. The outcome is the named one.
///
/// The decoder calls itself once for each level at which an octet string nests, so a
/// string nested tens of thousands of levels deep uses up the stack.
#[verifier::external_body]
fn read_update_location_imsi(arg: &[u8]) -> (r: Option<Vec<u8>>)
    ensures
        octets(r) == update_location_imsi(arg@),
{
    ::rasn::ber::decode::<::gsm_map::operations::location::UpdateLocationArg>(arg).ok().map(|a| a.imsi.to_vec())
}

/// The octets of the identity in a `CancelLocationArg`, where `rasn::ber::decode` reads one from
/// an argument.
pub uninterp spec fn cancel_location_imsi(arg: Seq<u8>) -> Option<Seq<u8>>;

/// Calls `rasn::ber::decode` for a `gsm_map::operations::location::CancelLocationArg`
/// and takes its identity. The outcome is the named one.
///
/// The decoder calls itself once for each level at which an octet string nests, so a
/// string nested tens of thousands of levels deep uses up the stack.
#[verifier::external_body]
fn read_cancel_location_imsi(arg: &[u8]) -> (r: Option<Vec<u8>>)
    ensures
        octets(r) == cancel_location_imsi(arg@),
{
    ::rasn::ber::decode::<::gsm_map::operations::location::CancelLocationArg>(arg).ok().map(|a| a.identity.to_vec())
}

/// The octets of the IMSI in a `PurgeMsArg`, where `rasn::ber::decode` reads one from
/// an argument.
pub uninterp spec fn purge_ms_imsi(arg: Seq<u8>) -> Option<Seq<u8>>;

/// Calls `rasn::ber::decode` for a `gsm_map::operations::location::PurgeMsArg`
/// and takes its IMSI. The outcome is the named one.
///
/// The decoder calls itself once for each level at which an octet string nests, so a
/// string nested tens of thousands of levels deep uses up the stack.
#[verifier::external_body]
fn read_purge_ms_imsi(arg: &[u8]) -> (r: Option<Vec<u8>>)
    ensures
        octets(r) == purge_ms_imsi(arg@),
{
    ::rasn::ber::decode::<::gsm_map::operations::location::PurgeMsArg>(arg).ok().map(|a| a.imsi.to_vec())
}

/// The octets of the IMSI in a `SendAuthenticationInfoArg`, where `rasn::ber::decode` reads one from
/// an argument.
pub uninterp spec fn auth_info_imsi(arg: Seq<u8>) -> Option<Seq<u8>>;

/// Calls `rasn::ber::decode` for a `gsm_map::operations::auth::SendAuthenticationInfoArg`
/// and takes its IMSI. The outcome is the named one.
///
/// The decoder calls itself once for each level at which an octet string nests, so a
/// string nested tens of thousands of levels deep uses up the stack.
#[verifier::external_body]
fn read_auth_info_imsi(arg: &[u8]) -> (r: Option<Vec<u8>>)
    ensures
        octets(r) == auth_info_imsi(arg@),
{
    ::rasn::ber::decode::<::gsm_map::operations::auth::SendAuthenticationInfoArg>(arg).ok().map(|a| a.imsi.to_vec())
}

/// The octets of the IMSI in a `ReadyForSmArg`, where `rasn::ber::decode` reads one from
/// an argument.
pub uninterp spec fn ready_for_sm_imsi(arg: Seq<u8>) -> Option<Seq<u8>>;

/// Calls `rasn::ber::decode` for a `gsm_map::operations::ready_for_sm::ReadyForSmArg`
/// and takes its IMSI. The outcome is the named one.
///
/// The decoder calls itself once for each level at which an octet string nests, so a
/// string nested tens of thousands of levels deep uses up the stack.
#[verifier::external_body]
fn read_ready_for_sm_imsi(arg: &[u8]) -> (r: Option<Vec<u8>>)
    ensures
        octets(r) == ready_for_sm_imsi(arg@),
{
    ::rasn::ber::decode::<::gsm_map::operations::ready_for_sm::ReadyForSmArg>(arg).ok().map(|a| a.imsi.to_vec())
}

/// The octets of the IMSI in a `ProvideSubscriberInfoArg`, where `rasn::ber::decode` reads one from
/// an argument.
pub uninterp spec fn subscriber_info_imsi(arg: Seq<u8>) -> Option<Seq<u8>>;

/// Calls `rasn::ber::decode` for a `gsm_map::operations::subscriber_info::ProvideSubscriberInfoArg`
/// and takes its IMSI. The outcome is the named one.
///
/// The decoder calls itself once for each level at which an octet string nests, so a
/// string nested tens of thousands of levels deep uses up the stack.
#[verifier::external_body]
fn read_subscriber_info_imsi(arg: &[u8]) -> (r: Option<Vec<u8>>)
    ensures
        octets(r) == subscriber_info_imsi(arg@),
{
    ::rasn::ber::decode::<::gsm_map::operations::subscriber_info::ProvideSubscriberInfoArg>(arg).ok().map(|a| a.imsi.to_vec())
}

/// The octets of the IMSI of a `MoForwardSmArg`, which may be absent.
pub open spec fn mo_forward_imsi(arg: Seq<u8>) -> Option<Seq<u8>> {
    match mo_forward_read(arg) {
        Some(f) => f.imsi,
        None => None,
    }
}

fn read_mo_forward_imsi(arg: &[u8]) -> (r: Option<Vec<u8>>)
    ensures
        octets(r) == mo_forward_imsi(arg@),
{
    match read_mo_forward(arg) {
        Some(f) => f.imsi,
        None => None,
    }
}

/// The octets of the MSISDN in a `RoutingInfoForSmArg`, where `rasn::ber::decode` reads one from
/// an argument.
pub uninterp spec fn routing_info_msisdn(arg: Seq<u8>) -> Option<Seq<u8>>;

/// Calls `rasn::ber::decode` for a `gsm_map::operations::sri_sm::RoutingInfoForSmArg`
/// and takes its MSISDN. The outcome is the named one.
///
/// The decoder calls itself once for each level at which an octet string nests, so a
/// string nested tens of thousands of levels deep uses up the stack.
#[verifier::external_body]
fn read_routing_info_msisdn(arg: &[u8]) -> (r: Option<Vec<u8>>)
    ensures
        octets(r) == routing_info_msisdn(arg@),
{
    ::rasn::ber::decode::<::gsm_map::operations::sri_sm::RoutingInfoForSmArg>(arg).ok().map(|a| a.msisdn.to_vec())
}

/// The octets of the MSISDN in a `ReportSmDeliveryStatusArg`, where `rasn::ber::decode` reads one from
/// an argument.
pub uninterp spec fn report_sm_msisdn(arg: Seq<u8>) -> Option<Seq<u8>>;

/// Calls `rasn::ber::decode` for a `gsm_map::operations::report_sm::ReportSmDeliveryStatusArg`
/// and takes its MSISDN. The outcome is the named one.
///
/// The decoder calls itself once for each level at which an octet string nests, so a
/// string nested tens of thousands of levels deep uses up the stack.
#[verifier::external_body]
fn read_report_sm_msisdn(arg: &[u8]) -> (r: Option<Vec<u8>>)
    ensures
        octets(r) == report_sm_msisdn(arg@),
{
    ::rasn::ber::decode::<::gsm_map::operations::report_sm::ReportSmDeliveryStatusArg>(arg).ok().map(|a| a.msisdn.to_vec())
}

/// The packed digits of an IMSI as text.
pub open spec fn imsi_text(o: Option<Seq<u8>>) -> Option<Seq<char>> {
    match o {
        Some(b) => Some(tbcd(b)),
        None => None,
    }
}

/// The digits of an MSISDN as text.
pub open spec fn msisdn_text(o: Option<Seq<u8>>) -> Option<Seq<char>> {
    match o {
        Some(b) => Some(address_digits(b)),
        None => None,
    }
}

/// The IMSI and MSISDN in the argument of an operation, for the operations that
/// carry one at top level.
pub open spec fn identity(op_code: i64, arg: Seq<u8>) -> (Option<Seq<char>>, Option<Seq<char>>) {
    if op_code == 2 {
        (imsi_text(update_location_imsi(arg)), None)
    } else if op_code == 3 {
        (imsi_text(cancel_location_imsi(arg)), None)
    } else if op_code == 67 {
        (imsi_text(purge_ms_imsi(arg)), None)
    } else if op_code == 56 {
        (imsi_text(auth_info_imsi(arg)), None)
    } else if op_code == 66 {
        (imsi_text(ready_for_sm_imsi(arg)), None)
    } else if op_code == 70 {
        (imsi_text(subscriber_info_imsi(arg)), None)
    } else if op_code == 46 {
        (imsi_text(mo_forward_imsi(arg)), None)
    } else if op_code == 45 {
        (None, msisdn_text(routing_info_msisdn(arg)))
    } else if op_code == 47 {
        (None, msisdn_text(report_sm_msisdn(arg)))
    } else {
        (None, None)
    }
}

/// The text of an IMSI read from an argument.
pub fn imsi_of(o: Option<Vec<u8>>) -> (r: Option<String>)
    ensures
        text_of(r) == imsi_text(octets(o)),
{
    match o {
        Some(b) => Some(tbcd_slice(&b)),
        None => None,
    }
}

/// The text of an MSISDN read from an argument.
pub fn msisdn_of(o: Option<Vec<u8>>) -> (r: Option<String>)
    ensures
        text_of(r) == msisdn_text(octets(o)),
{
    match o {
        Some(b) => Some(addr_digits(&b)),
        None => None,
    }
}

/// The IMSI and MSISDN in the argument of an operation. Operations that carry
/// none at top level, and arguments that do not decode, give neither.
pub fn subscriber_identity(op_code: i64, arg: &[u8]) -> (r: (Option<String>, Option<String>))
    ensures
        (text_of(r.0), text_of(r.1)) == identity(op_code, arg@),
{
    match op_code {
        2 => (imsi_of(read_update_location_imsi(arg)), None),
        3 => (imsi_of(read_cancel_location_imsi(arg)), None),
        67 => (imsi_of(read_purge_ms_imsi(arg)), None),
        56 => (imsi_of(read_auth_info_imsi(arg)), None),
        66 => (imsi_of(read_ready_for_sm_imsi(arg)), None),
        70 => (imsi_of(read_subscriber_info_imsi(arg)), None),
        46 => (imsi_of(read_mo_forward_imsi(arg)), None),
        45 => (None, msisdn_of(read_routing_info_msisdn(arg))),
        47 => (None, msisdn_of(read_report_sm_msisdn(arg))),
        _ => (None, None),
    }
}

// ── The first Invoke ────────────────────────────────────────────────────────

/// The first Invoke with a local operation among components from `from` on: its
/// code and argument.
pub open spec fn first_local_invoke(cs: Seq<ComponentModel>, from: int) -> Option<
    (i64, Option<Seq<u8>>),
>
    decreases cs.len() - from,
{
    if from < 0 || from >= cs.len() {
        None
    } else {
        match cs[from] {
            ComponentModel::Invoke { invoke_id, operation: Some(op), parameter } => Some(
                (op, parameter),
            ),
            _ => first_local_invoke(cs, from + 1),
        }
    }
}

/// The operation of a decoded transaction: that of the first local Invoke in a
/// Begin or Continue.
pub open spec fn operation_in(t: Option<TcModel>) -> Option<(i64, Option<Seq<u8>>)> {
    match t {
        Some(m) => if m.kind == TcKind::Begin || m.kind == TcKind::Continue {
            first_local_invoke(m.components, 0)
        } else {
            None
        },
        None => None,
    }
}

/// The operation code and argument octets of an optional pair.
pub open spec fn invoke_model(o: Option<(i64, Option<Vec<u8>>)>) -> Option<(i64, Option<Seq<u8>>)> {
    match o {
        Some(p) => Some((p.0, octets(p.1))),
        None => None,
    }
}

/// The operation of a decoded transaction.
pub fn invoke_of(t: &Option<TcMessage>) -> (r: Option<(i64, Option<Vec<u8>>)>)
    ensures
        invoke_model(r) == operation_in(transaction_of(*t)),
{
    let m = match t {
        Some(m) => m,
        None => {
            return None;
        },
    };
    match m.kind {
        TcKind::Begin => {},
        TcKind::Continue => {},
        _ => {
            return None;
        },
    }
    let ghost cs = component_models(m.components@);
    let mut i: usize = 0;
    while i < m.components.len()
        invariant
            i <= m.components@.len(),
            cs == component_models(m.components@),
            first_local_invoke(cs, 0) == first_local_invoke(cs, i as int),
            operation_in(transaction_of(*t)) == first_local_invoke(cs, 0),
        decreases m.components.len() - i,
    {
        proof {
            assert(cs[i as int] == m.components@[i as int]@);
        }
        match &m.components[i] {
            TcComponent::Invoke { invoke_id: _, operation, parameter } => {
                match operation {
                    Some(op) => {
                        return Some((*op, copy_some(parameter)));
                    },
                    None => {},
                }
            },
            _ => {},
        }
        i += 1;
    }
    None
}

/// The operation code and argument of the first local Invoke in a TCAP Begin or
/// Continue.
pub fn first_invoke(tcap_bytes: &[u8]) -> (r: Option<(i64, Option<Vec<u8>>)>)
    ensures
        invoke_model(r) == operation_in(transaction_in_octets(tcap_bytes@)),
{
    let t = transaction_from(tcap_bytes);
    invoke_of(&t)
}

fn transaction_from(tcap_bytes: &[u8]) -> (r: Option<TcMessage>)
    ensures
        transaction_of(r) == transaction_in_octets(tcap_bytes@),
{
    match tcap_decode(tcap_bytes) {
        Ok(t) => Some(t),
        Err(_) => None,
    }
}

/// The view of an SCCP message whose data decoded to `t`: none unless its first
/// local Invoke asks for a recognised operation.
pub open spec fn map_view(m: MessageModel, t: Option<TcModel>) -> Option<ViewModel> {
    match operation_in(t) {
        Some((op, arg)) => if operation_of_code(op) is Some {
            let id = match arg {
                Some(a) => identity(op, a),
                None => (None, None),
            };
            Some(
                ViewModel {
                    operation: operation_of_code(op),
                    cgpa_gt: m.calling_party.global_title.digits(),
                    cdpa_gt: m.called_party.global_title.digits(),
                    imsi: id.0,
                    msisdn: id.1,
                },
            )
        } else {
            None
        },
        None => None,
    }
}

fn owned(o: Option<&str>) -> (r: Option<String>)
    ensures
        text_of(r) == slice_text(o),
{
    match o {
        Some(s) => Some(s.to_owned()),
        None => None,
    }
}

/// The view of an SCCP message, given its decoded data.
pub fn view_of_transaction(sccp: &Unitdata, t: &Option<TcMessage>) -> (r: Option<MapView>)
    ensures
        view_of(r) == map_view(sccp@, transaction_of(*t)),
{
    match invoke_of(t) {
        Some((op, arg)) => {
            let operation = Operation::from_op_code(op);
            if operation.is_none() {
                return None;
            }
            let (imsi, msisdn) = match &arg {
                Some(a) => subscriber_identity(op, a.as_slice()),
                None => (None, None),
            };
            Some(
                MapView {
                    operation,
                    cgpa_gt: owned(sccp.calling_party.global_title.digits()),
                    cdpa_gt: owned(sccp.called_party.global_title.digits()),
                    imsi,
                    msisdn,
                },
            )
        },
        None => None,
    }
}

/// Decodes an SCCP message into the view content rules match on: the operation,
/// the calling and called digits, and the subscriber's identity in the first
/// Invoke. `None` unless its data is a TCAP Begin or Continue whose first local
/// Invoke asks for a recognised operation.
pub fn decode_map_view(sccp: &Unitdata) -> (r: Option<MapView>)
    ensures
        view_of(r) == map_view(sccp@, transaction_in_octets(sccp.data@)),
{
    let t = transaction_from(sccp.data.as_slice());
    view_of_transaction(sccp, &t)
}

} // verus!
