//! The argument of the short-message relay operations.
use crate::transaction::octets;
use ::gsm_map::SmRpDa as WireDa;
use ::gsm_map::SmRpOa as WireOa;
use vstd::prelude::*;

verus! {

/// The argument of an MO- or MT-ForwardSM. An address is `None` where the argument
/// says that there is none.
#[derive(Clone, Debug, PartialEq, Eq)]
pub struct ForwardSm {
    /// The destination address.
    pub da: Option<Vec<u8>>,
    /// The originating address.
    pub oa: Option<Vec<u8>>,
    /// The short message itself.
    pub ui: Vec<u8>,
    /// The originating subscriber's IMSI, where an MO-ForwardSM carries it.
    pub imsi: Option<Vec<u8>>,
}

/// What a [`ForwardSm`] holds.
pub struct ForwardModel {
    pub da: Option<Seq<u8>>,
    pub oa: Option<Seq<u8>>,
    pub ui: Seq<u8>,
    pub imsi: Option<Seq<u8>>,
}

impl View for ForwardSm {
    type V = ForwardModel;

    open spec fn view(&self) -> ForwardModel {
        ForwardModel {
            da: octets(self.da),
            oa: octets(self.oa),
            ui: self.ui@,
            imsi: octets(self.imsi),
        }
    }
}

/// What an optional argument holds.
pub open spec fn maybe_forward(o: Option<ForwardSm>) -> Option<ForwardModel> {
    match o {
        Some(f) => Some(f@),
        None => None,
    }
}

/// `gsm_map::SmRpDa`.
#[verifier::external_type_specification]
#[verifier::external_body]
pub struct ExSmRpDa(::gsm_map::SmRpDa);

/// `gsm_map::SmRpOa`.
#[verifier::external_type_specification]
#[verifier::external_body]
pub struct ExSmRpOa(::gsm_map::SmRpOa);

/// The octets of a `gsm_map::SmRpDa`.
#[verifier::external_body]
fn da_in(d: WireDa) -> Option<Vec<u8>> {
    match d {
        WireDa::Imsi(b) => Some(b.to_vec()),
        WireDa::Lmsi(b) => Some(b.to_vec()),
        WireDa::ServiceCentreAddressDa(b) => Some(b.to_vec()),
        WireDa::NoSmRpDa(()) => None,
    }
}

/// The octets of a `gsm_map::SmRpOa`.
#[verifier::external_body]
fn oa_in(o: WireOa) -> Option<Vec<u8>> {
    match o {
        WireOa::MsIsdn(b) => Some(b.to_vec()),
        WireOa::ServiceCentreAddressOa(b) => Some(b.to_vec()),
        WireOa::NoSmRpOa(()) => None,
    }
}

/// What `rasn::ber::decode` reads from an argument as a
/// `gsm_map::operations::mo_forward_sm::MoForwardSmArg`, `None` for an error.
pub uninterp spec fn mo_forward_read(arg: Seq<u8>) -> Option<ForwardModel>;

/// Calls `rasn::ber::decode` for a `gsm_map` `MoForwardSmArg` and moves its fields.
/// The outcome is the named one.
///
/// The decoder calls itself once for each level at which an octet string nests, so a
/// string nested tens of thousands of levels deep uses up the stack.
#[verifier::external_body]
pub(crate) fn read_mo_forward(arg: &[u8]) -> (r: Option<ForwardSm>)
    ensures
        maybe_forward(r) == mo_forward_read(arg@),
{
    let a = ::rasn::ber::decode::<::gsm_map::operations::mo_forward_sm::MoForwardSmArg>(arg).ok()?;
    Some(ForwardSm { da: da_in(a.sm_rp_da), oa: oa_in(a.sm_rp_oa), ui: a.sm_rp_ui.to_vec(), imsi: a.imsi.map(|i| i.to_vec()) })
}

/// What `rasn::ber::decode` reads from an argument as a
/// `gsm_map::operations::mt_forward_sm::MtForwardSmArg`, `None` for an error.
pub uninterp spec fn mt_forward_read(arg: Seq<u8>) -> Option<ForwardModel>;

/// Calls `rasn::ber::decode` for a `gsm_map` `MtForwardSmArg` and moves its fields;
/// it has no IMSI. The outcome is the named one.
///
/// The decoder calls itself once for each level at which an octet string nests, so a
/// string nested tens of thousands of levels deep uses up the stack.
#[verifier::external_body]
pub(crate) fn read_mt_forward(arg: &[u8]) -> (r: Option<ForwardSm>)
    ensures
        maybe_forward(r) == mt_forward_read(arg@),
{
    let a = ::rasn::ber::decode::<::gsm_map::operations::mt_forward_sm::MtForwardSmArg>(arg).ok()?;
    Some(ForwardSm { da: da_in(a.sm_rp_da), oa: oa_in(a.sm_rp_oa), ui: a.sm_rp_ui.to_vec(), imsi: None })
}

/// The argument of a ForwardSM: as mobile-originated, else as mobile-terminated.
pub open spec fn forward_in(mo: Option<ForwardModel>, mt: Option<ForwardModel>) -> Option<
    ForwardModel,
> {
    match mo {
        Some(f) => Some(f),
        None => mt,
    }
}

/// Reads the argument of a ForwardSM: as mobile-originated, else as
/// mobile-terminated.
pub fn forward_sm(arg: &[u8]) -> (r: Option<ForwardSm>)
    ensures
        maybe_forward(r) == forward_in(mo_forward_read(arg@), mt_forward_read(arg@)),
{
    match read_mo_forward(arg) {
        Some(f) => Some(f),
        None => read_mt_forward(arg),
    }
}

} // verus!
