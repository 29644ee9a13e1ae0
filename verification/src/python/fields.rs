//! The fields that a script reads off an opening operation's argument.
use crate::content::forward_sm::{
    forward_in, forward_sm, maybe_forward, mo_forward_read, mt_forward_read, ForwardModel,
    ForwardSm,
};
use crate::python::peer::PyIncomingOp;
use crate::transaction::octets;
use vstd::prelude::*;

verus! {

/// The parts of an initialDP that a script reads.
#[derive(Clone, Debug, PartialEq, Eq)]
pub struct InitialDp {
    /// The service key, where it fits.
    pub service_key: Option<i64>,
    /// The called party number.
    pub called_party_number: Option<Vec<u8>>,
    /// The calling party number.
    pub calling_party_number: Option<Vec<u8>>,
}

/// What an [`InitialDp`] holds.
pub struct DetectionModel {
    pub service_key: Option<i64>,
    pub called_party_number: Option<Seq<u8>>,
    pub calling_party_number: Option<Seq<u8>>,
}

impl View for InitialDp {
    type V = DetectionModel;

    open spec fn view(&self) -> DetectionModel {
        DetectionModel {
            service_key: self.service_key,
            called_party_number: octets(self.called_party_number),
            calling_party_number: octets(self.calling_party_number),
        }
    }
}

/// What an optional initialDP holds.
pub open spec fn maybe_detection(o: Option<InitialDp>) -> Option<DetectionModel> {
    match o {
        Some(d) => Some(d@),
        None => None,
    }
}

/// What `gsm_cap::decode` reads from an argument as a `gsm_cap` `InitialDpArg`,
/// `None` for an error.
pub uninterp spec fn cap_initial_dp(arg: Seq<u8>) -> Option<DetectionModel>;

/// Calls `gsm_cap::decode` for a `gsm_cap::operations::InitialDpArg` and moves the
/// fields that a script reads. The outcome is the named one.
///
/// The decoder calls itself once for each level at which an octet string nests, so a
/// string nested tens of thousands of levels deep uses up the stack.
#[verifier::external_body]
fn read_cap_initial_dp(arg: &[u8]) -> (r: Option<InitialDp>)
    ensures
        maybe_detection(r) == cap_initial_dp(arg@),
{
    let a: ::gsm_cap::operations::InitialDpArg = ::gsm_cap::decode(arg).ok()?;
    let service_key = i64::try_from(&a.service_key).ok();
    Some(InitialDp { service_key, called_party_number: a.called_party_number.map(|n| n.to_vec()), calling_party_number: a.calling_party_number.map(|n| n.to_vec()) })
}

/// What `inap::decode` reads from an argument as an `inap` `InitialDpArg`, `None`
/// for an error.
pub uninterp spec fn inap_initial_dp(arg: Seq<u8>) -> Option<DetectionModel>;

/// Calls `inap::decode` for an `inap::operations::InitialDpArg` and moves the fields
/// that a script reads. The outcome is the named one.
///
/// The decoder calls itself once for each level at which an octet string nests, so a
/// string nested tens of thousands of levels deep uses up the stack.
#[verifier::external_body]
fn read_inap_initial_dp(arg: &[u8]) -> (r: Option<InitialDp>)
    ensures
        maybe_detection(r) == inap_initial_dp(arg@),
{
    let a: ::inap::operations::InitialDpArg = ::inap::decode(arg).ok()?;
    let service_key = i64::try_from(&a.service_key).ok();
    Some(InitialDp { service_key, called_party_number: a.called_party_number.map(|n| n.to_vec()), calling_party_number: a.calling_party_number.map(|n| n.to_vec()) })
}

impl PyIncomingOp {
    /// The ForwardSM in the argument.
    pub open spec fn forward(&self) -> Option<ForwardModel> {
        match octets(self.argument) {
            Some(a) => forward_in(mo_forward_read(a), mt_forward_read(a)),
            None => None,
        }
    }

    /// The CAMEL initialDP in the argument.
    pub open spec fn cap_detection(&self) -> Option<DetectionModel> {
        match octets(self.argument) {
            Some(a) => cap_initial_dp(a),
            None => None,
        }
    }

    /// The INAP initialDP in the argument.
    pub open spec fn inap_detection(&self) -> Option<DetectionModel> {
        match octets(self.argument) {
            Some(a) => inap_initial_dp(a),
            None => None,
        }
    }

    fn decode_mo_field(&self) -> (r: Option<ForwardSm>)
        ensures
            maybe_forward(r) == self.forward(),
    {
        match &self.argument {
            Some(a) => forward_sm(a.as_slice()),
            None => None,
        }
    }

    fn cap_dp(&self) -> (r: Option<InitialDp>)
        ensures
            maybe_detection(r) == self.cap_detection(),
    {
        match &self.argument {
            Some(a) => read_cap_initial_dp(a.as_slice()),
            None => None,
        }
    }

    fn inap_dp(&self) -> (r: Option<InitialDp>)
        ensures
            maybe_detection(r) == self.inap_detection(),
    {
        match &self.argument {
            Some(a) => read_inap_initial_dp(a.as_slice()),
            None => None,
        }
    }

    /// The originating address of a ForwardSM.
    pub fn sm_rp_oa(&self) -> (r: Option<Vec<u8>>)
        ensures
            octets(r) == match self.forward() {
                Some(f) => f.oa,
                None => None,
            },
    {
        match self.decode_mo_field() {
            Some(f) => f.oa,
            None => None,
        }
    }

    /// The destination address of a ForwardSM.
    pub fn sm_rp_da(&self) -> (r: Option<Vec<u8>>)
        ensures
            octets(r) == match self.forward() {
                Some(f) => f.da,
                None => None,
            },
    {
        match self.decode_mo_field() {
            Some(f) => f.da,
            None => None,
        }
    }

    /// The short message of a ForwardSM.
    pub fn sm_rp_ui(&self) -> (r: Option<Vec<u8>>)
        ensures
            octets(r) == match self.forward() {
                Some(f) => Some(f.ui),
                None => None,
            },
    {
        match self.decode_mo_field() {
            Some(f) => Some(f.ui),
            None => None,
        }
    }

    /// The called party number of a CAMEL initialDP.
    pub fn called_party_number(&self) -> (r: Option<Vec<u8>>)
        ensures
            octets(r) == match self.cap_detection() {
                Some(d) => d.called_party_number,
                None => None,
            },
    {
        match self.cap_dp() {
            Some(d) => d.called_party_number,
            None => None,
        }
    }

    /// The service key of an INAP initialDP.
    pub fn inap_service_key(&self) -> (r: Option<i64>)
        ensures
            r == match self.inap_detection() {
                Some(d) => d.service_key,
                None => None,
            },
    {
        match self.inap_dp() {
            Some(d) => d.service_key,
            None => None,
        }
    }

    /// The called party number of an INAP initialDP.
    pub fn inap_called_party_number(&self) -> (r: Option<Vec<u8>>)
        ensures
            octets(r) == match self.inap_detection() {
                Some(d) => d.called_party_number,
                None => None,
            },
    {
        match self.inap_dp() {
            Some(d) => d.called_party_number,
            None => None,
        }
    }

    /// The calling party number of an INAP initialDP.
    pub fn inap_calling_party_number(&self) -> (r: Option<Vec<u8>>)
        ensures
            octets(r) == match self.inap_detection() {
                Some(d) => d.calling_party_number,
                None => None,
            },
    {
        match self.inap_dp() {
            Some(d) => d.calling_party_number,
            None => None,
        }
    }
}

} // verus!
