//! The message signal unit at the MTP3-user boundary, and transport errors.
use crate::text::join2;
use vstd::prelude::*;
use vstd::string::*;

verus! {

/// A message signal unit: the routing label and the payload.
#[derive(Clone, Debug, PartialEq, Eq)]
pub struct Msu {
    /// Originating point code.
    pub opc: u32,
    /// Destination point code.
    pub dpc: u32,
    /// Service indicator.
    pub si: u8,
    /// Network indicator.
    pub ni: u8,
    /// Message priority.
    pub mp: u8,
    /// Signalling link selection.
    pub sls: u8,
    /// The MTP3-user payload.
    pub payload: Vec<u8>,
}

/// What an [`Msu`] holds.
pub struct MsuModel {
    pub opc: u32,
    pub dpc: u32,
    pub si: u8,
    pub ni: u8,
    pub mp: u8,
    pub sls: u8,
    pub payload: Seq<u8>,
}

impl View for Msu {
    type V = MsuModel;

    open spec fn view(&self) -> MsuModel {
        MsuModel {
            opc: self.opc,
            dpc: self.dpc,
            si: self.si,
            ni: self.ni,
            mp: self.mp,
            sls: self.sls,
            payload: self.payload@,
        }
    }
}

/// A copy of some octets.
pub fn copy_octets(v: &Vec<u8>) -> (r: Vec<u8>)
    ensures
        r@ == v@,
{
    let mut out: Vec<u8> = Vec::new();
    let mut i: usize = 0;
    while i < v.len()
        invariant
            i <= v@.len(),
            out@ == v@.subrange(0, i as int),
        decreases v.len() - i,
    {
        out.push(v[i]);
        proof {
            assert(out@ =~= v@.subrange(0, i + 1));
        }
        i += 1;
    }
    proof {
        assert(out@ =~= v@);
    }
    out
}

impl Msu {
    /// A copy of this unit.
    pub fn copy(&self) -> (r: Msu)
        ensures
            r@ == self@,
    {
        Msu {
            opc: self.opc,
            dpc: self.dpc,
            si: self.si,
            ni: self.ni,
            mp: self.mp,
            sls: self.sls,
            payload: copy_octets(&self.payload),
        }
    }
}

/// What went wrong in the transport.
#[derive(Clone, Debug, PartialEq, Eq)]
pub enum TransportError {
    /// An SCTP operation failed.
    Sctp(String),
    /// An M3UA message did not decode.
    M3ua(String),
    /// An M2PA message did not encode or decode.
    M2pa(String),
    /// A SUA message did not encode or decode.
    Sua(String),
    /// An SCCP message did not encode or decode.
    Sccp(String),
    /// A message cannot be framed.
    Framing(String),
    /// The configuration cannot be started.
    Config(String),
}

/// What a [`TransportError`] holds.
pub enum TransportFault {
    Sctp(Seq<char>),
    M3ua(Seq<char>),
    M2pa(Seq<char>),
    Sua(Seq<char>),
    Sccp(Seq<char>),
    Framing(Seq<char>),
    Config(Seq<char>),
}

impl TransportFault {
    /// The error text.
    pub open spec fn text(self) -> Seq<char> {
        match self {
            TransportFault::Sctp(s) => "sctp: "@ + s,
            TransportFault::M3ua(s) => "m3ua: "@ + s,
            TransportFault::M2pa(s) => "m2pa: "@ + s,
            TransportFault::Sua(s) => "sua: "@ + s,
            TransportFault::Sccp(s) => "sccp: "@ + s,
            TransportFault::Framing(s) => "framing: "@ + s,
            TransportFault::Config(s) => "config: "@ + s,
        }
    }
}

impl View for TransportError {
    type V = TransportFault;

    open spec fn view(&self) -> TransportFault {
        match *self {
            TransportError::Sctp(s) => TransportFault::Sctp(s@),
            TransportError::M3ua(s) => TransportFault::M3ua(s@),
            TransportError::M2pa(s) => TransportFault::M2pa(s@),
            TransportError::Sua(s) => TransportFault::Sua(s@),
            TransportError::Sccp(s) => TransportFault::Sccp(s@),
            TransportError::Framing(s) => TransportFault::Framing(s@),
            TransportError::Config(s) => TransportFault::Config(s@),
        }
    }
}

impl TransportError {
    /// The error text.
    pub fn to_string(&self) -> (r: String)
        ensures
            r@ == self@.text(),
    {
        match self {
            TransportError::Sctp(s) => join2("sctp: ", s.as_str()),
            TransportError::M3ua(s) => join2("m3ua: ", s.as_str()),
            TransportError::M2pa(s) => join2("m2pa: ", s.as_str()),
            TransportError::Sua(s) => join2("sua: ", s.as_str()),
            TransportError::Sccp(s) => join2("sccp: ", s.as_str()),
            TransportError::Framing(s) => join2("framing: ", s.as_str()),
            TransportError::Config(s) => join2("config: ", s.as_str()),
        }
    }
}

/// The outcome of extracting a unit.
pub open spec fn msu_outcome(r: Result<Msu, TransportError>) -> Result<MsuModel, TransportFault> {
    match r {
        Ok(m) => Ok(m@),
        Err(e) => Err(e@),
    }
}

/// The outcome of extracting a unit that may be absent.
pub open spec fn maybe_msu_outcome(r: Result<Option<Msu>, TransportError>) -> Result<
    Option<MsuModel>,
    TransportFault,
> {
    match r {
        Ok(Some(m)) => Ok(Some(m@)),
        Ok(None) => Ok(None),
        Err(e) => Err(e@),
    }
}

/// The outcome of wrapping a unit.
pub open spec fn frame_outcome(r: Result<Vec<u8>, TransportError>) -> Result<
    Seq<u8>,
    TransportFault,
> {
    match r {
        Ok(v) => Ok(v@),
        Err(e) => Err(e@),
    }
}

} // verus!
