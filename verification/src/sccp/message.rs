//! Connectionless SCCP messages as plain values, and their wire form.
use ::sccp::GlobalTitle as WireTitle;
use ::sccp::SccpAddress as WireAddress;
use ::sccp::SccpMessage as WireMessage;
use vstd::prelude::*;
use vstd::string::*;

verus! {

/// A global title.
#[derive(Clone, Debug, PartialEq, Eq)]
pub enum PartyTitle {
    /// None.
    NoTitle,
    /// Nature of address and digits.
    Gt0001 { nature_of_address: u8, odd_even: bool, digits: String },
    /// Translation type and digits.
    Gt0010 { translation_type: u8, digits: String },
    /// Translation type, numbering plan, encoding scheme and digits.
    Gt0011 { translation_type: u8, numbering_plan: u8, encoding_scheme: u8, digits: String },
    /// As the former, with the nature of address.
    Gt0100 {
        translation_type: u8,
        numbering_plan: u8,
        encoding_scheme: u8,
        nature_of_address: u8,
        digits: String,
    },
}

/// What a [`PartyTitle`] holds.
pub enum TitleModel {
    NoTitle,
    Gt0001 { nature_of_address: u8, odd_even: bool, digits: Seq<char> },
    Gt0010 { translation_type: u8, digits: Seq<char> },
    Gt0011 { translation_type: u8, numbering_plan: u8, encoding_scheme: u8, digits: Seq<char> },
    Gt0100 {
        translation_type: u8,
        numbering_plan: u8,
        encoding_scheme: u8,
        nature_of_address: u8,
        digits: Seq<char>,
    },
}

impl View for PartyTitle {
    type V = TitleModel;

    open spec fn view(&self) -> TitleModel {
        match *self {
            PartyTitle::NoTitle => TitleModel::NoTitle,
            PartyTitle::Gt0001 { nature_of_address, odd_even, digits } => TitleModel::Gt0001 {
                nature_of_address,
                odd_even,
                digits: digits@,
            },
            PartyTitle::Gt0010 { translation_type, digits } => TitleModel::Gt0010 {
                translation_type,
                digits: digits@,
            },
            PartyTitle::Gt0011 {
                translation_type,
                numbering_plan,
                encoding_scheme,
                digits,
            } => TitleModel::Gt0011 {
                translation_type,
                numbering_plan,
                encoding_scheme,
                digits: digits@,
            },
            PartyTitle::Gt0100 {
                translation_type,
                numbering_plan,
                encoding_scheme,
                nature_of_address,
                digits,
            } => TitleModel::Gt0100 {
                translation_type,
                numbering_plan,
                encoding_scheme,
                nature_of_address,
                digits: digits@,
            },
        }
    }
}

impl TitleModel {
    /// The digits, if there is a title.
    pub open spec fn digits(self) -> Option<Seq<char>> {
        match self {
            TitleModel::NoTitle => None,
            TitleModel::Gt0001 { digits, .. } => Some(digits),
            TitleModel::Gt0010 { digits, .. } => Some(digits),
            TitleModel::Gt0011 { digits, .. } => Some(digits),
            TitleModel::Gt0100 { digits, .. } => Some(digits),
        }
    }

    /// The title with other digits; no title stays none.
    pub open spec fn with_digits(self, d: Seq<char>) -> TitleModel {
        match self {
            TitleModel::NoTitle => TitleModel::NoTitle,
            TitleModel::Gt0001 { nature_of_address, odd_even, .. } => TitleModel::Gt0001 {
                nature_of_address,
                odd_even,
                digits: d,
            },
            TitleModel::Gt0010 { translation_type, .. } => TitleModel::Gt0010 {
                translation_type,
                digits: d,
            },
            TitleModel::Gt0011 { translation_type, numbering_plan, encoding_scheme, .. } =>
                TitleModel::Gt0011 { translation_type, numbering_plan, encoding_scheme, digits: d },
            TitleModel::Gt0100 {
                translation_type,
                numbering_plan,
                encoding_scheme,
                nature_of_address,
                ..
            } => TitleModel::Gt0100 {
                translation_type,
                numbering_plan,
                encoding_scheme,
                nature_of_address,
                digits: d,
            },
        }
    }
}

/// The text of an optional string slice.
pub open spec fn slice_text(o: Option<&str>) -> Option<Seq<char>> {
    match o {
        Some(s) => Some(s@),
        None => None,
    }
}

impl PartyTitle {
    /// The digits, if there is a title.
    pub fn digits(&self) -> (r: Option<&str>)
        ensures
            slice_text(r) == self@.digits(),
    {
        match self {
            PartyTitle::NoTitle => None,
            PartyTitle::Gt0001 { digits, .. } => Some(digits.as_str()),
            PartyTitle::Gt0010 { digits, .. } => Some(digits.as_str()),
            PartyTitle::Gt0011 { digits, .. } => Some(digits.as_str()),
            PartyTitle::Gt0100 { digits, .. } => Some(digits.as_str()),
        }
    }

    /// The title with other digits; no title stays none. An odd/even indication is
    /// left as it is: encoding takes it from the number of digits.
    pub fn with_digits(&self, d: &str) -> (r: PartyTitle)
        ensures
            r@ == self@.with_digits(d@),
    {
        match self {
            PartyTitle::NoTitle => PartyTitle::NoTitle,
            PartyTitle::Gt0001 { nature_of_address, odd_even, digits: _ } => PartyTitle::Gt0001 {
                nature_of_address: *nature_of_address,
                odd_even: *odd_even,
                digits: d.to_owned(),
            },
            PartyTitle::Gt0010 { translation_type, digits: _ } => PartyTitle::Gt0010 {
                translation_type: *translation_type,
                digits: d.to_owned(),
            },
            PartyTitle::Gt0011 { translation_type, numbering_plan, encoding_scheme, digits: _ } =>
                PartyTitle::Gt0011 {
                translation_type: *translation_type,
                numbering_plan: *numbering_plan,
                encoding_scheme: *encoding_scheme,
                digits: d.to_owned(),
            },
            PartyTitle::Gt0100 {
                translation_type,
                numbering_plan,
                encoding_scheme,
                nature_of_address,
                digits: _,
            } => PartyTitle::Gt0100 {
                translation_type: *translation_type,
                numbering_plan: *numbering_plan,
                encoding_scheme: *encoding_scheme,
                nature_of_address: *nature_of_address,
                digits: d.to_owned(),
            },
        }
    }

    /// A copy of this title.
    pub fn copy(&self) -> (r: PartyTitle)
        ensures
            r@ == self@,
    {
        match self {
            PartyTitle::NoTitle => PartyTitle::NoTitle,
            PartyTitle::Gt0001 { nature_of_address, odd_even, digits } => PartyTitle::Gt0001 {
                nature_of_address: *nature_of_address,
                odd_even: *odd_even,
                digits: digits.clone(),
            },
            PartyTitle::Gt0010 { translation_type, digits } => PartyTitle::Gt0010 {
                translation_type: *translation_type,
                digits: digits.clone(),
            },
            PartyTitle::Gt0011 {
                translation_type,
                numbering_plan,
                encoding_scheme,
                digits,
            } => PartyTitle::Gt0011 {
                translation_type: *translation_type,
                numbering_plan: *numbering_plan,
                encoding_scheme: *encoding_scheme,
                digits: digits.clone(),
            },
            PartyTitle::Gt0100 {
                translation_type,
                numbering_plan,
                encoding_scheme,
                nature_of_address,
                digits,
            } => PartyTitle::Gt0100 {
                translation_type: *translation_type,
                numbering_plan: *numbering_plan,
                encoding_scheme: *encoding_scheme,
                nature_of_address: *nature_of_address,
                digits: digits.clone(),
            },
        }
    }
}

/// A called or calling party address.
#[derive(Clone, Debug, PartialEq, Eq)]
pub struct PartyAddress {
    /// Route on the subsystem number rather than on the global title.
    pub route_on_ssn: bool,
    /// The point code.
    pub point_code: Option<u16>,
    /// The subsystem number.
    pub ssn: Option<u8>,
    /// The global title.
    pub global_title: PartyTitle,
}

/// What an [`PartyAddress`] holds.
pub struct AddressModel {
    pub route_on_ssn: bool,
    pub point_code: Option<u16>,
    pub ssn: Option<u8>,
    pub global_title: TitleModel,
}

impl View for PartyAddress {
    type V = AddressModel;

    open spec fn view(&self) -> AddressModel {
        AddressModel {
            route_on_ssn: self.route_on_ssn,
            point_code: self.point_code,
            ssn: self.ssn,
            global_title: self.global_title@,
        }
    }
}

impl PartyAddress {
    /// An address that routes on its global title.
    pub fn with_gt(gt: PartyTitle, ssn: Option<u8>) -> (r: PartyAddress)
        ensures
            r@ == (AddressModel {
                route_on_ssn: false,
                point_code: None,
                ssn,
                global_title: gt@,
            }),
    {
        PartyAddress { route_on_ssn: false, point_code: None, ssn, global_title: gt }
    }

    /// An address that routes on its subsystem number.
    pub fn with_ssn(ssn: u8, point_code: Option<u16>) -> (r: PartyAddress)
        ensures
            r@ == (AddressModel {
                route_on_ssn: true,
                point_code,
                ssn: Some(ssn),
                global_title: TitleModel::NoTitle,
            }),
    {
        PartyAddress {
            route_on_ssn: true,
            point_code,
            ssn: Some(ssn),
            global_title: PartyTitle::NoTitle,
        }
    }

    /// A copy of this address.
    pub fn copy(&self) -> (r: PartyAddress)
        ensures
            r@ == self@,
    {
        PartyAddress {
            route_on_ssn: self.route_on_ssn,
            point_code: self.point_code,
            ssn: self.ssn,
            global_title: self.global_title.copy(),
        }
    }
}

/// The form of a message: unitdata, extended or long.
#[derive(Clone, Copy, PartialEq, Eq, Structural, Debug)]
pub enum SccpForm {
    /// UDT and UDTS.
    Short,
    /// XUDT and XUDTS.
    Extended,
    /// LUDT and LUDTS.
    Long,
}

/// Whether a message carries data or returns it.
#[derive(Clone, Copy, PartialEq, Eq, Structural, Debug)]
pub enum SccpHead {
    /// UDT, XUDT, LUDT.
    Data { protocol_class: u8, message_handling: u8 },
    /// UDTS, XUDTS, LUDTS.
    Service { return_cause: u8 },
}

/// A connectionless SCCP message.
#[derive(Clone, Debug, PartialEq, Eq)]
pub struct Unitdata {
    /// The form.
    pub form: SccpForm,
    /// Data or service.
    pub head: SccpHead,
    /// The hop counter of the extended and long forms.
    pub hop_counter: Option<u8>,
    /// The called party address.
    pub called_party: PartyAddress,
    /// The calling party address.
    pub calling_party: PartyAddress,
    /// The user data.
    pub data: Vec<u8>,
    /// The optional part of the extended and long forms, as on the wire.
    pub optional_part: Vec<u8>,
}

/// What an [`Unitdata`] holds.
pub struct MessageModel {
    pub form: SccpForm,
    pub head: SccpHead,
    pub hop_counter: Option<u8>,
    pub called_party: AddressModel,
    pub calling_party: AddressModel,
    pub data: Seq<u8>,
    pub optional_part: Seq<u8>,
}

impl View for Unitdata {
    type V = MessageModel;

    open spec fn view(&self) -> MessageModel {
        MessageModel {
            form: self.form,
            head: self.head,
            hop_counter: self.hop_counter,
            called_party: self.called_party@,
            calling_party: self.calling_party@,
            data: self.data@,
            optional_part: self.optional_part@,
        }
    }
}

impl MessageModel {
    /// The message with other called digits.
    pub open spec fn readdressed(self, digits: Seq<char>) -> MessageModel {
        MessageModel {
            called_party: AddressModel {
                global_title: self.called_party.global_title.with_digits(digits),
                ..self.called_party
            },
            ..self
        }
    }
}

impl Unitdata {
    /// The short form has neither hop counter nor optional part; the others have
    /// a hop counter.
    pub open spec fn wf(&self) -> bool {
        match self.form {
            SccpForm::Short => self.hop_counter is None && self.optional_part@.len() == 0,
            _ => self.hop_counter is Some,
        }
    }
}

/// The outcome of decoding a message.
pub open spec fn message_outcome(r: Result<Unitdata, String>) -> Result<MessageModel, Seq<char>> {
    match r {
        Ok(m) => Ok(m@),
        Err(e) => Err(e@),
    }
}

/// The outcome of encoding.
pub open spec fn octets_outcome(r: Result<Vec<u8>, String>) -> Result<Seq<u8>, Seq<char>> {
    match r {
        Ok(v) => Ok(v@),
        Err(e) => Err(e@),
    }
}

/// `sccp::GlobalTitle`.
#[verifier::external_type_specification]
#[verifier::external_body]
pub struct ExWireTitle(::sccp::GlobalTitle);

/// `sccp::SccpAddress`.
#[verifier::external_type_specification]
#[verifier::external_body]
pub struct ExWireAddress(::sccp::SccpAddress);

/// `sccp::SccpMessage`.
#[verifier::external_type_specification]
#[verifier::external_body]
pub struct ExWireMessage(::sccp::SccpMessage);

/// Moves the fields of an `sccp::GlobalTitle`.
#[verifier::external_body]
fn title_in(t: WireTitle) -> PartyTitle {
    match t {
        WireTitle::NoTitle => PartyTitle::NoTitle,
        WireTitle::Gt0001 { nature_of_address, odd_even, digits } => PartyTitle::Gt0001 { nature_of_address, odd_even, digits },
        WireTitle::Gt0010 { translation_type, digits } => PartyTitle::Gt0010 { translation_type, digits },
        WireTitle::Gt0011 { translation_type, numbering_plan, encoding_scheme, digits } => PartyTitle::Gt0011 { translation_type, numbering_plan, encoding_scheme, digits },
        WireTitle::Gt0100 { translation_type, numbering_plan, encoding_scheme, nature_of_address, digits } => PartyTitle::Gt0100 { translation_type, numbering_plan, encoding_scheme, nature_of_address, digits },
    }
}

/// Moves the fields of an `sccp::SccpAddress`.
#[verifier::external_body]
fn address_in(a: &WireAddress) -> PartyAddress {
    PartyAddress {
        route_on_ssn: a.route_on_ssn,
        point_code: a.point_code,
        ssn: a.ssn.map(|s| s.value()),
        global_title: title_in(a.global_title.clone()),
    }
}

/// Moves the fields into an `sccp::GlobalTitle`.
#[verifier::external_body]
fn title_out(t: PartyTitle) -> WireTitle {
    match t {
        PartyTitle::NoTitle => WireTitle::NoTitle,
        PartyTitle::Gt0001 { nature_of_address, odd_even, digits } => WireTitle::Gt0001 { nature_of_address, odd_even, digits },
        PartyTitle::Gt0010 { translation_type, digits } => WireTitle::Gt0010 { translation_type, digits },
        PartyTitle::Gt0011 { translation_type, numbering_plan, encoding_scheme, digits } => WireTitle::Gt0011 { translation_type, numbering_plan, encoding_scheme, digits },
        PartyTitle::Gt0100 { translation_type, numbering_plan, encoding_scheme, nature_of_address, digits } => WireTitle::Gt0100 { translation_type, numbering_plan, encoding_scheme, nature_of_address, digits },
    }
}

/// Moves the fields into an `sccp::SccpAddress`; the subsystem number goes
/// through `sccp::SubsystemNumber::from_u8`.
#[verifier::external_body]
fn address_out(a: &PartyAddress) -> WireAddress {
    WireAddress {
        route_on_ssn: a.route_on_ssn,
        point_code: a.point_code,
        ssn: a.ssn.map(::sccp::SubsystemNumber::from_u8),
        global_title: title_out(a.global_title.clone()),
    }
}

/// The form of an `sccp::SccpMessage`.
#[verifier::external_body]
fn form_in(m: &WireMessage) -> SccpForm {
    match m {
        WireMessage::Udt(_) => SccpForm::Short,
        WireMessage::Udts(_) => SccpForm::Short,
        WireMessage::Xudt(_) => SccpForm::Extended,
        WireMessage::Xudts(_) => SccpForm::Extended,
        WireMessage::Ludt(_) => SccpForm::Long,
        WireMessage::Ludts(_) => SccpForm::Long,
    }
}

/// The head of an `sccp::SccpMessage`.
#[verifier::external_body]
fn head_in(m: &WireMessage) -> SccpHead {
    match m {
        WireMessage::Udt(m) => SccpHead::Data { protocol_class: m.protocol_class, message_handling: m.message_handling },
        WireMessage::Xudt(m) => SccpHead::Data { protocol_class: m.protocol_class, message_handling: m.message_handling },
        WireMessage::Ludt(m) => SccpHead::Data { protocol_class: m.protocol_class, message_handling: m.message_handling },
        WireMessage::Udts(m) => SccpHead::Service { return_cause: m.return_cause.value() },
        WireMessage::Xudts(m) => SccpHead::Service { return_cause: m.return_cause.value() },
        WireMessage::Ludts(m) => SccpHead::Service { return_cause: m.return_cause.value() },
    }
}

/// The optional part of an `sccp::SccpMessage`.
#[verifier::external_body]
fn optional_in(m: &WireMessage) -> Vec<u8> {
    match m {
        WireMessage::Udt(_) => Vec::new(),
        WireMessage::Udts(_) => Vec::new(),
        WireMessage::Xudt(m) => m.optional_part.clone(),
        WireMessage::Xudts(m) => m.optional_part.clone(),
        WireMessage::Ludt(m) => m.optional_part.clone(),
        WireMessage::Ludts(m) => m.optional_part.clone(),
    }
}

/// What `sccp::SccpMessage::decode` makes of some octets: the message, or the
/// text of its error.
pub uninterp spec fn sccp_decoded(bytes: Seq<u8>) -> Result<MessageModel, Seq<char>>;

/// Calls `sccp::SccpMessage::decode` and moves the fields of what it returns. Of
/// the outcome the contract says only that it is the named one, and that a
/// message has a hop counter exactly in the extended and long forms and an
/// optional part only there, as the outside type has it.
#[verifier::external_body]
fn decode_outside(bytes: &[u8]) -> (r: Result<Unitdata, String>)
    ensures
        message_outcome(r) == sccp_decoded(bytes@),
        r matches Ok(m) ==> m.wf(),
{
    match WireMessage::decode(bytes) {
        Ok(m) => Ok(Unitdata {
            form: form_in(&m),
            head: head_in(&m),
            hop_counter: m.hop_counter(),
            called_party: address_in(m.called_party()),
            calling_party: address_in(m.calling_party()),
            data: m.data().to_vec(),
            optional_part: optional_in(&m),
        }),
        Err(e) => Err(e.to_string()),
    }
}

/// What `sccp::SccpMessage::encode` makes of a message: its octets, or the text
/// of its error.
pub uninterp spec fn sccp_encoded(m: MessageModel) -> Result<Seq<u8>, Seq<char>>;

/// Whether octets, when they decode at all, decode to a message of this form and
/// hop counter that carries data (or returns it).
pub open spec fn reads_back(bytes: Seq<u8>, form: SccpForm, hop_counter: Option<u8>, data: bool) -> bool {
    sccp_decoded(bytes) matches Ok(d) ==> d.form == form && d.hop_counter == hop_counter && (
    d.head is Data) == data
}

/// Calls `sccp::SccpMessage::encode` on a UDT, XUDT or LUDT with these fields.
/// Beside the name of the outcome the contract says that the octets, where they
/// decode, give back the form, the hop counter and that it is a data message:
/// these stand in the leading octets.
#[verifier::external_body]
fn encode_data(form: SccpForm, protocol_class: u8, message_handling: u8, hop_counter: u8, called: &PartyAddress, calling: &PartyAddress, data: &Vec<u8>, optional_part: &Vec<u8>) -> (r: Result<Vec<u8>, String>)
    requires
        form == SccpForm::Short ==> optional_part@.len() == 0,
    ensures
        octets_outcome(r) == sccp_encoded(
            MessageModel {
                form,
                head: SccpHead::Data { protocol_class, message_handling },
                hop_counter: if form == SccpForm::Short {
                    None
                } else {
                    Some(hop_counter)
                },
                called_party: called@,
                calling_party: calling@,
                data: data@,
                optional_part: optional_part@,
            },
        ),
        r matches Ok(v) ==> reads_back(
            v@,
            form,
            if form == SccpForm::Short {
                None
            } else {
                Some(hop_counter)
            },
            true,
        ),
{
    let (called_party, calling_party) = (address_out(called), address_out(calling));
    let (data, optional_part) = (data.clone(), optional_part.clone());
    let m = match form {
        SccpForm::Short => WireMessage::Udt(::sccp::UnitData { protocol_class, message_handling, called_party, calling_party, data }),
        SccpForm::Extended => WireMessage::Xudt(::sccp::ExtendedUnitData { protocol_class, message_handling, hop_counter, called_party, calling_party, data, optional_part }),
        SccpForm::Long => WireMessage::Ludt(::sccp::LongUnitData { protocol_class, message_handling, hop_counter, called_party, calling_party, data, optional_part }),
    };
    m.encode().map_err(|e| e.to_string())
}

/// Calls `sccp::SccpMessage::encode` on a UDTS, XUDTS or LUDTS with these fields;
/// the return cause goes through `sccp::ReturnCause::from_u8`. The contract says
/// of the octets what it says of a data message's.
#[verifier::external_body]
fn encode_service(form: SccpForm, return_cause: u8, hop_counter: u8, called: &PartyAddress, calling: &PartyAddress, data: &Vec<u8>, optional_part: &Vec<u8>) -> (r: Result<Vec<u8>, String>)
    requires
        form == SccpForm::Short ==> optional_part@.len() == 0,
    ensures
        octets_outcome(r) == sccp_encoded(
            MessageModel {
                form,
                head: SccpHead::Service { return_cause },
                hop_counter: if form == SccpForm::Short {
                    None
                } else {
                    Some(hop_counter)
                },
                called_party: called@,
                calling_party: calling@,
                data: data@,
                optional_part: optional_part@,
            },
        ),
        r matches Ok(v) ==> reads_back(
            v@,
            form,
            if form == SccpForm::Short {
                None
            } else {
                Some(hop_counter)
            },
            false,
        ),
{
    let (called_party, calling_party) = (address_out(called), address_out(calling));
    let (data, optional_part) = (data.clone(), optional_part.clone());
    let return_cause = ::sccp::ReturnCause::from_u8(return_cause);
    let m = match form {
        SccpForm::Short => WireMessage::Udts(::sccp::UnitDataService { return_cause, called_party, calling_party, data }),
        SccpForm::Extended => WireMessage::Xudts(::sccp::ExtendedUnitDataService { return_cause, hop_counter, called_party, calling_party, data, optional_part }),
        SccpForm::Long => WireMessage::Ludts(::sccp::LongUnitDataService { return_cause, hop_counter, called_party, calling_party, data, optional_part }),
    };
    m.encode().map_err(|e| e.to_string())
}

impl Unitdata {
    /// Decodes a message.
    pub fn decode(bytes: &[u8]) -> (r: Result<Unitdata, String>)
        ensures
            message_outcome(r) == sccp_decoded(bytes@),
            r matches Ok(m) ==> m.wf(),
    {
        decode_outside(bytes)
    }

    /// Encodes the message.
    pub fn encode(&self) -> (r: Result<Vec<u8>, String>)
        requires
            self.wf(),
        ensures
            octets_outcome(r) == sccp_encoded(self@),
            r matches Ok(v) ==> reads_back(v@, self.form, self.hop_counter, self.head is Data),
    {
        let hop: u8 = match self.hop_counter {
            Some(h) => h,
            None => 0,
        };
        match self.head {
            SccpHead::Data { protocol_class, message_handling } => encode_data(
                self.form,
                protocol_class,
                message_handling,
                hop,
                &self.called_party,
                &self.calling_party,
                &self.data,
                &self.optional_part,
            ),
            SccpHead::Service { return_cause } => encode_service(
                self.form,
                return_cause,
                hop,
                &self.called_party,
                &self.calling_party,
                &self.data,
                &self.optional_part,
            ),
        }
    }

    /// Puts other digits into the called title, if there is one.
    pub fn readdress(&mut self, digits: &str)
        ensures
            final(self)@ == old(self)@.readdressed(digits@),
            old(self).wf() ==> final(self).wf(),
    {
        let title = self.called_party.global_title.with_digits(digits);
        self.called_party.global_title = title;
    }

    /// A UDT of protocol class 0 without special handling.
    pub fn udt(called_party: PartyAddress, calling_party: PartyAddress, data: Vec<u8>) -> (r:
        Unitdata)
        ensures
            r.wf(),
            r@ == (MessageModel {
                form: SccpForm::Short,
                head: SccpHead::Data { protocol_class: 0, message_handling: 0 },
                hop_counter: None,
                called_party: called_party@,
                calling_party: calling_party@,
                data: data@,
                optional_part: Seq::empty(),
            }),
    {
        let r = Unitdata {
            form: SccpForm::Short,
            head: SccpHead::Data { protocol_class: 0, message_handling: 0 },
            hop_counter: None,
            called_party,
            calling_party,
            data,
            optional_part: Vec::new(),
        };
        proof {
            assert(r@.optional_part =~= Seq::empty());
        }
        r
    }
}

} // verus!
