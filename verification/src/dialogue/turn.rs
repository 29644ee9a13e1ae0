//! What a handler is told: the operation that opened a dialogue, and the
//! components of a peer's follow-up.
use crate::content::view::text_of;
use crate::transaction::{
    arcs, component_models, copy_some, octets, ComponentModel, TcComponent,
};
use vstd::prelude::*;

verus! {

/// The operation that opened a dialogue.
#[derive(Clone, Debug)]
pub struct IncomingOp {
    /// The local operation code.
    pub operation_code: i64,
    /// The invoke id the peer used.
    pub invoke_id: i64,
    /// The argument.
    pub argument: Option<Vec<u8>>,
    /// The application context of the dialogue request.
    pub application_context: Option<Vec<u32>>,
    /// The called subsystem number.
    pub called_ssn: u8,
    /// The calling-party digits.
    pub calling_gt: Option<String>,
    /// The called-party digits.
    pub called_gt: Option<String>,
}

/// What an [`IncomingOp`] holds.
pub struct OpModel {
    pub operation_code: i64,
    pub invoke_id: i64,
    pub argument: Option<Seq<u8>>,
    pub application_context: Option<Seq<u32>>,
    pub called_ssn: u8,
    pub calling_gt: Option<Seq<char>>,
    pub called_gt: Option<Seq<char>>,
}

impl View for IncomingOp {
    type V = OpModel;

    open spec fn view(&self) -> OpModel {
        OpModel {
            operation_code: self.operation_code,
            invoke_id: self.invoke_id,
            argument: octets(self.argument),
            application_context: arcs(self.application_context),
            called_ssn: self.called_ssn,
            calling_gt: text_of(self.calling_gt),
            called_gt: text_of(self.called_gt),
        }
    }
}

/// A component of a peer's follow-up.
#[derive(Clone, Debug, PartialEq, Eq)]
pub enum PeerComponent {
    /// The peer asks for something.
    Invoke { invoke_id: i64, operation_code: i64, argument: Option<Vec<u8>> },
    /// The peer answers an invoke.
    Result { invoke_id: i64, operation_code: Option<i64>, parameter: Option<Vec<u8>> },
    /// The peer refuses an invoke.
    Error { invoke_id: i64, error_code: i64 },
}

/// What a [`PeerComponent`] holds.
pub enum PeerModel {
    Invoke { invoke_id: i64, operation_code: i64, argument: Option<Seq<u8>> },
    Result { invoke_id: i64, operation_code: Option<i64>, parameter: Option<Seq<u8>> },
    Error { invoke_id: i64, error_code: i64 },
}

impl View for PeerComponent {
    type V = PeerModel;

    open spec fn view(&self) -> PeerModel {
        match *self {
            PeerComponent::Invoke { invoke_id, operation_code, argument } => PeerModel::Invoke {
                invoke_id,
                operation_code,
                argument: octets(argument),
            },
            PeerComponent::Result { invoke_id, operation_code, parameter } => PeerModel::Result {
                invoke_id,
                operation_code,
                parameter: octets(parameter),
            },
            PeerComponent::Error { invoke_id, error_code } => PeerModel::Error {
                invoke_id,
                error_code,
            },
        }
    }
}

/// What a list of components holds.
pub open spec fn peer_models(s: Seq<PeerComponent>) -> Seq<PeerModel> {
    s.map_values(|c: PeerComponent| c@)
}

/// A local code, -1 for a global one.
pub open spec fn code_or_global(c: Option<i64>) -> i64 {
    match c {
        Some(v) => v,
        None => -1i64,
    }
}

/// What a received component says to a handler: a reject is an error of unknown
/// code.
pub open spec fn peer_of(c: ComponentModel) -> PeerModel {
    match c {
        ComponentModel::Invoke { invoke_id, operation, parameter } => PeerModel::Invoke {
            invoke_id,
            operation_code: code_or_global(operation),
            argument: parameter,
        },
        ComponentModel::ResultWith { invoke_id, operation, parameter } => PeerModel::Result {
            invoke_id,
            operation_code: Some(code_or_global(operation)),
            parameter,
        },
        ComponentModel::ResultEmpty { invoke_id } => PeerModel::Result {
            invoke_id,
            operation_code: None,
            parameter: None,
        },
        ComponentModel::Error { invoke_id, error } => PeerModel::Error {
            invoke_id,
            error_code: code_or_global(error),
        },
        ComponentModel::Reject { invoke_id } => PeerModel::Error { invoke_id, error_code: -1i64 },
    }
}

/// A local code, -1 for a global one.
pub fn local_op(c: Option<i64>) -> (r: i64)
    ensures
        r == code_or_global(c),
{
    match c {
        Some(v) => v,
        None => -1,
    }
}

/// What a received component says to a handler.
pub fn peer_component(c: &TcComponent) -> (r: PeerComponent)
    ensures
        r@ == peer_of(c@),
{
    match c {
        TcComponent::Invoke { invoke_id, operation, parameter } => PeerComponent::Invoke {
            invoke_id: *invoke_id,
            operation_code: local_op(*operation),
            argument: copy_some(parameter),
        },
        TcComponent::ResultWith { invoke_id, operation, parameter } => PeerComponent::Result {
            invoke_id: *invoke_id,
            operation_code: Some(local_op(*operation)),
            parameter: copy_some(parameter),
        },
        TcComponent::ResultEmpty { invoke_id } => PeerComponent::Result {
            invoke_id: *invoke_id,
            operation_code: None,
            parameter: None,
        },
        TcComponent::Error { invoke_id, error } => PeerComponent::Error {
            invoke_id: *invoke_id,
            error_code: local_op(*error),
        },
        TcComponent::Reject { invoke_id } => PeerComponent::Error {
            invoke_id: *invoke_id,
            error_code: -1,
        },
    }
}

/// Whether a component answers an invoke.
pub fn is_result_or_error(c: &PeerComponent) -> (r: bool)
    ensures
        r == (c@ is Result || c@ is Error),
{
    match c {
        PeerComponent::Invoke { .. } => false,
        PeerComponent::Result { .. } => true,
        PeerComponent::Error { .. } => true,
    }
}

/// A peer's follow-up on an open dialogue.
#[derive(Clone, Debug, PartialEq, Eq)]
pub struct PeerTurn {
    /// Whether the peer closed the dialogue with it.
    pub is_end: bool,
    /// The components.
    pub components: Vec<PeerComponent>,
}

/// What a [`PeerTurn`] holds.
pub struct TurnModel {
    pub is_end: bool,
    pub components: Seq<PeerModel>,
}

impl View for PeerTurn {
    type V = TurnModel;

    open spec fn view(&self) -> TurnModel {
        TurnModel { is_end: self.is_end, components: peer_models(self.components@) }
    }
}

/// The follow-up that some components make.
pub open spec fn turn_of(cs: Seq<ComponentModel>, is_end: bool) -> TurnModel {
    TurnModel { is_end, components: cs.map_values(|c: ComponentModel| peer_of(c)) }
}

impl TurnModel {
    /// A component of the follow-up answers an invoke.
    pub open spec fn answers(self) -> bool {
        exists|i: int|
            0 <= i < self.components.len() && !(#[trigger] self.components[i] is Invoke)
    }
}

impl PeerTurn {
    /// Whether a component of the follow-up answers an invoke.
    pub fn answers(&self) -> (r: bool)
        ensures
            r == self@.answers(),
    {
        let mut i: usize = 0;
        while i < self.components.len()
            invariant
                i <= self.components@.len(),
                forall|k: int| 0 <= k < i ==> (#[trigger] self@.components[k]) is Invoke,
            decreases self.components.len() - i,
        {
            proof {
                assert(self@.components[i as int] == self.components@[i as int]@);
            }
            if is_result_or_error(&self.components[i]) {
                return true;
            }
            i += 1;
        }
        false
    }
}

/// The follow-up that some components make.
pub fn peer_turn(components: &Vec<TcComponent>, is_end: bool) -> (r: PeerTurn)
    ensures
        r@ == turn_of(component_models(components@), is_end),
{
    let ghost cs = component_models(components@);
    let mut out: Vec<PeerComponent> = Vec::new();
    let mut i: usize = 0;
    while i < components.len()
        invariant
            i <= components@.len(),
            cs == component_models(components@),
            out@.len() == i,
            forall|k: int| 0 <= k < i ==> (#[trigger] out@[k])@ == peer_of(cs[k]),
        decreases components.len() - i,
    {
        proof {
            assert(cs[i as int] == components@[i as int]@);
        }
        out.push(peer_component(&components[i]));
        i += 1;
    }
    proof {
        assert(peer_models(out@) =~= cs.map_values(|c: ComponentModel| peer_of(c)));
    }
    PeerTurn { is_end, components: out }
}

/// The first Invoke with a local operation from `from` on: its id, code and
/// argument.
pub open spec fn first_operation(cs: Seq<ComponentModel>, from: int) -> Option<
    (i64, i64, Option<Seq<u8>>),
>
    decreases cs.len() - from,
{
    if from < 0 || from >= cs.len() {
        None
    } else {
        match cs[from] {
            ComponentModel::Invoke { invoke_id, operation: Some(op), parameter } => Some(
                (invoke_id, op, parameter),
            ),
            _ => first_operation(cs, from + 1),
        }
    }
}

/// The first Invoke with a local operation: its id, code and argument.
pub fn as_invoke(components: &Vec<TcComponent>) -> (r: Option<(i64, i64, Option<Vec<u8>>)>)
    ensures
        match r {
            Some(p) => first_operation(component_models(components@), 0) == Some(
                (p.0, p.1, octets(p.2)),
            ),
            None => first_operation(component_models(components@), 0) is None,
        },
{
    let ghost cs = component_models(components@);
    let mut i: usize = 0;
    while i < components.len()
        invariant
            i <= components@.len(),
            cs == component_models(components@),
            first_operation(cs, 0) == first_operation(cs, i as int),
        decreases components.len() - i,
    {
        proof {
            assert(cs[i as int] == components@[i as int]@);
        }
        match &components[i] {
            TcComponent::Invoke { invoke_id, operation, parameter } => {
                match operation {
                    Some(op) => {
                        return Some((*invoke_id, *op, copy_some(parameter)));
                    },
                    None => {},
                }
            },
            _ => {},
        }
        i += 1;
    }
    None
}

} // verus!
