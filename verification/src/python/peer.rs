//! What a script sees of the peer: the opening operation, a follow-up turn, and a
//! decoded message.
use crate::content::view::text_of;
use crate::dialogue::turn::{peer_models, IncomingOp, OpModel, PeerComponent, PeerModel, PeerTurn};
use crate::sccp::gtt::copy_text;
use crate::transaction::{
    component_models, copy_some, has_dtid, has_otid, octets, ComponentModel, ContextModel, TcComponent, TcContext,
    TcKind, TcMessage, TcModel,
};
use crate::transport::msu::copy_octets;
use vstd::prelude::*;
use vstd::string::*;

verus! {

/// The opening operation as a script sees it.
#[derive(Clone, Debug, PartialEq, Eq)]
pub struct PyIncomingOp {
    /// The operation code.
    pub operation_code: i64,
    /// The peer's invoke id.
    pub invoke_id: i64,
    /// The calling title digits.
    pub calling_gt: Option<String>,
    /// The called title digits.
    pub called_gt: Option<String>,
    /// The argument.
    pub argument: Option<Vec<u8>>,
}

impl PyIncomingOp {
    /// It shows an operation's code, id, titles and argument.
    pub open spec fn shows(&self, op: OpModel) -> bool {
        &&& self.operation_code == op.operation_code
        &&& self.invoke_id == op.invoke_id
        &&& text_of(self.calling_gt) == op.calling_gt
        &&& text_of(self.called_gt) == op.called_gt
        &&& octets(self.argument) == op.argument
    }

    /// The view of an opening operation.
    pub fn from_op(op: &IncomingOp) -> (r: PyIncomingOp)
        ensures
            r.shows(op@),
    {
        PyIncomingOp {
            operation_code: op.operation_code,
            invoke_id: op.invoke_id,
            calling_gt: copy_text(&op.calling_gt),
            called_gt: copy_text(&op.called_gt),
            argument: copy_some(&op.argument),
        }
    }

    /// Whether this is a follow-up turn: never.
    pub fn is_peer_turn(&self) -> (r: bool)
        ensures
            !r,
    {
        false
    }
}

// ── Follow-up turns ─────────────────────────────────────────────────────────

/// The kind of a component in a peer's turn.
#[derive(Clone, Copy, PartialEq, Eq, Structural, Debug)]
pub enum PeerKind {
    Invoke,
    Result,
    Error,
}

/// One component of a peer's turn.
#[derive(Clone, Debug, PartialEq, Eq)]
pub struct PeerComp {
    pub kind: PeerKind,
    pub operation_code: Option<i64>,
    pub invoke_id: i64,
    pub parameter: Option<Vec<u8>>,
    pub error_code: Option<i64>,
}

/// What a [`PeerComp`] holds.
pub struct CompModel {
    pub kind: PeerKind,
    pub operation_code: Option<i64>,
    pub invoke_id: i64,
    pub parameter: Option<Seq<u8>>,
    pub error_code: Option<i64>,
}

impl View for PeerComp {
    type V = CompModel;

    open spec fn view(&self) -> CompModel {
        CompModel {
            kind: self.kind,
            operation_code: self.operation_code,
            invoke_id: self.invoke_id,
            parameter: octets(self.parameter),
            error_code: self.error_code,
        }
    }
}

/// A component of a peer's turn, flattened.
pub open spec fn comp_of(c: PeerModel) -> CompModel {
    match c {
        PeerModel::Invoke { invoke_id, operation_code, argument } => CompModel {
            kind: PeerKind::Invoke,
            operation_code: Some(operation_code),
            invoke_id,
            parameter: argument,
            error_code: None,
        },
        PeerModel::Result { invoke_id, operation_code, parameter } => CompModel {
            kind: PeerKind::Result,
            operation_code,
            invoke_id,
            parameter,
            error_code: None,
        },
        PeerModel::Error { invoke_id, error_code } => CompModel {
            kind: PeerKind::Error,
            operation_code: None,
            invoke_id,
            parameter: None,
            error_code: Some(error_code),
        },
    }
}

/// What a list of components holds.
pub open spec fn comp_models(s: Seq<PeerComp>) -> Seq<CompModel> {
    s.map_values(|c: PeerComp| c@)
}

/// A peer's follow-up turn as a script sees it.
#[derive(Clone, Debug, PartialEq, Eq)]
pub struct PyPeerTurn {
    is_end: bool,
    comps: Vec<PeerComp>,
}

/// The first component of a kind from `from` on.
pub open spec fn first_of_kind(cs: Seq<CompModel>, kind: PeerKind, from: int) -> Option<CompModel>
    decreases cs.len() - from,
{
    if from < 0 || from >= cs.len() {
        None
    } else if cs[from].kind == kind {
        Some(cs[from])
    } else {
        first_of_kind(cs, kind, from + 1)
    }
}

/// What an optional component holds.
pub open spec fn maybe_comp(o: Option<&PeerComp>) -> Option<CompModel> {
    match o {
        Some(c) => Some(c@),
        None => None,
    }
}

impl PyPeerTurn {
    /// The components.
    pub closed spec fn components(&self) -> Seq<CompModel> {
        comp_models(self.comps@)
    }

    /// The peer ended the dialogue.
    pub closed spec fn ended(&self) -> bool {
        self.is_end
    }

    /// The view of a peer's turn.
    pub fn from_peer(peer: &PeerTurn) -> (r: PyPeerTurn)
        ensures
            r.ended() == peer@.is_end,
            r.components() == peer@.components.map_values(|c: PeerModel| comp_of(c)),
    {
        let mut comps: Vec<PeerComp> = Vec::new();
        let ghost cs = peer_models(peer.components@);
        let mut i: usize = 0;
        while i < peer.components.len()
            invariant
                i <= peer.components@.len(),
                cs == peer_models(peer.components@),
                comps@.len() == i,
                forall|k: int| 0 <= k < i ==> (#[trigger] comps@[k])@ == comp_of(cs[k]),
            decreases peer.components.len() - i,
        {
            proof {
                assert(cs[i as int] == peer.components@[i as int]@);
            }
            let c = match &peer.components[i] {
                PeerComponent::Invoke { invoke_id, operation_code, argument } => PeerComp {
                    kind: PeerKind::Invoke,
                    operation_code: Some(*operation_code),
                    invoke_id: *invoke_id,
                    parameter: copy_some(argument),
                    error_code: None,
                },
                PeerComponent::Result { invoke_id, operation_code, parameter } => PeerComp {
                    kind: PeerKind::Result,
                    operation_code: *operation_code,
                    invoke_id: *invoke_id,
                    parameter: copy_some(parameter),
                    error_code: None,
                },
                PeerComponent::Error { invoke_id, error_code } => PeerComp {
                    kind: PeerKind::Error,
                    operation_code: None,
                    invoke_id: *invoke_id,
                    parameter: None,
                    error_code: Some(*error_code),
                },
            };
            comps.push(c);
            i += 1;
        }
        let r = PyPeerTurn { is_end: peer.is_end, comps };
        proof {
            assert(r.components() =~= peer@.components.map_values(|c: PeerModel| comp_of(c)));
        }
        r
    }

    fn first(&self) -> (r: Option<&PeerComp>)
        ensures
            maybe_comp(r) == if self.components().len() > 0 {
                Some(self.components()[0])
            } else {
                None
            },
    {
        if self.comps.len() > 0 {
            Some(&self.comps[0])
        } else {
            None
        }
    }

    fn first_of(&self, kind: PeerKind) -> (r: Option<&PeerComp>)
        ensures
            maybe_comp(r) == first_of_kind(self.components(), kind, 0),
    {
        let ghost cs = self.components();
        let mut i: usize = 0;
        while i < self.comps.len()
            invariant
                i <= self.comps@.len(),
                cs == comp_models(self.comps@),
                first_of_kind(cs, kind, 0) == first_of_kind(cs, kind, i as int),
            decreases self.comps.len() - i,
        {
            proof {
                assert(cs[i as int] == self.comps@[i as int]@);
            }
            if self.comps[i].kind == kind {
                return Some(&self.comps[i]);
            }
            i += 1;
        }
        None
    }

    /// Whether this is a follow-up turn: always.
    pub fn is_peer_turn(&self) -> (r: bool)
        ensures
            r,
    {
        true
    }

    /// Whether the peer ended the dialogue.
    pub fn is_end(&self) -> (r: bool)
        ensures
            r == self.ended(),
    {
        self.is_end
    }

    /// The number of components.
    pub fn len(&self) -> (r: usize)
        ensures
            r == self.components().len(),
    {
        self.comps.len()
    }

    /// The operation code of the first component.
    pub fn operation_code(&self) -> (r: Option<i64>)
        ensures
            r == if self.components().len() > 0 {
                self.components()[0].operation_code
            } else {
                None
            },
    {
        match self.first() {
            Some(c) => c.operation_code,
            None => None,
        }
    }

    /// The invoke id of the first component.
    pub fn invoke_id(&self) -> (r: Option<i64>)
        ensures
            r == if self.components().len() > 0 {
                Some(self.components()[0].invoke_id)
            } else {
                None
            },
    {
        match self.first() {
            Some(c) => Some(c.invoke_id),
            None => None,
        }
    }

    /// Whether the peer answered one of our invokes with a result.
    pub fn is_result(&self) -> (r: bool)
        ensures
            r == (first_of_kind(self.components(), PeerKind::Result, 0) is Some),
    {
        self.first_of(PeerKind::Result).is_some()
    }

    /// Whether the peer sent us an Invoke.
    pub fn is_invoke(&self) -> (r: bool)
        ensures
            r == (first_of_kind(self.components(), PeerKind::Invoke, 0) is Some),
    {
        self.first_of(PeerKind::Invoke).is_some()
    }

    /// Whether the peer rejected one of our invokes.
    pub fn is_error(&self) -> (r: bool)
        ensures
            r == (first_of_kind(self.components(), PeerKind::Error, 0) is Some),
    {
        self.first_of(PeerKind::Error).is_some()
    }

    /// The error code of the first error.
    pub fn error_code(&self) -> (r: Option<i64>)
        ensures
            r == match first_of_kind(self.components(), PeerKind::Error, 0) {
                Some(c) => c.error_code,
                None => None,
            },
    {
        match self.first_of(PeerKind::Error) {
            Some(c) => c.error_code,
            None => None,
        }
    }

    /// The parameter of the first result.
    pub fn result(&self) -> (r: Option<Vec<u8>>)
        ensures
            octets(r) == match first_of_kind(self.components(), PeerKind::Result, 0) {
                Some(c) => c.parameter,
                None => None,
            },
    {
        match self.first_of(PeerKind::Result) {
            Some(c) => copy_some(&c.parameter),
            None => None,
        }
    }

    /// The argument of the first Invoke.
    pub fn argument(&self) -> (r: Option<Vec<u8>>)
        ensures
            octets(r) == match first_of_kind(self.components(), PeerKind::Invoke, 0) {
                Some(c) => c.parameter,
                None => None,
            },
    {
        match self.first_of(PeerKind::Invoke) {
            Some(c) => copy_some(&c.parameter),
            None => None,
        }
    }
}

// ── Decoded messages ────────────────────────────────────────────────────────

/// A read-only view of a transaction message.
#[derive(Clone, Debug, PartialEq, Eq)]
pub struct PyDecoded {
    /// The kind of the message.
    pub kind: &'static str,
    /// The originating transaction id, empty if there is none.
    pub otid: Vec<u8>,
    /// The destination transaction id, empty if there is none.
    pub dtid: Vec<u8>,
    /// The application context of the dialogue request or response.
    pub app_context: Option<Vec<u32>>,
    /// Every Invoke with a local operation: its code and argument.
    pub invokes: Vec<(i64, Option<Vec<u8>>)>,
    /// The first result with a local operation: its code and parameter.
    pub result: Option<(i64, Option<Vec<u8>>)>,
    /// The first error with a local code: its invoke id and code.
    pub error: Option<(i64, i64)>,
}

/// The name of a message kind.
pub open spec fn kind_name(k: TcKind) -> Seq<char> {
    match k {
        TcKind::Begin => "begin"@,
        TcKind::Continue => "continue"@,
        TcKind::End => "end"@,
        TcKind::Abort => "abort"@,
        TcKind::Unidirectional => "unidirectional"@,
    }
}

/// The name of a message kind.
pub fn name_of_kind(k: TcKind) -> (r: &'static str)
    ensures
        r@ == kind_name(k),
{
    match k {
        TcKind::Begin => "begin",
        TcKind::Continue => "continue",
        TcKind::End => "end",
        TcKind::Abort => "abort",
        TcKind::Unidirectional => "unidirectional",
    }
}

/// The kind carries a dialogue: a Begin, Continue or End.
pub open spec fn carries_dialogue(k: TcKind) -> bool {
    k == TcKind::Begin || k == TcKind::Continue || k == TcKind::End
}

/// The application context of a request or a response.
pub open spec fn context_arcs(c: ContextModel) -> Option<Seq<u32>> {
    match c {
        ContextModel::Absent => None,
        ContextModel::Request(a) => Some(a),
        ContextModel::Response(a) => Some(a),
    }
}

/// The Invokes with a local operation among the first `n` components.
pub open spec fn local_invokes(cs: Seq<ComponentModel>, n: int) -> Seq<(i64, Option<Seq<u8>>)>
    decreases n,
{
    if n <= 0 {
        Seq::empty()
    } else {
        let before = local_invokes(cs, n - 1);
        match cs[n - 1] {
            ComponentModel::Invoke { invoke_id, operation: Some(op), parameter } => before.push(
                (op, parameter),
            ),
            _ => before,
        }
    }
}

/// The first result with a local operation among the first `n` components.
pub open spec fn local_result(cs: Seq<ComponentModel>, n: int) -> Option<(i64, Option<Seq<u8>>)>
    decreases n,
{
    if n <= 0 {
        None
    } else {
        match local_result(cs, n - 1) {
            Some(r) => Some(r),
            None => match cs[n - 1] {
                ComponentModel::ResultWith { invoke_id, operation: Some(op), parameter } => Some(
                    (op, parameter),
                ),
                _ => None,
            },
        }
    }
}

/// The first error with a local code among the first `n` components.
pub open spec fn local_error(cs: Seq<ComponentModel>, n: int) -> Option<(i64, i64)>
    decreases n,
{
    if n <= 0 {
        None
    } else {
        match local_error(cs, n - 1) {
            Some(r) => Some(r),
            None => match cs[n - 1] {
                ComponentModel::Error { invoke_id, error: Some(code) } => Some((invoke_id, code)),
                _ => None,
            },
        }
    }
}

/// A code with optional octets.
pub open spec fn coded(p: (i64, Option<Vec<u8>>)) -> (i64, Option<Seq<u8>>) {
    (p.0, octets(p.1))
}

/// Codes with optional octets.
pub open spec fn coded_all(s: Seq<(i64, Option<Vec<u8>>)>) -> Seq<(i64, Option<Seq<u8>>)> {
    s.map_values(|p: (i64, Option<Vec<u8>>)| coded(p))
}

/// An optional code with optional octets.
pub open spec fn maybe_coded(o: Option<(i64, Option<Vec<u8>>)>) -> Option<
    (i64, Option<Seq<u8>>),
> {
    match o {
        Some(p) => Some(coded(p)),
        None => None,
    }
}

/// The components a view reads: those of a message that carries a dialogue.
pub open spec fn read_components(t: TcModel) -> Seq<ComponentModel> {
    if carries_dialogue(t.kind) {
        t.components
    } else {
        Seq::empty()
    }
}

impl PyDecoded {
    /// It shows a transaction message.
    pub open spec fn shows(&self, t: TcModel) -> bool {
        let cs = read_components(t);
        let n = cs.len() as int;
        &&& self.kind@ == kind_name(t.kind)
        &&& self.otid@ == if has_otid(t.kind) {
            t.otid
        } else {
            Seq::empty()
        }
        &&& self.dtid@ == if has_dtid(t.kind) {
            t.dtid
        } else {
            Seq::empty()
        }
        &&& crate::transaction::arcs(self.app_context) == if carries_dialogue(t.kind) {
            context_arcs(t.context)
        } else {
            None
        }
        &&& coded_all(self.invokes@) == local_invokes(cs, n)
        &&& maybe_coded(self.result) == local_result(cs, n)
        &&& self.error == local_error(cs, n)
    }

    /// The view of a transaction message. A kind without a dialogue shows its ids
    /// alone, and an id that the kind does not carry shows as empty.
    pub fn from_tcap(msg: &TcMessage) -> (r: PyDecoded)
        ensures
            r.shows(msg@),
    {
        let ghost cs = read_components(msg@);
        let mut invokes: Vec<(i64, Option<Vec<u8>>)> = Vec::new();
        let mut result: Option<(i64, Option<Vec<u8>>)> = None;
        let mut error: Option<(i64, i64)> = None;
        let mut app_context: Option<Vec<u32>> = None;
        let carries = match msg.kind {
            TcKind::Begin => true,
            TcKind::Continue => true,
            TcKind::End => true,
            _ => false,
        };
        let n: usize = if carries {
            msg.components.len()
        } else {
            0
        };
        if carries {
            match &msg.context {
                TcContext::Absent => {},
                TcContext::Request(a) => {
                    app_context = Some(crate::dialogue::handle::copy_arcs(a));
                },
                TcContext::Response(a) => {
                    app_context = Some(crate::dialogue::handle::copy_arcs(a));
                },
            }
        }
        let mut i: usize = 0;
        proof {
            assert(coded_all(invokes@) =~= local_invokes(cs, 0));
        }
        while i < n
            invariant
                i <= n,
                n == cs.len(),
                n <= msg.components@.len(),
                n > 0 ==> cs == component_models(msg.components@),
                coded_all(invokes@) == local_invokes(cs, i as int),
                maybe_coded(result) == local_result(cs, i as int),
                error == local_error(cs, i as int),
            decreases n - i,
        {
            proof {
                assert(cs[i as int] == msg.components@[i as int]@);
            }
            match &msg.components[i] {
                TcComponent::Invoke { invoke_id: _, operation, parameter } => {
                    match operation {
                        Some(op) => {
                            let ghost before = invokes@;
                            let p = (*op, copy_some(parameter));
                            let ghost shown = coded(p);
                            invokes.push(p);
                            proof {
                                assert(coded_all(invokes@) =~= coded_all(before).push(shown));
                            }
                        },
                        None => {},
                    }
                },
                TcComponent::ResultWith { invoke_id: _, operation, parameter } => {
                    if result.is_none() {
                        match operation {
                            Some(op) => {
                                result = Some((*op, copy_some(parameter)));
                            },
                            None => {},
                        }
                    }
                },
                TcComponent::ResultEmpty { .. } => {},
                TcComponent::Error { invoke_id, error: code } => {
                    if error.is_none() {
                        match code {
                            Some(c) => {
                                error = Some((*invoke_id, *c));
                            },
                            None => {},
                        }
                    }
                },
                TcComponent::Reject { .. } => {},
            }
            i += 1;
        }
        PyDecoded {
            kind: name_of_kind(msg.kind),
            otid: match msg.kind {
                TcKind::Begin | TcKind::Continue => copy_octets(&msg.otid),
                _ => Vec::new(),
            },
            dtid: match msg.kind {
                TcKind::Continue | TcKind::End | TcKind::Abort => copy_octets(&msg.dtid),
                _ => Vec::new(),
            },
            app_context,
            invokes,
            result,
            error,
        }
    }
}

} // verus!
