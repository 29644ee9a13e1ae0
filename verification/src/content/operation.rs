//! The MAP/CAP operations content rules can name.
use crate::text::same;
use vstd::prelude::*;

verus! {

/// A MAP/CAP operation that a content rule can match on.
#[derive(Clone, Copy, PartialEq, Eq, Structural, Debug, Hash)]
pub enum Operation {
    /// MAP `sendRoutingInfoForSM` (45).
    SriSm,
    /// MAP `mo-ForwardSM` (46).
    MoForwardSm,
    /// MAP `mt-ForwardSM` (44).
    MtForwardSm,
    /// MAP `updateLocation` (2).
    UpdateLocation,
    /// MAP `cancelLocation` (3).
    CancelLocation,
    /// MAP `sendAuthenticationInfo` (56).
    SendAuthInfo,
    /// MAP `insertSubscriberData` (7).
    InsertSubscriberData,
    /// MAP `provideSubscriberInfo` (70).
    ProvideSubscriberInfo,
    /// CAMEL `initialDP` (0).
    InitialDp,
    /// CAMEL `connect` (20).
    Connect,
}

/// The kebab-case name of an operation.
pub open spec fn kebab(op: Operation) -> Seq<char> {
    match op {
        Operation::SriSm => "sri-sm"@,
        Operation::MoForwardSm => "mo-forward-sm"@,
        Operation::MtForwardSm => "mt-forward-sm"@,
        Operation::UpdateLocation => "update-location"@,
        Operation::CancelLocation => "cancel-location"@,
        Operation::SendAuthInfo => "send-auth-info"@,
        Operation::InsertSubscriberData => "insert-subscriber-data"@,
        Operation::ProvideSubscriberInfo => "provide-subscriber-info"@,
        Operation::InitialDp => "initial-dp"@,
        Operation::Connect => "connect"@,
    }
}

/// A CAMEL operation, rather than a MAP one.
pub open spec fn camel(op: Operation) -> bool {
    op == Operation::InitialDp || op == Operation::Connect
}

/// The operation with this kebab-case name, if there is one.
pub open spec fn operation_named(s: Seq<char>) -> Option<Operation> {
    if exists|op: Operation| kebab(op) == s {
        Some(choose|op: Operation| kebab(op) == s)
    } else {
        None
    }
}

/// The local operation code of an operation (TS 29.002 and TS 29.078).
pub open spec fn code_of(op: Operation) -> i64 {
    match op {
        Operation::SriSm => 45,
        Operation::MoForwardSm => 46,
        Operation::MtForwardSm => 44,
        Operation::UpdateLocation => 2,
        Operation::CancelLocation => 3,
        Operation::SendAuthInfo => 56,
        Operation::InsertSubscriberData => 7,
        Operation::ProvideSubscriberInfo => 70,
        Operation::InitialDp => 0,
        Operation::Connect => 20,
    }
}

/// The operation with this code, if there is one.
pub open spec fn operation_of_code(code: i64) -> Option<Operation> {
    if exists|op: Operation| code_of(op) == code {
        Some(choose|op: Operation| code_of(op) == code)
    } else {
        None
    }
}

/// No two operations share a name.
pub proof fn law_names_are_distinct(a: Operation, b: Operation)
    requires
        kebab(a) == kebab(b),
    ensures
        a == b,
{
    reveal_strlit("sri-sm");
    reveal_strlit("mo-forward-sm");
    reveal_strlit("mt-forward-sm");
    reveal_strlit("update-location");
    reveal_strlit("cancel-location");
    reveal_strlit("send-auth-info");
    reveal_strlit("insert-subscriber-data");
    reveal_strlit("provide-subscriber-info");
    reveal_strlit("initial-dp");
    reveal_strlit("connect");
    assert("sri-sm"@.len() == 6);
    assert("mo-forward-sm"@.len() == 13);
    assert("mt-forward-sm"@.len() == 13);
    assert("mo-forward-sm"@[1] == 'o');
    assert("mt-forward-sm"@[1] == 't');
    assert("update-location"@.len() == 15);
    assert("cancel-location"@.len() == 15);
    assert("update-location"@[0] == 'u');
    assert("cancel-location"@[0] == 'c');
    assert("send-auth-info"@.len() == 14);
    assert("insert-subscriber-data"@.len() == 22);
    assert("provide-subscriber-info"@.len() == 23);
    assert("initial-dp"@.len() == 10);
    assert("connect"@.len() == 7);
}

/// An operation is found again under its own name.
pub proof fn law_name_round_trip(op: Operation)
    ensures
        operation_named(kebab(op)) == Some(op),
{
    assert forall|o: Operation| kebab(o) == kebab(op) implies o == op by {
        law_names_are_distinct(o, op);
    }
}

/// An operation is found again under its own code: the codes are distinct.
pub proof fn law_code_round_trip(op: Operation)
    ensures
        operation_of_code(code_of(op)) == Some(op),
{
    assert forall|o: Operation| code_of(o) == code_of(op) implies o == op by {}
}

impl Operation {
    /// The operation with this kebab-case name, or `None` if there is none.
    pub fn from_kebab(s: &str) -> (r: Option<Operation>)
        ensures
            r == operation_named(s@),
    {
        let r = if same(s, "sri-sm") {
            Some(Operation::SriSm)
        } else if same(s, "mo-forward-sm") {
            Some(Operation::MoForwardSm)
        } else if same(s, "mt-forward-sm") {
            Some(Operation::MtForwardSm)
        } else if same(s, "update-location") {
            Some(Operation::UpdateLocation)
        } else if same(s, "cancel-location") {
            Some(Operation::CancelLocation)
        } else if same(s, "send-auth-info") {
            Some(Operation::SendAuthInfo)
        } else if same(s, "insert-subscriber-data") {
            Some(Operation::InsertSubscriberData)
        } else if same(s, "provide-subscriber-info") {
            Some(Operation::ProvideSubscriberInfo)
        } else if same(s, "initial-dp") {
            Some(Operation::InitialDp)
        } else if same(s, "connect") {
            Some(Operation::Connect)
        } else {
            None
        };
        proof {
            match r {
                Some(op) => law_name_round_trip(op),
                None => {
                    assert forall|op: Operation| kebab(op) != s@ by {}
                },
            }
        }
        r
    }

    /// The local operation code. MAP and CAP codes overlap numerically in
    /// general; the ten codes here are distinct.
    pub fn op_code(self) -> (r: i64)
        ensures
            r == code_of(self),
    {
        match self {
            Operation::SriSm => 45,
            Operation::MoForwardSm => 46,
            Operation::MtForwardSm => 44,
            Operation::UpdateLocation => 2,
            Operation::CancelLocation => 3,
            Operation::SendAuthInfo => 56,
            Operation::InsertSubscriberData => 7,
            Operation::ProvideSubscriberInfo => 70,
            Operation::InitialDp => 0,
            Operation::Connect => 20,
        }
    }

    /// The operation with this local operation code, or `None` if it is not one
    /// that content rules know. The reverse of [`Operation::op_code`].
    pub fn from_op_code(code: i64) -> (r: Option<Operation>)
        ensures
            r == operation_of_code(code),
    {
        let r = match code {
            45 => Some(Operation::SriSm),
            46 => Some(Operation::MoForwardSm),
            44 => Some(Operation::MtForwardSm),
            2 => Some(Operation::UpdateLocation),
            3 => Some(Operation::CancelLocation),
            56 => Some(Operation::SendAuthInfo),
            7 => Some(Operation::InsertSubscriberData),
            70 => Some(Operation::ProvideSubscriberInfo),
            0 => Some(Operation::InitialDp),
            20 => Some(Operation::Connect),
            _ => None,
        };
        proof {
            match r {
                Some(op) => law_code_round_trip(op),
                None => {
                    assert forall|op: Operation| code_of(op) != code by {}
                },
            }
        }
        r
    }

    /// Whether this is a CAMEL operation rather than a MAP one. A content rule may
    /// only name operations of its declared protocol.
    pub fn is_cap(self) -> (r: bool)
        ensures
            r == camel(self),
    {
        match self {
            Operation::InitialDp => true,
            Operation::Connect => true,
            _ => false,
        }
    }
}

} // verus!
