//! The dialogue-termination engine: TCAP transactions for the messages that
//! terminate here.
//!
//! A Begin with a registered operation opens a dialogue and goes to its handler,
//! which answers through a [`Dialogue`] handle: staged components are flushed as a
//! Continue, which keeps the dialogue open, or as an End. A peer's follow-up
//! re-enters the handler. The node can open dialogues of its own too. Dialogues
//! that sit idle, or whose invoke is not answered in time, are aged out.
pub mod engine;
pub mod engine_laws;
pub mod handle;
pub mod handle_laws;
pub mod laws;
pub mod turn;

pub use self::engine::{DialogueEngine, OutgoingBegin, TerminationHandler};
pub use self::handle::{Addressing, Dialogue, Role};
pub use self::turn::{IncomingOp, PeerComponent, PeerTurn};

use self::handle::{outgoing_models, DialogueModel};
use crate::transaction::staged_models;
use vstd::prelude::*;

verus! {

/// The fields of a dialogue are its own; its view says what they hold.
impl View for Dialogue {
    type V = DialogueModel;

    closed spec fn view(&self) -> DialogueModel {
        DialogueModel {
            role: self.role,
            our_tid: self.our_tid@,
            peer_tid: self.peer_tid@,
            ac: self.ac@,
            reply_invoke_id: self.reply_invoke_id,
            next_invoke_id: self.next_invoke_id,
            first_flush_done: self.first_flush_done,
            aare_pending: self.aare_pending,
            closed: self.closed,
            awaiting_op: self.awaiting_op,
            outstanding: self.outstanding,
            addressing: self.addressing@,
            pending: staged_models(self.pending@),
            out: outgoing_models(self.out@),
        }
    }
}

} // verus!
