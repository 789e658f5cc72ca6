//! Sans-IO CANopen (CiA 301) protocol stack.
//!
//! The protocol objects hold no clock and do no I/O: received frames go in
//! through `on_frame`, time-driven work runs in `process` or `poll`, which
//! say when they want to run again, and outgoing frames leave through a
//! [`TxSink`]. Timestamps are microseconds that the caller supplies.
//!
//! - [`node`]: one local device, made of [`nmt`], [`heartbeat`], the
//!   [`sdo::SdoServer`] and [`pdo`] over an [`od::ObjectDictionary`].
//! - [`sdo`]: both ends of the SDO protocol, expedited and segmented.
//! - [`runner`]: what a run loop decides while it drives a node.
//! - [`codegen`]: source text of an object dictionary for a device
//!   description; [`example_od`] is a dictionary of that shape.
//! - [`cli`]: arguments and messages of the command line tool.
//! - [`bytes`], [`text`], [`number`]: the common ground.
//! - [`laws`]: what the parts promise together.
//!
//! Each type has a mathematical state, and each operation is a function of
//! that state; the functions named `law_..` say what holds of them together.

use vstd::prelude::*;

pub mod bytes;
pub mod cli;
pub mod cob;
pub mod codegen;
pub mod example_od;
pub mod frame;
pub mod heartbeat;
pub mod laws;
pub mod nmt;
pub mod node;
mod node_id;
pub mod number;
pub mod od;
pub mod pdo;
pub mod runner;
pub mod sdo;
pub mod text;

pub use frame::CanFrame;
pub use node::{Node, ResetCommand};
pub use node_id::NodeId;

use frame::FrameView;

verus! {

/// Monotonic timestamp in microseconds from an arbitrary epoch.
pub type Micros = u64;

/// Sink for frames the protocol stack wants to transmit.
///
/// The caller decides whether that pushes into a bounded queue, a socket or
/// a test vector.
pub trait TxSink {
    /// The frames that were handed to this sink so far, oldest first.
    spec fn sent(&self) -> Seq<FrameView>;

    /// Queue one frame for transmission.
    fn send(&mut self, frame: CanFrame)
        ensures
            final(self).sent() == old(self).sent().push(frame@),
    ;
}

impl TxSink for Vec<CanFrame> {
    open spec fn sent(&self) -> Seq<FrameView> {
        self@.map_values(|frame: CanFrame| frame@)
    }

    fn send(&mut self, frame: CanFrame) {
        self.push(frame);
        assert(self.sent() =~= old(self).sent().push(frame@));
    }
}

} // verus!
