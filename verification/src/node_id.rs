//! CANopen node ids.

use crate::text::{decimal, decimal_text};
use vstd::prelude::*;

verus! {

/// A CANopen node id in the range 1..=127.
///
/// The unconfigured id 0xFF of the layer setting services is deliberately
/// not representable.
#[derive(Debug, Clone, Copy, PartialEq, Eq, Hash, Structural)]
pub struct NodeId(u8);

impl NodeId {
    /// Every id is in range.
    #[verifier::type_invariant]
    pub open spec fn in_range(self) -> bool {
        1 <= self.spec_raw() <= 127
    }

    /// The id as a number.
    pub closed spec fn spec_raw(self) -> u8 {
        self.0
    }

    /// An id is its raw value.
    pub proof fn lemma_raw_is_the_id(a: NodeId, b: NodeId)
        ensures
            a.spec_raw() == b.spec_raw() ==> a == b,
    {
    }

    /// Create a node id, returning `None` unless `1 <= id <= 127`.
    pub fn new(id: u8) -> (node: Option<Self>)
        ensures
            node is Some <==> 1 <= id <= 127,
            node is Some ==> node->0.spec_raw() == id,
    {
        if id >= 1 && id <= 127 {
            Some(Self(id))
        } else {
            None
        }
    }

    /// The raw id value (1..=127).
    pub fn raw(self) -> (id: u8)
        ensures
            id == self.spec_raw(),
            1 <= id <= 127,
    {
        proof {
            use_type_invariant(&self);
        }
        self.0
    }

    /// The id as decimal text.
    pub fn to_text(self) -> (text: String)
        ensures
            text@ == decimal(self.spec_raw() as nat),
    {
        decimal_text(self.0 as u128)
    }
}

} // verus!
