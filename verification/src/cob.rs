//! Default COB-IDs (communication object identifiers) of CiA 301, the
//! "pre-defined connection set".

use crate::node_id::NodeId;
use vstd::prelude::*;

verus! {

/// NMT service (master -> all slaves), id 0x000.
pub const NMT_SERVICE: u16 = 0x000;

/// SYNC object, id 0x080.
pub const SYNC: u16 = 0x080;

/// TIME object, id 0x100.
pub const TIME: u16 = 0x100;

/// The functions that a node owns an identifier for.
pub enum Function {
    Emcy,
    Tpdo1,
    Rpdo1,
    SdoTx,
    SdoRx,
    Heartbeat,
}

/// The identifier range of a function starts here; the node id is added to it.
pub open spec fn base(function: Function) -> u16 {
    match function {
        Function::Emcy => 0x080,
        Function::Tpdo1 => 0x180,
        Function::Rpdo1 => 0x200,
        Function::SdoTx => 0x580,
        Function::SdoRx => 0x600,
        Function::Heartbeat => 0x700,
    }
}

/// The identifier that node `node` uses for `function`.
pub open spec fn cob_id(function: Function, node: u8) -> u16 {
    (base(function) + node) as u16
}

/// Emergency object of a node: 0x080 + node id.
pub fn emcy(node: NodeId) -> (id: u16)
    ensures
        id == cob_id(Function::Emcy, node.spec_raw()),
{
    0x080 + node.raw() as u16
}

/// First transmit PDO of a node: 0x180 + node id.
pub fn tpdo1(node: NodeId) -> (id: u16)
    ensures
        id == cob_id(Function::Tpdo1, node.spec_raw()),
{
    0x180 + node.raw() as u16
}

/// First receive PDO of a node: 0x200 + node id.
pub fn rpdo1(node: NodeId) -> (id: u16)
    ensures
        id == cob_id(Function::Rpdo1, node.spec_raw()),
{
    0x200 + node.raw() as u16
}

/// SDO response, server -> client ("tx" from the server's view): 0x580 + server node id.
pub fn sdo_tx(server: NodeId) -> (id: u16)
    ensures
        id == cob_id(Function::SdoTx, server.spec_raw()),
        id <= 0x7FF,
{
    0x580 + server.raw() as u16
}

/// SDO request, client -> server ("rx" from the server's view): 0x600 + server node id.
pub fn sdo_rx(server: NodeId) -> (id: u16)
    ensures
        id == cob_id(Function::SdoRx, server.spec_raw()),
        id <= 0x7FF,
        id != NMT_SERVICE,
{
    0x600 + server.raw() as u16
}

/// Heartbeat / boot-up message of a node: 0x700 + node id.
pub fn heartbeat(node: NodeId) -> (id: u16)
    ensures
        id == cob_id(Function::Heartbeat, node.spec_raw()),
        id <= 0x7FF,
{
    0x700 + node.raw() as u16
}

/// The pre-defined connection set is collision free: two nodes never share an
/// identifier, a node uses different identifiers for different functions, and
/// every identifier is a non-zero 11-bit one that is neither the SYNC nor the
/// TIME object.
pub proof fn law_connection_set_is_collision_free(f: Function, a: u8, g: Function, b: u8)
    requires
        1 <= a <= 127,
        1 <= b <= 127,
    ensures
        cob_id(f, a) == cob_id(g, b) ==> f == g && a == b,
        NMT_SERVICE < cob_id(f, a) <= 0x7FF,
        cob_id(f, a) != SYNC,
        cob_id(f, a) != TIME,
{
}

} // verus!
