//! What the launcher asks of the durable asset store, and a model of the
//! store's content against which those requests can be followed.

use vstd::prelude::*;

verus! {

/// A request to the durable asset store.
#[derive(Debug, PartialEq, Eq)]
pub enum StoreAction {
    /// Keep `bytes` under `key`, replacing what the key held.
    Put { key: String, bytes: Vec<u8> },
    /// Forget every key.
    Clear,
}

/// What a request to the store says, apart from the buffers that carry it.
pub enum StoreOp {
    Put { key: Seq<char>, bytes: Seq<u8> },
    Clear,
}

impl View for StoreAction {
    type V = StoreOp;

    open spec fn view(&self) -> StoreOp {
        match *self {
            StoreAction::Put { key, bytes } => StoreOp::Put { key: key@, bytes: bytes@ },
            StoreAction::Clear => StoreOp::Clear,
        }
    }
}

/// What a list of requests says, request by request.
pub open spec fn ops_of(actions: Seq<StoreAction>) -> Seq<StoreOp> {
    actions.map_values(|action: StoreAction| action@)
}

impl StoreOp {
    /// The content of a store once it has carried this request out.
    pub open spec fn apply(self, content: Map<Seq<char>, Seq<u8>>) -> Map<Seq<char>, Seq<u8>> {
        match self {
            StoreOp::Put { key, bytes } => content.insert(key, bytes),
            StoreOp::Clear => Map::empty(),
        }
    }
}

/// The content of a store once it has carried out a list of requests, first
/// to last.
pub open spec fn apply_all(content: Map<Seq<char>, Seq<u8>>, ops: Seq<StoreOp>) -> Map<
    Seq<char>,
    Seq<u8>,
>
    decreases ops.len(),
{
    if ops.len() == 0 {
        content
    } else {
        ops.last().apply(apply_all(content, ops.drop_last()))
    }
}

/// A copy of a byte buffer.
pub fn copy_bytes(bytes: &Vec<u8>) -> (copy: Vec<u8>)
    ensures
        copy@ == bytes@,
{
    let copy = bytes.clone();
    assert(copy@ =~= bytes@);
    copy
}

} // verus!
