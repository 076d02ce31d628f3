//! Heights and the identity of relay work.
use vstd::prelude::*;

verus! {

/// A block height, tagged with the revision of its chain.
#[derive(Clone, Copy, Debug, PartialEq, Eq, Structural)]
pub struct Height {
    pub revision_number: u64,
    pub revision_height: u64,
}

/// Heights are ordered by revision first, then by height within it.
pub open spec fn height_lt(a: Height, b: Height) -> bool {
    a.revision_number < b.revision_number || (a.revision_number == b.revision_number
        && a.revision_height < b.revision_height)
}

impl Height {
    pub fn new(revision_number: u64, revision_height: u64) -> (r: Height)
        ensures
            r.revision_number == revision_number,
            r.revision_height == revision_height,
    {
        Height { revision_number, revision_height }
    }

    /// `self` comes strictly before `other`.
    pub fn lt(&self, other: &Height) -> (r: bool)
        ensures
            r == height_lt(*self, *other),
    {
        self.revision_number < other.revision_number || (self.revision_number
            == other.revision_number && self.revision_height < other.revision_height)
    }
}

/// A unit of relay work; workers are unique per object.
#[derive(Clone, Debug, PartialEq, Eq)]
pub enum Object {
    Client { dst_chain_id: String, dst_client_id: String, src_chain_id: String },
    Connection { dst_chain_id: String, src_chain_id: String, src_connection_id: String },
    Channel {
        dst_chain_id: String,
        src_chain_id: String,
        src_channel_id: String,
        src_port_id: String,
    },
    Packet {
        src_chain_id: String,
        dst_chain_id: String,
        src_channel_id: String,
        src_port_id: String,
    },
}

/// An object, with each identifier as its characters.
pub enum ObjectView {
    Client { dst_chain_id: Seq<char>, dst_client_id: Seq<char>, src_chain_id: Seq<char> },
    Connection { dst_chain_id: Seq<char>, src_chain_id: Seq<char>, src_connection_id: Seq<char> },
    Channel {
        dst_chain_id: Seq<char>,
        src_chain_id: Seq<char>,
        src_channel_id: Seq<char>,
        src_port_id: Seq<char>,
    },
    Packet {
        src_chain_id: Seq<char>,
        dst_chain_id: Seq<char>,
        src_channel_id: Seq<char>,
        src_port_id: Seq<char>,
    },
}

impl View for Object {
    type V = ObjectView;

    open spec fn view(&self) -> ObjectView {
        match self {
            Object::Client { dst_chain_id, dst_client_id, src_chain_id } => ObjectView::Client {
                dst_chain_id: dst_chain_id@,
                dst_client_id: dst_client_id@,
                src_chain_id: src_chain_id@,
            },
            Object::Connection { dst_chain_id, src_chain_id, src_connection_id } =>
                ObjectView::Connection {
                dst_chain_id: dst_chain_id@,
                src_chain_id: src_chain_id@,
                src_connection_id: src_connection_id@,
            },
            Object::Channel { dst_chain_id, src_chain_id, src_channel_id, src_port_id } =>
                ObjectView::Channel {
                dst_chain_id: dst_chain_id@,
                src_chain_id: src_chain_id@,
                src_channel_id: src_channel_id@,
                src_port_id: src_port_id@,
            },
            Object::Packet { src_chain_id, dst_chain_id, src_channel_id, src_port_id } =>
                ObjectView::Packet {
                src_chain_id: src_chain_id@,
                dst_chain_id: dst_chain_id@,
                src_channel_id: src_channel_id@,
                src_port_id: src_port_id@,
            },
        }
    }
}

impl Object {
    /// Both denote the same unit of work: same kind, same identifiers.
    pub fn same_as(&self, other: &Object) -> (r: bool)
        ensures
            r == (self@ == other@),
    {
        match (self, other) {
            (
                Object::Client { dst_chain_id: a1, dst_client_id: a2, src_chain_id: a3 },
                Object::Client { dst_chain_id: b1, dst_client_id: b2, src_chain_id: b3 },
            ) => *a1 == *b1 && *a2 == *b2 && *a3 == *b3,
            (
                Object::Connection { dst_chain_id: a1, src_chain_id: a2, src_connection_id: a3 },
                Object::Connection { dst_chain_id: b1, src_chain_id: b2, src_connection_id: b3 },
            ) => *a1 == *b1 && *a2 == *b2 && *a3 == *b3,
            (
                Object::Channel {
                    dst_chain_id: a1,
                    src_chain_id: a2,
                    src_channel_id: a3,
                    src_port_id: a4,
                },
                Object::Channel {
                    dst_chain_id: b1,
                    src_chain_id: b2,
                    src_channel_id: b3,
                    src_port_id: b4,
                },
            ) => *a1 == *b1 && *a2 == *b2 && *a3 == *b3 && *a4 == *b4,
            (
                Object::Packet {
                    src_chain_id: a1,
                    dst_chain_id: a2,
                    src_channel_id: a3,
                    src_port_id: a4,
                },
                Object::Packet {
                    src_chain_id: b1,
                    dst_chain_id: b2,
                    src_channel_id: b3,
                    src_port_id: b4,
                },
            ) => *a1 == *b1 && *a2 == *b2 && *a3 == *b3 && *a4 == *b4,
            _ => false,
        }
    }
}

} // verus!
