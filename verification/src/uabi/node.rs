//! Parts of a graph blob: header, nodes and edges, and the entry that submits it.

use crate::bytes::{high_half, low_half, words_to_bytes};
use crate::uabi::dag::{AiGraphEdge, AiGraphNodeId};
use crate::uabi::desc::AiKernelDesc;
use crate::uabi::types::{
    ByteOffset, ByteSize, EdgeCount, GraphFlags, NodeCount, SubmitFlags, UserToken, UserVa,
};
use crate::uabi::version::AI_ABI_VERSION;
use vstd::prelude::*;
use vstd::slice::slice_subrange;

verus! {

/// First word of every graph blob.
pub const AI_GRAPH_MAGIC: u32 = 0x4845_5241;

/// Words of a blob header.
pub const HEADER_WORDS: usize = 7;

/// Words of a node.
pub const NODE_WORDS: usize = 432;

/// Words of an edge.
pub const EDGE_WORDS: usize = 2;

/// Words of a submission entry.
pub const SUBMIT_WORDS: usize = 16;

/// What a submission asks for.
#[derive(Clone, Copy, PartialEq, Eq, Structural, Debug)]
pub struct GraphSubmitKind(pub u32);

impl GraphSubmitKind {
    /// Run a graph.
    pub const GRAPH_SUBMIT: u32 = 1;

    /// Give up a graph.
    pub const CANCEL: u32 = 2;

    /// Ask how a graph is doing.
    pub const QUERY: u32 = 3;

    /// Whether the kind is one of the three above.
    pub open spec fn known(self) -> bool {
        1 <= self.0 <= 3
    }

    /// Whether the kind is one of the three above.
    pub fn is_known(self) -> (r: bool)
        ensures
            r == self.known(),
    {
        1 <= self.0 && self.0 <= 3
    }
}

impl Default for GraphSubmitKind {
    fn default() -> (r: Self)
        ensures
            r == GraphSubmitKind(GraphSubmitKind::GRAPH_SUBMIT),
    {
        GraphSubmitKind(GraphSubmitKind::GRAPH_SUBMIT)
    }
}

/// What goes through the submission channel.
#[derive(Clone, Copy, PartialEq, Eq, Structural, Debug)]
pub struct AiGraphSubmitEntry {
    /// Version of the binary interface.
    pub abi_version: u32,
    /// What is asked for.
    pub submit_kind: GraphSubmitKind,
    /// Kept at zero.
    pub flags: SubmitFlags,
    /// Kept at zero.
    pub reserved0: u32,
    /// Token that the completion hands back.
    pub user_token: UserToken,
    /// Where the user sees the blob.
    pub graph_user_va: UserVa,
    /// Bytes of the blob.
    pub graph_size: ByteSize,
}

impl AiGraphSubmitEntry {
    /// An entry for the current interface version.
    pub fn new(
        user_token: UserToken,
        graph_user_va: UserVa,
        graph_size: ByteSize,
        submit_kind: GraphSubmitKind,
    ) -> (r: Self)
        ensures
            r == (AiGraphSubmitEntry {
                abi_version: AI_ABI_VERSION,
                submit_kind,
                flags: SubmitFlags(0),
                reserved0: 0,
                user_token,
                graph_user_va,
                graph_size,
            }),
    {
        AiGraphSubmitEntry {
            abi_version: AI_ABI_VERSION,
            submit_kind,
            flags: SubmitFlags(0),
            reserved0: 0,
            user_token,
            graph_user_va,
            graph_size,
        }
    }

    /// The words of the entry; padding is zero.
    pub open spec fn words(self) -> Seq<u32> {
        seq![
            self.abi_version, self.submit_kind.0, self.flags.0, self.reserved0, self.user_token.0,
            0u32, crate::bytes::low_word(self.graph_user_va.0),
            crate::bytes::high_word(self.graph_user_va.0),
            crate::bytes::low_word(self.graph_size.0), crate::bytes::high_word(self.graph_size.0),
            0u32, 0u32, 0u32, 0u32, 0u32, 0u32,
        ]
    }

    /// The entry that the words say.
    pub open spec fn of_words(words: Seq<u32>) -> Self {
        AiGraphSubmitEntry {
            abi_version: words[0],
            submit_kind: GraphSubmitKind(words[1]),
            flags: SubmitFlags(words[2]),
            reserved0: words[3],
            user_token: UserToken(words[4]),
            graph_user_va: UserVa(crate::bytes::double_word(words[6], words[7])),
            graph_size: ByteSize(crate::bytes::double_word(words[8], words[9])),
        }
    }

    /// The bytes that are sent. An entry always fits in a message.
    pub fn to_le_byte(&self) -> (r: Option<Vec<u8>>)
        ensures
            r is Some,
            r->0@ == crate::bytes::bytes_of_words(self.words()),
            r->0@.len() == 64,
    {
        let words: Vec<u32> = vec![
            self.abi_version, self.submit_kind.0, self.flags.0, self.reserved0, self.user_token.0,
            0, low_half(self.graph_user_va.0), high_half(self.graph_user_va.0),
            low_half(self.graph_size.0), high_half(self.graph_size.0),
            0, 0, 0, 0, 0, 0,
        ];
        assert(words@ =~= self.words());
        Some(words_to_bytes(&words))
    }
}

/// An entry can be read back from the bytes that were sent.
pub proof fn submit_entry_survives_bytes(entry: AiGraphSubmitEntry)
    ensures
        AiGraphSubmitEntry::of_words(
            crate::bytes::words_at(crate::bytes::bytes_of_words(entry.words()), 0, 16),
        ) == entry,
{
    broadcast use crate::bytes::double_word_of_halves;

    crate::bytes::words_survive_bytes(entry.words());
}

impl Default for AiGraphSubmitEntry {
    fn default() -> (r: Self)
        ensures
            r == (AiGraphSubmitEntry {
                abi_version: AI_ABI_VERSION,
                submit_kind: GraphSubmitKind(GraphSubmitKind::GRAPH_SUBMIT),
                flags: SubmitFlags(0),
                reserved0: 0,
                user_token: UserToken(0),
                graph_user_va: UserVa(0),
                graph_size: ByteSize(0),
            }),
    {
        AiGraphSubmitEntry::new(
            UserToken(0),
            UserVa(0),
            ByteSize(0),
            GraphSubmitKind(GraphSubmitKind::GRAPH_SUBMIT),
        )
    }
}

/// Front of a graph blob.
#[derive(Clone, Copy, PartialEq, Eq, Structural, Debug)]
pub struct AiGraphHeader {
    /// `AI_GRAPH_MAGIC`.
    pub magic: u32,
    /// Bytes of the whole blob.
    pub total_size: ByteOffset,
    /// Kept at zero.
    pub flags: GraphFlags,
    /// Number of nodes.
    pub node_count: NodeCount,
    /// Number of edges.
    pub edge_count: EdgeCount,
    /// Where the nodes start.
    pub nodes_offset: ByteOffset,
    /// Where the edges start.
    pub edges_offset: ByteOffset,
}

impl AiGraphHeader {
    /// The words of the header.
    pub open spec fn words(self) -> Seq<u32> {
        seq![
            self.magic, self.total_size.0, self.flags.0, self.node_count.0, self.edge_count.0,
            self.nodes_offset.0, self.edges_offset.0,
        ]
    }

    /// The header that the words say.
    pub open spec fn of_words(words: Seq<u32>) -> Self {
        AiGraphHeader {
            magic: words[0],
            total_size: ByteOffset(words[1]),
            flags: GraphFlags(words[2]),
            node_count: NodeCount(words[3]),
            edge_count: EdgeCount(words[4]),
            nodes_offset: ByteOffset(words[5]),
            edges_offset: ByteOffset(words[6]),
        }
    }

    /// The words of the header.
    pub fn to_words(&self) -> (r: Vec<u32>)
        ensures
            r@ == self.words(),
    {
        let r: Vec<u32> = vec![
            self.magic, self.total_size.0, self.flags.0, self.node_count.0, self.edge_count.0,
            self.nodes_offset.0, self.edges_offset.0,
        ];
        assert(r@ =~= self.words());
        r
    }

    /// The header that the words say.
    pub fn from_words(words: &[u32]) -> (r: Self)
        requires
            words@.len() == HEADER_WORDS,
        ensures
            r == AiGraphHeader::of_words(words@),
    {
        AiGraphHeader {
            magic: words[0],
            total_size: ByteOffset(words[1]),
            flags: GraphFlags(words[2]),
            node_count: NodeCount(words[3]),
            edge_count: EdgeCount(words[4]),
            nodes_offset: ByteOffset(words[5]),
            edges_offset: ByteOffset(words[6]),
        }
    }
}

impl Default for AiGraphHeader {
    fn default() -> (r: Self)
        ensures
            r == AiGraphHeader::of_words(Seq::new(7, |i: int| 0u32)),
    {
        AiGraphHeader {
            magic: 0,
            total_size: ByteOffset(0),
            flags: GraphFlags(0),
            node_count: NodeCount(0),
            edge_count: EdgeCount(0),
            nodes_offset: ByteOffset(0),
            edges_offset: ByteOffset(0),
        }
    }
}

/// How far a node has come.
#[derive(Clone, Copy, PartialEq, Eq, Structural, Debug)]
pub struct AiGraphState {
    /// One once the node has run.
    pub complete: u8,
    /// Zero, or the code of the backend error.
    pub error_flag: u8,
}

impl Default for AiGraphState {
    fn default() -> (r: Self)
        ensures
            r == (AiGraphState { complete: 0, error_flag: 0 }),
    {
        AiGraphState { complete: 0, error_flag: 0 }
    }
}

/// A kernel with its place in a graph.
#[derive(Clone, Copy, Debug)]
pub struct AiGraphNode {
    /// Its id: its index in the graph.
    pub node_id: AiGraphNodeId,
    /// What it runs.
    pub desc: AiKernelDesc,
    /// How far it has come.
    pub state: AiGraphState,
}

impl AiGraphNode {
    /// Word `i` of the node; padding is zero.
    pub open spec fn word(self, i: int) -> u32 {
        if i == 0 {
            self.node_id.0
        } else if 16 <= i < 416 {
            self.desc.words()[i - 16]
        } else if i == 416 {
            crate::bytes::word_of(self.state.complete, self.state.error_flag, 0, 0)
        } else {
            0
        }
    }

    /// The words of the node.
    pub open spec fn words(self) -> Seq<u32> {
        Seq::new(432, |i: int| self.word(i))
    }

    /// The node is what the words say; padding does not matter.
    pub open spec fn read_from(self, words: Seq<u32>) -> bool {
        &&& self.node_id.0 == words[0]
        &&& self.desc.read_from(words.subrange(16, 416))
        &&& self.state.complete == crate::bytes::byte_of(words[416], 0)
        &&& self.state.error_flag == crate::bytes::byte_of(words[416], 1)
    }

    /// The words hold every field: only one node can be read from them.
    pub proof fn words_hold_fields(self, back: Self)
        requires
            back.read_from(self.words()),
        ensures
            back == self,
    {
        crate::bytes::bytes_of_word(self.state.complete, self.state.error_flag, 0, 0);
        assert(self.desc.words().len() == 400);
        assert(self.words().subrange(16, 416) =~= self.desc.words());
        self.desc.words_hold_fields(back.desc);
    }

    /// The words of the node.
    pub fn to_words(&self) -> (r: Vec<u32>)
        ensures
            r@ == self.words(),
            r@.len() == NODE_WORDS,
    {
        let mut out: Vec<u32> = Vec::new();
        out.push(self.node_id.0);
        let mut i: usize = 1;
        while i < 16
            invariant
                1 <= i <= 16,
                out@.len() == i,
                forall|j: int| 0 <= j < i ==> out@[j] == self.word(j),
            decreases 16 - i,
        {
            out.push(0);
            i = i + 1;
        }
        let mut desc: Vec<u32> = self.desc.to_words();
        let ghost body = desc@;
        let ghost front = out@;
        out.append(&mut desc);
        assert(out@ =~= front + body);
        let state: u32 = (self.state.complete as u32) | ((self.state.error_flag as u32) << 8) | ((
        0u8 as u32) << 16) | ((0u8 as u32) << 24);
        out.push(state);
        let mut i: usize = 417;
        while i < 432
            invariant
                417 <= i <= 432,
                out@.len() == i,
                forall|j: int| 0 <= j < i ==> out@[j] == self.word(j),
            decreases 432 - i,
        {
            out.push(0);
            i = i + 1;
        }
        assert(out@ =~= self.words());
        out
    }

    /// The node that the words say.
    pub fn from_words(words: &[u32]) -> (r: Self)
        requires
            words@.len() == NODE_WORDS,
        ensures
            r.read_from(words@),
    {
        let body: &[u32] = slice_subrange(words, 16, 416);
        AiGraphNode {
            node_id: AiGraphNodeId(words[0]),
            desc: AiKernelDesc::from_words(body),
            state: AiGraphState { complete: words[416] as u8, error_flag: (words[416] >> 8) as u8 },
        }
    }
}

impl Default for AiGraphNode {
    fn default() -> (r: Self)
        ensures
            r.node_id == AiGraphNodeId(0),
            r.state == (AiGraphState { complete: 0, error_flag: 0 }),
            r.desc.op.0 == 0,
            r.desc.input_count.0 == 0,
            r.desc.output_count.0 == 0,
    {
        AiGraphNode {
            node_id: AiGraphNodeId(0),
            desc: AiKernelDesc::default(),
            state: AiGraphState { complete: 0, error_flag: 0 },
        }
    }
}

/// Word `i` of an edge.
pub open spec fn edge_word(edge: AiGraphEdge, i: int) -> u32 {
    if i == 0 {
        edge.from_node.0
    } else {
        edge.to_node.0
    }
}

/// The edge that two words say.
pub open spec fn edge_of_words(words: Seq<u32>) -> AiGraphEdge {
    AiGraphEdge { from_node: AiGraphNodeId(words[0]), to_node: AiGraphNodeId(words[1]) }
}

} // verus!
