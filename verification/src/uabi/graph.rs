//! Graph blobs: building, freezing and parsing.
//!
//! A blob is a header, the nodes from byte 64 on and then the edges.

use crate::bytes::{read_words, words_to_bytes};
use crate::memory::buffer_address;
use crate::uabi::dag::{has_cycle, AiGraphEdge, AiGraphNodeId};
use crate::uabi::node::{
    AiGraphHeader, AiGraphNode, AiGraphSubmitEntry, GraphSubmitKind, AI_GRAPH_MAGIC, HEADER_WORDS,
    NODE_WORDS,
};
use crate::uabi::types::{
    AbiTypeError, ByteOffset, ByteSize, EdgeCount, GraphFlags, NodeCount, UserToken, UserVa,
};
use std::ops::Range;
use vstd::prelude::*;

verus! {

/// Bytes of a node in a blob.
pub const NODE_BYTES: usize = 1728;

/// Bytes of an edge in a blob.
pub const EDGE_BYTES: usize = 8;

/// What can go wrong while a graph is built.
#[derive(Clone, Copy, PartialEq, Eq, Structural, Debug)]
pub enum AiGraphBuildError {
    /// The number of nodes does not fit.
    TooManyNodes,
    /// The number of edges does not fit.
    TooManyEdges,
    /// A dependency names a node that does not exist.
    InvalidDepend(AiGraphNodeId),
    /// The dependencies go round in a circle.
    CycleDetected,
    /// The size of the blob does not fit.
    SizeOverflow,
}

/// A part of a blob.
#[derive(Clone, Copy, PartialEq, Eq, Structural, Debug)]
pub enum GraphSection {
    /// The nodes.
    Nodes,
    /// The edges.
    Edges,
}

/// What can go wrong while a blob is parsed.
#[derive(Clone, Copy, PartialEq, Eq, Structural, Debug)]
pub enum AiGraphParseError {
    /// The bytes cannot hold what they should.
    TooSmall,
    /// The first word is not `AI_GRAPH_MAGIC`.
    BadMagic(u32),
    /// The blob is of another interface version.
    BadAbi(u32),
    /// The header gives another size than the blob has.
    SizeMismatch {
        /// Size in the header.
        header_size: ByteOffset,
        /// Size of the blob.
        actual_size: usize,
    },
    /// A part does not lie within the blob.
    SectionOutOfRange {
        /// The part.
        section: GraphSection,
        /// Where it starts.
        offset: ByteOffset,
        /// Its size in bytes.
        size: usize,
        /// Size of the blob.
        total_size: usize,
    },
    /// A size does not fit.
    CountOverflow,
}

/// Every node has its index as its id.
pub open spec fn ids_in_order(nodes: Seq<AiGraphNode>) -> bool {
    forall|i: int| 0 <= i < nodes.len() ==> (#[trigger] nodes[i]).node_id.0 == i
}

/// Node `i` is the first whose id is not its index.
pub open spec fn first_bad_node(nodes: Seq<AiGraphNode>, i: int) -> bool {
    &&& 0 <= i < nodes.len()
    &&& nodes[i].node_id.0 != i
    &&& forall|j: int| 0 <= j < i ==> (#[trigger] nodes[j]).node_id.0 == j
}

/// Edge `i` is the first that does not join two of the first `n` nodes.
pub open spec fn first_bad_edge(edges: Seq<AiGraphEdge>, n: int, i: int) -> bool {
    &&& 0 <= i < edges.len()
    &&& !(edges[i].from_node.0 < n && edges[i].to_node.0 < n)
    &&& forall|j: int|
        0 <= j < i ==> (#[trigger] edges[j]).from_node.0 < n && edges[j].to_node.0 < n
}

/// The end of an edge that is not one of the first `n` nodes, the source before the target.
pub open spec fn bad_end(edge: AiGraphEdge, n: int) -> AiGraphNodeId {
    if edge.from_node.0 < n {
        edge.to_node
    } else {
        edge.from_node
    }
}

/// Words of a blob with `n` nodes and `m` edges.
pub open spec fn blob_len(n: int, m: int) -> int {
    16 + 432 * n + 2 * m
}

/// Header of a blob with `n` nodes and `m` edges.
pub open spec fn blob_header(n: int, m: int) -> AiGraphHeader {
    AiGraphHeader {
        magic: AI_GRAPH_MAGIC,
        total_size: ByteOffset((4 * blob_len(n, m)) as u32),
        flags: GraphFlags(0),
        node_count: NodeCount(n as u32),
        edge_count: EdgeCount(m as u32),
        nodes_offset: ByteOffset(64),
        edges_offset: ByteOffset((64 + 1728 * n) as u32),
    }
}

/// Word `i` of the blob that holds the nodes and edges.
pub open spec fn blob_word(nodes: Seq<AiGraphNode>, edges: Seq<AiGraphEdge>, i: int) -> u32 {
    let n = nodes.len() as int;
    if i < 7 {
        blob_header(n, edges.len() as int).words()[i]
    } else if i < 16 {
        0
    } else if i < 16 + 432 * n {
        nodes[(i - 16) / 432].word((i - 16) % 432)
    } else {
        crate::uabi::node::edge_word(edges[(i - 16 - 432 * n) / 2], (i - 16 - 432 * n) % 2)
    }
}

/// The words of the blob that holds the nodes and edges.
pub open spec fn blob_words(nodes: Seq<AiGraphNode>, edges: Seq<AiGraphEdge>) -> Seq<u32> {
    Seq::new(
        blob_len(nodes.len() as int, edges.len() as int) as nat,
        |i: int| blob_word(nodes, edges, i),
    )
}

/// The bytes of the blob that holds the nodes and edges.
pub open spec fn blob_bytes(nodes: Seq<AiGraphNode>, edges: Seq<AiGraphEdge>) -> Seq<u8> {
    crate::bytes::bytes_of_words(blob_words(nodes, edges))
}

/// The nodes and edges make a graph: ids in order, edges between nodes, no cycle.
pub open spec fn valid_graph(nodes: Seq<AiGraphNode>, edges: Seq<AiGraphEdge>) -> bool {
    &&& ids_in_order(nodes)
    &&& crate::uabi::dag::within(edges, nodes.len() as int)
    &&& !crate::uabi::dag::cyclic(edges)
}

/// `err` is what is wrong with the graph, the first thing that a reader meets: the
/// first node out of place, else the first edge that leaves the graph, else a cycle.
pub open spec fn graph_fault(
    nodes: Seq<AiGraphNode>,
    edges: Seq<AiGraphEdge>,
    err: AiGraphBuildError,
) -> bool {
    let n = nodes.len() as int;
    if !ids_in_order(nodes) {
        exists|i: int|
            #[trigger] first_bad_node(nodes, i) && err == AiGraphBuildError::InvalidDepend(
                nodes[i].node_id,
            )
    } else if !crate::uabi::dag::within(edges, n) {
        exists|i: int|
            #[trigger] first_bad_edge(edges, n, i) && err == AiGraphBuildError::InvalidDepend(
                bad_end(edges[i], n),
            )
    } else {
        crate::uabi::dag::cyclic(edges) && err == AiGraphBuildError::CycleDetected
    }
}

/// Checks that the nodes and edges make a graph.
pub fn validate_graph(nodes: &[AiGraphNode], edges: &[AiGraphEdge]) -> (r: Result<
    (),
    AiGraphBuildError,
>)
    requires
        nodes@.len() <= u32::MAX,
    ensures
        match r {
            Ok(()) => valid_graph(nodes@, edges@),
            Err(err) => !valid_graph(nodes@, edges@) && graph_fault(nodes@, edges@, err),
        },
{
    let mut i: usize = 0;
    while i < nodes.len()
        invariant
            i <= nodes@.len() <= u32::MAX,
            forall|j: int| 0 <= j < i ==> (#[trigger] nodes@[j]).node_id.0 == j,
        decreases nodes@.len() - i,
    {
        if nodes[i].node_id.0 != i as u32 {
            assert(first_bad_node(nodes@, i as int));
            return Err(AiGraphBuildError::InvalidDepend(nodes[i].node_id));
        }
        i = i + 1;
    }
    let mut i: usize = 0;
    while i < edges.len()
        invariant
            i <= edges@.len(),
            ids_in_order(nodes@),
            forall|j: int|
                0 <= j < i ==> (#[trigger] edges@[j]).from_node.0 < nodes@.len()
                    && edges@[j].to_node.0 < nodes@.len(),
        decreases edges@.len() - i,
    {
        if edges[i].from_node.as_usize() >= nodes.len() {
            assert(first_bad_edge(edges@, nodes@.len() as int, i as int));
            return Err(AiGraphBuildError::InvalidDepend(edges[i].from_node));
        }
        if edges[i].to_node.as_usize() >= nodes.len() {
            assert(first_bad_edge(edges@, nodes@.len() as int, i as int));
            return Err(AiGraphBuildError::InvalidDepend(edges[i].to_node));
        }
        i = i + 1;
    }
    if has_cycle(nodes.len(), edges) {
        return Err(AiGraphBuildError::CycleDetected);
    }
    Ok(())
}

/// The entry that submits a blob of `size` bytes at the given address.
pub open spec fn submission(user_token: UserToken, va: UserVa, size: int) -> AiGraphSubmitEntry {
    AiGraphSubmitEntry {
        abi_version: crate::uabi::version::AI_ABI_VERSION,
        submit_kind: GraphSubmitKind(GraphSubmitKind::GRAPH_SUBMIT),
        flags: crate::uabi::types::SubmitFlags(0),
        reserved0: 0,
        user_token,
        graph_user_va: va,
        graph_size: ByteSize(size as u64),
    }
}

/// A frozen graph: one run of bytes.
pub struct AiGraphBlob {
    bytes: Vec<u8>,
}

impl View for AiGraphBlob {
    type V = Seq<u8>;

    closed spec fn view(&self) -> Seq<u8> {
        self.bytes@
    }
}

impl AiGraphBlob {
    /// Freezes nodes and edges into a blob.
    pub fn from_parts(nodes: &[AiGraphNode], edges: &[AiGraphEdge]) -> (r: Result<
        Self,
        AiGraphBuildError,
    >)
        ensures
            match r {
                Ok(blob) => {
                    &&& valid_graph(nodes@, edges@)
                    &&& 4 * blob_len(nodes@.len() as int, edges@.len() as int) <= u32::MAX
                    &&& blob@ == blob_bytes(nodes@, edges@)
                },
                Err(err) => if nodes@.len() > u32::MAX {
                    err == AiGraphBuildError::TooManyNodes
                } else if edges@.len() > u32::MAX {
                    err == AiGraphBuildError::TooManyEdges
                } else if !valid_graph(nodes@, edges@) {
                    graph_fault(nodes@, edges@, err)
                } else {
                    &&& 4 * blob_len(nodes@.len() as int, edges@.len() as int) > u32::MAX
                    &&& err == AiGraphBuildError::SizeOverflow
                },
            },
    {
        let n: usize = nodes.len();
        let m: usize = edges.len();
        if n as u64 > u32::MAX as u64 {
            return Err(AiGraphBuildError::TooManyNodes);
        }
        if m as u64 > u32::MAX as u64 {
            return Err(AiGraphBuildError::TooManyEdges);
        }
        match validate_graph(nodes, edges) {
            Ok(()) => {},
            Err(err) => {
                return Err(err);
            },
        }
        let total: u64 = 64 + 1728 * (n as u64) + 8 * (m as u64);
        if total > u32::MAX as u64 {
            return Err(AiGraphBuildError::SizeOverflow);
        }
        let header = AiGraphHeader {
            magic: AI_GRAPH_MAGIC,
            total_size: ByteOffset(total as u32),
            flags: GraphFlags(0),
            node_count: NodeCount(n as u32),
            edge_count: EdgeCount(m as u32),
            nodes_offset: ByteOffset(64),
            edges_offset: ByteOffset(64 + 1728 * (n as u32)),
        };
        let mut words: Vec<u32> = header.to_words();
        let mut i: usize = 7;
        while i < 16
            invariant
                7 <= i <= 16,
                words@.len() == i,
                forall|j: int| 0 <= j < i ==> words@[j] == blob_word(nodes@, edges@, j),
            decreases 16 - i,
        {
            words.push(0);
            i = i + 1;
        }
        let mut i: usize = 0;
        while i < nodes.len()
            invariant
                i <= nodes@.len() == n,
                words@.len() == 16 + 432 * i,
                forall|j: int|
                    0 <= j < 16 + 432 * i ==> words@[j] == blob_word(nodes@, edges@, j),
            decreases nodes@.len() - i,
        {
            let mut part: Vec<u32> = nodes[i].to_words();
            let ghost piece = part@;
            let ghost front = words@;
            words.append(&mut part);
            assert(words@ =~= front + piece);
            assert forall|j: int| 0 <= j < 16 + 432 * (i + 1) implies words@[j] == blob_word(
                nodes@,
                edges@,
                j,
            ) by {
                if j >= 16 + 432 * i {
                    let k = j - 16 - 432 * i;
                    assert((j - 16) / 432 == i && (j - 16) % 432 == k);
                    assert(words@[j] == piece[k]);
                }
            }
            i = i + 1;
        }
        let mut i: usize = 0;
        while i < edges.len()
            invariant
                i <= edges@.len() == m,
                n == nodes@.len(),
                words@.len() == 16 + 432 * n + 2 * i,
                forall|j: int|
                    0 <= j < 16 + 432 * n + 2 * i ==> words@[j] == blob_word(nodes@, edges@, j),
            decreases edges@.len() - i,
        {
            words.push(edges[i].from_node.0);
            words.push(edges[i].to_node.0);
            i = i + 1;
        }
        assert(words@ =~= blob_words(nodes@, edges@));
        Ok(AiGraphBlob { bytes: words_to_bytes(&words) })
    }

    /// The bytes of the blob.
    pub fn as_bytes(&self) -> (r: &[u8])
        ensures
            r@ == self@,
    {
        &self.bytes
    }

    /// The entry that submits this blob, seen by the user at the given address.
    pub fn submit_entry_at(&self, user_token: UserToken, graph_user_va: UserVa) -> (r:
        AiGraphSubmitEntry)
        ensures
            r == submission(user_token, graph_user_va, self@.len() as int),
            r.graph_size.0 == self@.len(),
    {
        AiGraphSubmitEntry::new(
            user_token,
            graph_user_va,
            ByteSize(self.bytes.len() as u64),
            GraphSubmitKind(GraphSubmitKind::GRAPH_SUBMIT),
        )
    }

    /// The entry that submits this blob where it lies. Everything but the address
    /// follows from the arguments.
    pub fn submit_entry(&self, user_token: UserToken) -> (r: AiGraphSubmitEntry)
        ensures
            r == submission(user_token, r.graph_user_va, self@.len() as int),
            r.graph_user_va.0 != 0,
            r.graph_size.0 == self@.len(),
    {
        let va: u64 = buffer_address(&self.bytes);
        self.submit_entry_at(user_token, UserVa(va))
    }
}

/// A graph read from a blob.
pub struct AiParsedGraph {
    /// Front of the blob.
    pub header: AiGraphHeader,
    /// The nodes.
    pub nodes: Vec<AiGraphNode>,
    /// The edges.
    pub edges: Vec<AiGraphEdge>,
}

/// The header at the front of a blob.
pub open spec fn header_at(bytes: Seq<u8>) -> AiGraphHeader {
    AiGraphHeader::of_words(crate::bytes::words_at(bytes, 0, 7))
}

/// Whether `count` items of `item` bytes from `offset` on lie within `total` bytes.
pub open spec fn section_fits(offset: ByteOffset, count: int, item: int, total: int) -> bool {
    &&& count * item <= usize::MAX
    &&& offset.0 + count * item <= total
}

/// What is wrong with a part that does not fit.
pub open spec fn section_fault(
    section: GraphSection,
    offset: ByteOffset,
    count: int,
    item: int,
    total: int,
) -> AiGraphParseError {
    if count * item > usize::MAX || offset.0 + count * item > usize::MAX {
        AiGraphParseError::CountOverflow
    } else {
        AiGraphParseError::SectionOutOfRange {
            section,
            offset,
            size: (count * item) as usize,
            total_size: total as usize,
        }
    }
}

/// What is wrong with a blob, where anything is.
pub open spec fn parse_fault(bytes: Seq<u8>) -> Option<AiGraphParseError> {
    let header = header_at(bytes);
    let total = bytes.len() as int;
    if total < 28 {
        Some(AiGraphParseError::TooSmall)
    } else if header.magic != AI_GRAPH_MAGIC {
        Some(AiGraphParseError::BadMagic(header.magic))
    } else if header.total_size.0 != total {
        Some(
            AiGraphParseError::SizeMismatch {
                header_size: header.total_size,
                actual_size: total as usize,
            },
        )
    } else if !section_fits(header.nodes_offset, header.node_count.0 as int, 1728, total) {
        Some(
            section_fault(
                GraphSection::Nodes,
                header.nodes_offset,
                header.node_count.0 as int,
                1728,
                total,
            ),
        )
    } else if !section_fits(header.edges_offset, header.edge_count.0 as int, 8, total) {
        Some(
            section_fault(
                GraphSection::Edges,
                header.edges_offset,
                header.edge_count.0 as int,
                8,
                total,
            ),
        )
    } else {
        None
    }
}

/// The graph is what the blob says.
pub open spec fn parses_as(
    bytes: Seq<u8>,
    header: AiGraphHeader,
    nodes: Seq<AiGraphNode>,
    edges: Seq<AiGraphEdge>,
) -> bool {
    &&& header == header_at(bytes)
    &&& nodes.len() == header.node_count.0
    &&& edges.len() == header.edge_count.0
    &&& forall|i: int|
        0 <= i < nodes.len() ==> (#[trigger] nodes[i]).read_from(
            crate::bytes::words_at(bytes, header.nodes_offset.0 + 1728 * i, 432),
        )
    &&& forall|i: int|
        0 <= i < edges.len() ==> #[trigger] edges[i] == crate::uabi::node::edge_of_words(
            crate::bytes::words_at(bytes, header.edges_offset.0 + 8 * i, 2),
        )
}

/// Reads graphs from blobs.
pub struct AiGraphParser;

impl AiGraphParser {
    /// Reads a graph from a blob, after checking magic, size and both parts.
    pub fn parse(bytes: &[u8]) -> (r: Result<AiParsedGraph, AiGraphParseError>)
        ensures
            match r {
                Ok(graph) => {
                    &&& parse_fault(bytes@) is None
                    &&& parses_as(bytes@, graph.header, graph.nodes@, graph.edges@)
                },
                Err(err) => parse_fault(bytes@) == Some(err),
            },
    {
        let total: usize = bytes.len();
        if total < 28 {
            return Err(AiGraphParseError::TooSmall);
        }
        let front: Vec<u32> = read_words(bytes, 0, HEADER_WORDS);
        let header = AiGraphHeader::from_words(&front);
        if header.magic != AI_GRAPH_MAGIC {
            return Err(AiGraphParseError::BadMagic(header.magic));
        }
        if header.total_size.0 as usize != total {
            return Err(
                AiGraphParseError::SizeMismatch {
                    header_size: header.total_size,
                    actual_size: total,
                },
            );
        }
        let node_count: usize = header.node_count.0 as usize;
        let edge_count: usize = header.edge_count.0 as usize;
        let nodes_range = match checked_section(
            GraphSection::Nodes,
            total,
            header.nodes_offset,
            node_count,
            NODE_BYTES,
        ) {
            Ok(range) => range,
            Err(err) => {
                return Err(err);
            },
        };
        let edges_range = match checked_section(
            GraphSection::Edges,
            total,
            header.edges_offset,
            edge_count,
            EDGE_BYTES,
        ) {
            Ok(range) => range,
            Err(err) => {
                return Err(err);
            },
        };
        let nodes: Vec<AiGraphNode> = read_nodes(bytes, nodes_range.start, node_count);
        let edges: Vec<AiGraphEdge> = read_edges(bytes, edges_range.start, edge_count);
        Ok(AiParsedGraph { header, nodes, edges })
    }
}

/// Where the items of a part lie, if they lie within the blob.
pub fn checked_section(
    section: GraphSection,
    total_size: usize,
    offset: ByteOffset,
    count: usize,
    item_size: usize,
) -> (r: Result<Range<usize>, AiGraphParseError>)
    ensures
        match r {
            Ok(range) => {
                &&& section_fits(offset, count as int, item_size as int, total_size as int)
                &&& range.start == offset.0
                &&& range.end == offset.0 + count * item_size
            },
            Err(err) => {
                &&& !section_fits(offset, count as int, item_size as int, total_size as int)
                &&& err == section_fault(
                    section,
                    offset,
                    count as int,
                    item_size as int,
                    total_size as int,
                )
            },
        },
{
    let size: usize = match count.checked_mul(item_size) {
        Some(size) => size,
        None => {
            return Err(AiGraphParseError::CountOverflow);
        },
    };
    match offset.checked_range(size, total_size) {
        Ok(range) => Ok(range),
        Err(AbiTypeError::CountOverflow) => Err(AiGraphParseError::CountOverflow),
        Err(_) => Err(
            AiGraphParseError::SectionOutOfRange { section, offset, size, total_size },
        ),
    }
}

/// Reads `count` nodes that start at byte `at`.
fn read_nodes(bytes: &[u8], at: usize, count: usize) -> (r: Vec<AiGraphNode>)
    requires
        at + 1728 * count <= bytes@.len(),
    ensures
        r@.len() == count,
        forall|i: int|
            0 <= i < count ==> (#[trigger] r@[i]).read_from(
                crate::bytes::words_at(bytes@, at + 1728 * i, 432),
            ),
{
    let total: usize = bytes.len();
    let mut out: Vec<AiGraphNode> = Vec::new();
    let mut i: usize = 0;
    while i < count
        invariant
            i <= count,
            at + 1728 * count <= total == bytes@.len(),
            out@.len() == i,
            forall|j: int|
                0 <= j < i ==> (#[trigger] out@[j]).read_from(
                    crate::bytes::words_at(bytes@, at + 1728 * j, 432),
                ),
        decreases count - i,
    {
        let words: Vec<u32> = read_words(bytes, at + 1728 * i, NODE_WORDS);
        out.push(AiGraphNode::from_words(&words));
        i = i + 1;
    }
    out
}

/// Reads `count` edges that start at byte `at`.
fn read_edges(bytes: &[u8], at: usize, count: usize) -> (r: Vec<AiGraphEdge>)
    requires
        at + 8 * count <= bytes@.len(),
    ensures
        r@.len() == count,
        forall|i: int|
            0 <= i < count ==> #[trigger] r@[i] == crate::uabi::node::edge_of_words(
                crate::bytes::words_at(bytes@, at + 8 * i, 2),
            ),
{
    let total: usize = bytes.len();
    let mut out: Vec<AiGraphEdge> = Vec::new();
    let mut i: usize = 0;
    while i < count
        invariant
            i <= count,
            at + 8 * count <= total == bytes@.len(),
            out@.len() == i,
            forall|j: int|
                0 <= j < i ==> #[trigger] out@[j] == crate::uabi::node::edge_of_words(
                    crate::bytes::words_at(bytes@, at + 8 * j, 2),
                ),
        decreases count - i,
    {
        let words: Vec<u32> = read_words(bytes, at + 8 * i, 2);
        out.push(
            AiGraphEdge {
                from_node: AiGraphNodeId(words[0]),
                to_node: AiGraphNodeId(words[1]),
            },
        );
        i = i + 1;
    }
    out
}

/// The header of a blob can be read back.
proof fn header_in_blob(nodes: Seq<AiGraphNode>, edges: Seq<AiGraphEdge>)
    ensures
        header_at(blob_bytes(nodes, edges)) == blob_header(
            nodes.len() as int,
            edges.len() as int,
        ),
{
    let words = blob_words(nodes, edges);
    crate::bytes::words_at_bytes_of_words(words, 0, 7);
    assert(words.subrange(0, 7) =~= blob_header(nodes.len() as int, edges.len() as int).words());
}

/// The words of node `i` lie in the blob.
proof fn node_in_blob(nodes: Seq<AiGraphNode>, edges: Seq<AiGraphEdge>, i: int)
    requires
        0 <= i < nodes.len(),
    ensures
        crate::bytes::words_at(blob_bytes(nodes, edges), 64 + 1728 * i, 432) == nodes[i].words(),
{
    let words = blob_words(nodes, edges);
    let at = 16 + 432 * i;
    crate::bytes::words_at_bytes_of_words(words, at, 432);
    let part = words.subrange(at, at + 432);
    assert forall|j: int| 0 <= j < 432 implies part[j] == nodes[i].word(j) by {
        let k = 432 * i + j;
        assert(k / 432 == i && k % 432 == j);
        assert(part[j] == words[16 + k]);
    }
    assert(part =~= nodes[i].words());
}

/// The words of edge `i` lie in the blob.
proof fn edge_in_blob(nodes: Seq<AiGraphNode>, edges: Seq<AiGraphEdge>, i: int)
    requires
        0 <= i < edges.len(),
    ensures
        crate::uabi::node::edge_of_words(
            crate::bytes::words_at(
                blob_bytes(nodes, edges),
                64 + 1728 * (nodes.len() as int) + 8 * i,
                2,
            ),
        ) == edges[i],
{
    let words = blob_words(nodes, edges);
    let at = 16 + 432 * (nodes.len() as int) + 2 * i;
    crate::bytes::words_at_bytes_of_words(words, at, 2);
    let part = words.subrange(at, at + 2);
    assert(part[0] == words[at] == edges[i].from_node.0);
    assert(part[1] == words[at + 1] == edges[i].to_node.0);
}

/// A frozen graph parses, and parsing gives back its nodes and edges.
pub proof fn parse_gives_back_graph(
    nodes: Seq<AiGraphNode>,
    edges: Seq<AiGraphEdge>,
    header: AiGraphHeader,
    read_nodes: Seq<AiGraphNode>,
    read_edges: Seq<AiGraphEdge>,
)
    requires
        4 * blob_len(nodes.len() as int, edges.len() as int) <= u32::MAX,
    ensures
        parse_fault(blob_bytes(nodes, edges)) is None,
        parses_as(blob_bytes(nodes, edges), header, read_nodes, read_edges) ==> {
            &&& header == blob_header(nodes.len() as int, edges.len() as int)
            &&& read_nodes == nodes
            &&& read_edges == edges
        },
{
    let n = nodes.len() as int;
    let m = edges.len() as int;
    header_in_blob(nodes, edges);
    assert(blob_bytes(nodes, edges).len() == 4 * blob_len(n, m));
    if parses_as(blob_bytes(nodes, edges), header, read_nodes, read_edges) {
        assert forall|i: int| 0 <= i < n implies read_nodes[i] == nodes[i] by {
            node_in_blob(nodes, edges, i);
            nodes[i].words_hold_fields(read_nodes[i]);
        }
        assert(read_nodes =~= nodes);
        assert forall|i: int| 0 <= i < m implies read_edges[i] == edges[i] by {
            edge_in_blob(nodes, edges, i);
        }
        assert(read_edges =~= edges);
    }
}


/// Where the parts of a blob stand: magic, size, flags, the numbers of nodes and edges and
/// where they start; from byte 64 on the nodes, 1728 bytes each; and behind them the edges,
/// the source before the target.
pub proof fn blob_parts_have_their_places(
    nodes: Seq<AiGraphNode>,
    edges: Seq<AiGraphEdge>,
    node: int,
    edge: int,
)
    requires
        4 * blob_len(nodes.len() as int, edges.len() as int) <= u32::MAX,
        0 <= node < nodes.len(),
        0 <= edge < edges.len(),
    ensures
        ({
            let bytes = blob_bytes(nodes, edges);
            let behind = 64 + 1728 * nodes.len();
            &&& bytes.len() == behind + 8 * edges.len()
            &&& crate::bytes::word_at(bytes, 0) == AI_GRAPH_MAGIC
            &&& crate::bytes::word_at(bytes, 4) == bytes.len()
            &&& crate::bytes::word_at(bytes, 8) == 0
            &&& crate::bytes::word_at(bytes, 12) == nodes.len()
            &&& crate::bytes::word_at(bytes, 16) == edges.len()
            &&& crate::bytes::word_at(bytes, 20) == 64
            &&& crate::bytes::word_at(bytes, 24) == behind
            &&& crate::bytes::words_at(bytes, 64 + 1728 * node, 432) == nodes[node].words()
            &&& crate::bytes::word_at(bytes, behind + 8 * edge) == edges[edge].from_node.0
            &&& crate::bytes::word_at(bytes, behind + 8 * edge + 4) == edges[edge].to_node.0
        }),
{
    let bytes = blob_bytes(nodes, edges);
    header_in_blob(nodes, edges);
    node_in_blob(nodes, edges, node);
    edge_in_blob(nodes, edges, edge);
    let words = crate::bytes::words_at(bytes, 0, 7);
    assert(words[0] == crate::bytes::word_at(bytes, 0));
    assert(words[1] == crate::bytes::word_at(bytes, 4));
    assert(words[2] == crate::bytes::word_at(bytes, 8));
    assert(words[3] == crate::bytes::word_at(bytes, 12));
    assert(words[4] == crate::bytes::word_at(bytes, 16));
    assert(words[5] == crate::bytes::word_at(bytes, 20));
    assert(words[6] == crate::bytes::word_at(bytes, 24));
    let at = 64 + 1728 * (nodes.len() as int) + 8 * edge;
    let ends = crate::bytes::words_at(bytes, at, 2);
    assert(ends[0] == crate::bytes::word_at(bytes, at));
    assert(ends[1] == crate::bytes::word_at(bytes, at + 4));
}

/// A blob is accepted where it starts with the magic word, has the size that it says, and
/// holds both of its parts; and only there.
pub proof fn accepted_blobs_hold_their_parts(bytes: Seq<u8>)
    requires
        bytes.len() <= usize::MAX,
    ensures
        parse_fault(bytes) is None <==> {
            &&& bytes.len() >= 28
            &&& crate::bytes::word_at(bytes, 0) == AI_GRAPH_MAGIC
            &&& crate::bytes::word_at(bytes, 4) == bytes.len()
            &&& crate::bytes::word_at(bytes, 20) + 1728 * crate::bytes::word_at(bytes, 12)
                <= bytes.len()
            &&& crate::bytes::word_at(bytes, 24) + 8 * crate::bytes::word_at(bytes, 16)
                <= bytes.len()
        },
{
    let words = crate::bytes::words_at(bytes, 0, 7);
    assert(words[0] == crate::bytes::word_at(bytes, 0));
    assert(words[1] == crate::bytes::word_at(bytes, 4));
    assert(words[3] == crate::bytes::word_at(bytes, 12));
    assert(words[4] == crate::bytes::word_at(bytes, 16));
    assert(words[5] == crate::bytes::word_at(bytes, 20));
    assert(words[6] == crate::bytes::word_at(bytes, 24));
}

/// A submission carries the token, the address and the size that it is made for, asks for a
/// graph, and names the version of the interface.
pub proof fn submission_says_what_to_run(user_token: UserToken, va: UserVa, size: u64)
    ensures
        ({
            let entry = submission(user_token, va, size as int);
            &&& entry.user_token == user_token
            &&& entry.graph_user_va == va
            &&& entry.graph_size.0 == size
            &&& entry.submit_kind.0 == GraphSubmitKind::GRAPH_SUBMIT
            &&& entry.abi_version == crate::uabi::version::AI_ABI_VERSION
        }),
{
}

} // verus!
