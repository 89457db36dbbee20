//! Errors of the user runtime, the scheduler, the kernel side and the backend, and the
//! receipt that ends a graph.

use crate::bytes::{read_words, words_to_bytes};
use vstd::prelude::*;

verus! {

/// What can go wrong on the user side.
#[derive(Clone, Copy, PartialEq, Eq, Structural, Debug)]
pub enum AiRuntimeErr {
    /// User side and kernel side were not built together.
    InvalidAbiVersion,
    /// An argument is not valid.
    InvalidInput,
    /// The channel was used before it was built.
    ChannelNotInitialized,
    /// A submission could not be put into bytes.
    SerializeFailed,
    /// A message could not be sent.
    SendFailed,
    /// A device control call failed.
    IoctlFailed,
    /// Shared memory could not be mapped.
    MmapFailed,
    /// The device could not be opened.
    DeviceOpenFailed,
    /// Memory could not be allocated.
    AllocFailed,
    /// A shape is not valid.
    InvalidShape,
    /// A layout is not valid.
    InvalidLayout,
    /// A graph failed at a node.
    GraphExecutionFailed {
        /// The first node that failed.
        node_id: u32,
        /// Its operation code.
        op: u8,
        /// Its backend error code.
        backend_err: u8,
    },
}

impl AiRuntimeErr {
    /// What went wrong, in words; a failed graph's numbers are in its fields.
    pub open spec fn text(self) -> Seq<char> {
        match self {
            AiRuntimeErr::InvalidAbiVersion => "ABI version mismatch"@,
            AiRuntimeErr::InvalidInput => "invalid input parameter"@,
            AiRuntimeErr::ChannelNotInitialized => "channel not initialized"@,
            AiRuntimeErr::SerializeFailed => "serialization failed"@,
            AiRuntimeErr::SendFailed => "failed to send message"@,
            AiRuntimeErr::IoctlFailed => "ioctl failed"@,
            AiRuntimeErr::MmapFailed => "mmap failed"@,
            AiRuntimeErr::DeviceOpenFailed => "failed to open device"@,
            AiRuntimeErr::AllocFailed => "allocation failed"@,
            AiRuntimeErr::InvalidShape => "invalid tensor shape"@,
            AiRuntimeErr::InvalidLayout => "invalid tensor layout"@,
            AiRuntimeErr::GraphExecutionFailed { .. } => "graph execution failed"@,
        }
    }

    /// What went wrong, in words; a failed graph's numbers are in its fields.
    pub fn message(self) -> (r: &'static str)
        ensures
            r@ == self.text(),
    {
        match self {
            AiRuntimeErr::InvalidAbiVersion => "ABI version mismatch",
            AiRuntimeErr::InvalidInput => "invalid input parameter",
            AiRuntimeErr::ChannelNotInitialized => "channel not initialized",
            AiRuntimeErr::SerializeFailed => "serialization failed",
            AiRuntimeErr::SendFailed => "failed to send message",
            AiRuntimeErr::IoctlFailed => "ioctl failed",
            AiRuntimeErr::MmapFailed => "mmap failed",
            AiRuntimeErr::DeviceOpenFailed => "failed to open device",
            AiRuntimeErr::AllocFailed => "allocation failed",
            AiRuntimeErr::InvalidShape => "invalid tensor shape",
            AiRuntimeErr::InvalidLayout => "invalid tensor layout",
            AiRuntimeErr::GraphExecutionFailed { .. } => "graph execution failed",
        }
    }
}

/// What can go wrong while a graph is scheduled.
#[derive(Clone, Copy, PartialEq, Eq, Structural, Debug)]
pub enum SchedulerErr {
    /// The graph, or the core that it was sent to, is not valid.
    InvalidGraph,
    /// The graph could not be put in order.
    ParseFailed,
    /// A node could not be mapped.
    NodeMappingFailed,
    /// A kernel failed.
    ExecutionFailed,
    /// The completion could not be sent.
    NotificationFailed,
}

impl SchedulerErr {
    /// The stable code of the error.
    pub open spec fn code_of(self) -> u8 {
        match self {
            SchedulerErr::InvalidGraph => 1,
            SchedulerErr::ParseFailed => 2,
            SchedulerErr::NodeMappingFailed => 3,
            SchedulerErr::ExecutionFailed => 4,
            SchedulerErr::NotificationFailed => 5,
        }
    }

    /// What went wrong, in words.
    pub open spec fn text(self) -> Seq<char> {
        match self {
            SchedulerErr::InvalidGraph => "invalid graph"@,
            SchedulerErr::ParseFailed => "failed to parse graph"@,
            SchedulerErr::NodeMappingFailed => "failed to map node"@,
            SchedulerErr::ExecutionFailed => "kernel execution failed"@,
            SchedulerErr::NotificationFailed => "failed to send notification"@,
        }
    }

    /// The stable code of the error.
    pub fn code(self) -> (r: u8)
        ensures
            r == self.code_of(),
    {
        match self {
            SchedulerErr::InvalidGraph => 1,
            SchedulerErr::ParseFailed => 2,
            SchedulerErr::NodeMappingFailed => 3,
            SchedulerErr::ExecutionFailed => 4,
            SchedulerErr::NotificationFailed => 5,
        }
    }

    /// What went wrong, in words.
    pub fn message(self) -> (r: &'static str)
        ensures
            r@ == self.text(),
    {
        match self {
            SchedulerErr::InvalidGraph => "invalid graph",
            SchedulerErr::ParseFailed => "failed to parse graph",
            SchedulerErr::NodeMappingFailed => "failed to map node",
            SchedulerErr::ExecutionFailed => "kernel execution failed",
            SchedulerErr::NotificationFailed => "failed to send notification",
        }
    }
}

/// What can go wrong on the kernel side.
#[derive(Clone, Copy, PartialEq, Eq, Structural, Debug)]
pub enum KnAiRuntimeErr {
    /// An argument is not valid.
    InvalidInput,
    /// User side and kernel side were not built together.
    InvalidAbiVersion,
    /// A user address is not accessible.
    BadAddress,
    /// Memory ran out.
    NoMemory,
    /// The resource exists.
    AlreadyExists,
    /// The call would have to wait.
    WouldBlock,
    /// The operation is not supported.
    NotSupported,
    /// The shared memory is not registered.
    InvalidSharedMemory,
    /// No message is waiting.
    ChannelEmpty,
    /// A buffer could not be mapped.
    MapFailed,
}

impl KnAiRuntimeErr {
    /// The stable code of the error.
    pub open spec fn code_of(self) -> u8 {
        match self {
            KnAiRuntimeErr::InvalidInput => 1,
            KnAiRuntimeErr::InvalidAbiVersion => 2,
            KnAiRuntimeErr::BadAddress => 3,
            KnAiRuntimeErr::NoMemory => 4,
            KnAiRuntimeErr::AlreadyExists => 5,
            KnAiRuntimeErr::WouldBlock => 6,
            KnAiRuntimeErr::NotSupported => 7,
            KnAiRuntimeErr::InvalidSharedMemory => 8,
            KnAiRuntimeErr::ChannelEmpty => 9,
            KnAiRuntimeErr::MapFailed => 10,
        }
    }

    /// What went wrong, in words.
    pub open spec fn text(self) -> Seq<char> {
        match self {
            KnAiRuntimeErr::InvalidInput => "invalid input"@,
            KnAiRuntimeErr::InvalidAbiVersion => "ABI version mismatch"@,
            KnAiRuntimeErr::BadAddress => "bad address"@,
            KnAiRuntimeErr::NoMemory => "out of memory"@,
            KnAiRuntimeErr::AlreadyExists => "already exists"@,
            KnAiRuntimeErr::WouldBlock => "would block"@,
            KnAiRuntimeErr::NotSupported => "operation not supported"@,
            KnAiRuntimeErr::InvalidSharedMemory => "invalid shared memory"@,
            KnAiRuntimeErr::ChannelEmpty => "channel is empty"@,
            KnAiRuntimeErr::MapFailed => "memory mapping failed"@,
        }
    }

    /// The stable code of the error.
    pub fn code(self) -> (r: u8)
        ensures
            r == self.code_of(),
    {
        match self {
            KnAiRuntimeErr::InvalidInput => 1,
            KnAiRuntimeErr::InvalidAbiVersion => 2,
            KnAiRuntimeErr::BadAddress => 3,
            KnAiRuntimeErr::NoMemory => 4,
            KnAiRuntimeErr::AlreadyExists => 5,
            KnAiRuntimeErr::WouldBlock => 6,
            KnAiRuntimeErr::NotSupported => 7,
            KnAiRuntimeErr::InvalidSharedMemory => 8,
            KnAiRuntimeErr::ChannelEmpty => 9,
            KnAiRuntimeErr::MapFailed => 10,
        }
    }

    /// What went wrong, in words.
    pub fn message(self) -> (r: &'static str)
        ensures
            r@ == self.text(),
    {
        match self {
            KnAiRuntimeErr::InvalidInput => "invalid input",
            KnAiRuntimeErr::InvalidAbiVersion => "ABI version mismatch",
            KnAiRuntimeErr::BadAddress => "bad address",
            KnAiRuntimeErr::NoMemory => "out of memory",
            KnAiRuntimeErr::AlreadyExists => "already exists",
            KnAiRuntimeErr::WouldBlock => "would block",
            KnAiRuntimeErr::NotSupported => "operation not supported",
            KnAiRuntimeErr::InvalidSharedMemory => "invalid shared memory",
            KnAiRuntimeErr::ChannelEmpty => "channel is empty",
            KnAiRuntimeErr::MapFailed => "memory mapping failed",
        }
    }
}

/// What can go wrong while a kernel runs. Code zero is kept for success.
#[derive(Clone, Copy, PartialEq, Eq, Structural, Debug)]
pub enum BackendErr {
    /// An argument is not valid.
    InvalidInput,
    /// A tensor description is not valid.
    InvalidTensor,
    /// An attribute is not valid.
    InvalidAttr,
    /// The element type is not supported.
    UnsupportedDtype,
    /// The operation is not supported.
    UnsupportedOp,
    /// The kernel failed.
    ExecutionFailed,
    /// A required address is zero.
    NullPointer,
}

impl BackendErr {
    /// The stable code of the error.
    pub open spec fn code_of(self) -> u8 {
        match self {
            BackendErr::InvalidInput => 1,
            BackendErr::InvalidTensor => 2,
            BackendErr::InvalidAttr => 3,
            BackendErr::UnsupportedDtype => 4,
            BackendErr::UnsupportedOp => 5,
            BackendErr::ExecutionFailed => 6,
            BackendErr::NullPointer => 7,
        }
    }

    /// What went wrong, in words.
    pub open spec fn text(self) -> Seq<char> {
        match self {
            BackendErr::InvalidInput => "invalid input"@,
            BackendErr::InvalidTensor => "invalid tensor"@,
            BackendErr::InvalidAttr => "invalid attribute"@,
            BackendErr::UnsupportedDtype => "unsupported data type"@,
            BackendErr::UnsupportedOp => "unsupported operation"@,
            BackendErr::ExecutionFailed => "execution failed"@,
            BackendErr::NullPointer => "null pointer"@,
        }
    }

    /// The stable code of the error.
    pub fn code(self) -> (r: u8)
        ensures
            r == self.code_of(),
    {
        match self {
            BackendErr::InvalidInput => 1,
            BackendErr::InvalidTensor => 2,
            BackendErr::InvalidAttr => 3,
            BackendErr::UnsupportedDtype => 4,
            BackendErr::UnsupportedOp => 5,
            BackendErr::ExecutionFailed => 6,
            BackendErr::NullPointer => 7,
        }
    }

    /// What went wrong, in words.
    pub fn message(self) -> (r: &'static str)
        ensures
            r@ == self.text(),
    {
        match self {
            BackendErr::InvalidInput => "invalid input",
            BackendErr::InvalidTensor => "invalid tensor",
            BackendErr::InvalidAttr => "invalid attribute",
            BackendErr::UnsupportedDtype => "unsupported data type",
            BackendErr::UnsupportedOp => "unsupported operation",
            BackendErr::ExecutionFailed => "execution failed",
            BackendErr::NullPointer => "null pointer",
        }
    }

    /// The error with the given code.
    pub fn from_u8(v: u8) -> (r: Option<Self>)
        ensures
            match r {
                Some(err) => err.code_of() == v,
                None => v == 0 || v > 7,
            },
    {
        match v {
            1 => Some(BackendErr::InvalidInput),
            2 => Some(BackendErr::InvalidTensor),
            3 => Some(BackendErr::InvalidAttr),
            4 => Some(BackendErr::UnsupportedDtype),
            5 => Some(BackendErr::UnsupportedOp),
            6 => Some(BackendErr::ExecutionFailed),
            7 => Some(BackendErr::NullPointer),
            _ => None,
        }
    }
}

/// No two backend errors share a code, and no error has code zero.
pub proof fn backend_codes_are_distinct(a: BackendErr, b: BackendErr)
    ensures
        a.code_of() == b.code_of() <==> a == b,
        1 <= a.code_of() <= 7,
{
}

/// Bytes of a receipt.
pub const COMPLETION_BYTES: usize = 16;

/// Receipt for a graph that has run, sent back through the completion channel.
#[derive(Clone, Copy, Debug)]
pub struct AiCompletion {
    /// The token of the submission.
    pub user_token: u32,
    /// The first node that failed, `u32::MAX` where none did.
    pub failed_node_id: u32,
    /// Zero for success, else a scheduler error code.
    pub status: u8,
    /// Backend error code of the first node that failed, zero where none did.
    pub failed_node_err: u8,
    /// Operation code of the first node that failed.
    pub failed_node_op: u8,
    /// Padding.
    pub reserved: [u8; 5],
}

impl AiCompletion {
    /// The words of the receipt.
    pub open spec fn words(self) -> Seq<u32> {
        seq![
            self.user_token,
            self.failed_node_id,
            crate::bytes::word_of(
                self.status,
                self.failed_node_err,
                self.failed_node_op,
                self.reserved[0],
            ),
            crate::bytes::word_of(
                self.reserved[1],
                self.reserved[2],
                self.reserved[3],
                self.reserved[4],
            ),
        ]
    }

    /// The bytes of the receipt.
    pub open spec fn bytes(self) -> Seq<u8> {
        crate::bytes::bytes_of_words(self.words())
    }

    /// The receipt that the first sixteen bytes say.
    pub open spec fn of_bytes(bytes: Seq<u8>) -> Self {
        let status = crate::bytes::word_at(bytes, 8);
        let padding = crate::bytes::word_at(bytes, 12);
        AiCompletion {
            user_token: crate::bytes::word_at(bytes, 0),
            failed_node_id: crate::bytes::word_at(bytes, 4),
            status: crate::bytes::byte_of(status, 0),
            failed_node_err: crate::bytes::byte_of(status, 1),
            failed_node_op: crate::bytes::byte_of(status, 2),
            reserved: [
                crate::bytes::byte_of(status, 3),
                crate::bytes::byte_of(padding, 0),
                crate::bytes::byte_of(padding, 1),
                crate::bytes::byte_of(padding, 2),
                crate::bytes::byte_of(padding, 3),
            ],
        }
    }

    /// The bytes of the receipt.
    pub fn to_bytes(&self) -> (r: Vec<u8>)
        ensures
            r@ == self.bytes(),
            r@.len() == COMPLETION_BYTES,
    {
        let state: u32 = (self.status as u32) | ((self.failed_node_err as u32) << 8) | ((
        self.failed_node_op as u32) << 16) | ((self.reserved[0] as u32) << 24);
        let padding: u32 = (self.reserved[1] as u32) | ((self.reserved[2] as u32) << 8) | ((
        self.reserved[3] as u32) << 16) | ((self.reserved[4] as u32) << 24);
        let words: Vec<u32> = vec![self.user_token, self.failed_node_id, state, padding];
        assert(words@ =~= self.words());
        words_to_bytes(&words)
    }

    /// The receipt at the front of a message payload, where it is long enough.
    pub fn from_bytes(bytes: &[u8]) -> (r: Option<Self>)
        ensures
            r == (if bytes@.len() >= COMPLETION_BYTES {
                Some(AiCompletion::of_bytes(bytes@))
            } else {
                None
            }),
    {
        if bytes.len() < COMPLETION_BYTES {
            return None;
        }
        let words: Vec<u32> = read_words(bytes, 0, 4);
        let state: u32 = words[2];
        let padding: u32 = words[3];
        Some(
            AiCompletion {
                user_token: words[0],
                failed_node_id: words[1],
                status: state as u8,
                failed_node_err: (state >> 8) as u8,
                failed_node_op: (state >> 16) as u8,
                reserved: [
                    (state >> 24) as u8,
                    padding as u8,
                    (padding >> 8) as u8,
                    (padding >> 16) as u8,
                    (padding >> 24) as u8,
                ],
            },
        )
    }
}

/// A receipt survives the way through bytes, whatever follows it.
pub proof fn completion_survives_bytes(completion: AiCompletion, rest: Seq<u8>)
    ensures
        AiCompletion::of_bytes(completion.bytes() + rest) == completion,
{
    let bytes = completion.bytes();
    let words = completion.words();
    crate::bytes::bytes_of_word(
        completion.status,
        completion.failed_node_err,
        completion.failed_node_op,
        completion.reserved[0],
    );
    crate::bytes::bytes_of_word(
        completion.reserved[1],
        completion.reserved[2],
        completion.reserved[3],
        completion.reserved[4],
    );
    crate::bytes::word_in_image(words, rest, 0);
    crate::bytes::word_in_image(words, rest, 1);
    crate::bytes::word_in_image(words, rest, 2);
    crate::bytes::word_in_image(words, rest, 3);
    assert(AiCompletion::of_bytes(bytes + rest).reserved =~= completion.reserved);
}

} // verus!
