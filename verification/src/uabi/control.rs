//! Control calls on the device.

use crate::uabi::version::AI_ABI_VERSION;
use vstd::prelude::*;

verus! {

/// Control call: register the shared memory of a channel pair.
pub const K3_AI_IOC_BUILD_CHANNEL: u32 = 0x4B33_0001;

/// Control call: a graph was submitted.
pub const K3_AI_IOC_SUBMIT_GRAPH: u32 = 0x4B33_0002;

/// Channels in the shared memory: one to send, one to receive.
pub const K3_CHANNEL_COUNT: usize = 2;

/// Channel that carries submissions.
pub const K3_CHANNEL_SNEDERID: u8 = 0;

/// Channel that carries completions.
pub const K3_CHANNEL_RECIVERID: u8 = 1;

/// What the kernel is told about the shared memory of a channel pair.
#[derive(Clone, Copy, PartialEq, Eq, Structural, Debug)]
pub struct K3AiChannelBuildParam {
    /// Version of the binary interface.
    pub abi_version: u32,
    /// Kept at zero.
    pub flags: u32,
    /// Where the user sees the shared memory.
    pub user_va: u64,
    /// Bytes of the shared memory.
    pub size_bytes: u64,
    /// Channels in the shared memory.
    pub channel_count: u32,
    /// Owner; the kernel fills it in.
    pub owner_pid: u32,
    /// Kept at zero.
    pub reserved0: u64,
}

impl K3AiChannelBuildParam {
    /// A request to register shared memory.
    pub fn new(user_va: u64, size_bytes: u64, channel_count: u32) -> (r: Self)
        ensures
            r == (K3AiChannelBuildParam {
                abi_version: AI_ABI_VERSION,
                flags: 0,
                user_va,
                size_bytes,
                channel_count,
                owner_pid: 0,
                reserved0: 0,
            }),
    {
        K3AiChannelBuildParam {
            abi_version: AI_ABI_VERSION,
            flags: 0,
            user_va,
            size_bytes,
            channel_count,
            owner_pid: 0,
            reserved0: 0,
        }
    }
}

impl Default for K3AiChannelBuildParam {
    fn default() -> (r: Self)
        ensures
            r == (K3AiChannelBuildParam {
                abi_version: 0,
                flags: 0,
                user_va: 0,
                size_bytes: 0,
                channel_count: 0,
                owner_pid: 0,
                reserved0: 0,
            }),
    {
        K3AiChannelBuildParam {
            abi_version: 0,
            flags: 0,
            user_va: 0,
            size_bytes: 0,
            channel_count: 0,
            owner_pid: 0,
            reserved0: 0,
        }
    }
}

} // verus!
