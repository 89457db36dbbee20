//! Building a channel, submitting a graph and waiting for it.
//!
//! The calls on the device and the channels are made elsewhere; here are the decisions
//! between them.

use crate::runtime::message::{data_message, message_data, message_notification};
use crate::uabi::control::{K3AiChannelBuildParam, K3_CHANNEL_COUNT};
use crate::uabi::error::{AiCompletion, AiRuntimeErr};
use crate::uabi::node::AiGraphSubmitEntry;
use crate::uabi::types::UserToken;
use crate::uabi::version::AI_ABI_VERSION;
use ov_channels::Message;
use vstd::prelude::*;

verus! {

/// The shared memory of a channel pair.
#[derive(Clone, Copy, PartialEq, Eq, Structural, Debug)]
pub struct ChannelMemory {
    /// Where the user sees it.
    pub user_va: usize,
    /// Its size in bytes.
    pub size_bytes: usize,
}

/// A channel pair: its memory, and which of its ends are attached.
#[derive(Clone, Copy, PartialEq, Eq, Structural, Debug)]
pub struct UringChannel {
    /// The shared memory.
    pub shared: ChannelMemory,
    /// Whether the end that submits is attached.
    pub graph_sender: bool,
    /// Whether the end that receives completions is attached.
    pub complete_reciver: bool,
}

/// What is to be done next while a channel is built.
#[derive(Clone, Copy, PartialEq, Eq, Structural, Debug)]
pub enum BuildAction {
    /// Get hold of the shared memory that this process registered before.
    LookupShared,
    /// Open the device.
    OpenDevice,
    /// Map fresh shared memory and set the channels up in it.
    MapShared,
    /// Ask the kernel to register the shared memory.
    Register(K3AiChannelBuildParam),
    /// Attach both ends.
    Attach,
    /// Nothing: the channel stands.
    Done(UringChannel),
}

/// How an action turned out.
#[derive(Clone, Copy, PartialEq, Eq, Structural, Debug)]
pub enum BuildEvent {
    /// The registered memory is at hand.
    SharedFound,
    /// The process holds no registered memory any more.
    SharedMissing,
    /// The place where it is kept could not be read.
    SharedUnreadable,
    /// The device is open.
    DeviceOpen,
    /// The device could not be opened.
    DeviceFailed,
    /// Fresh shared memory is mapped and set up.
    Mapped(ChannelMemory),
    /// Shared memory could not be mapped.
    MapFailed,
    /// The kernel registered the memory.
    Registered,
    /// The kernel refused the memory.
    RegisterFailed,
    /// Both ends are attached.
    Attached,
    /// An end could not be attached.
    AttachFailed,
}

/// How far a channel has been built.
#[derive(Clone, Copy, PartialEq, Eq, Structural, Debug)]
pub struct ChannelBuild {
    /// Whether shared memory from before is used again.
    pub reuse: bool,
    /// Whether this process has registered shared memory, now or before.
    pub built: bool,
    /// What is to be done next.
    pub action: BuildAction,
    /// The shared memory, once it is known.
    pub shared: ChannelMemory,
}

/// The build in a process that has registered the given memory, or none so far.
pub open spec fn started(registered: Option<ChannelMemory>) -> ChannelBuild {
    match registered {
        Some(shared) => ChannelBuild {
            reuse: true,
            built: true,
            action: BuildAction::LookupShared,
            shared,
        },
        None => ChannelBuild {
            reuse: false,
            built: false,
            action: BuildAction::OpenDevice,
            shared: ChannelMemory { user_va: 0, size_bytes: 0 },
        },
    }
}

/// The channel that stands on the given memory.
pub open spec fn standing(shared: ChannelMemory) -> UringChannel {
    UringChannel { shared, graph_sender: true, complete_reciver: true }
}

/// The request that registers the given memory.
pub open spec fn registration(shared: ChannelMemory) -> K3AiChannelBuildParam {
    K3AiChannelBuildParam {
        abi_version: AI_ABI_VERSION,
        flags: 0,
        user_va: shared.user_va as u64,
        size_bytes: shared.size_bytes as u64,
        channel_count: 2,
        owner_pid: 0,
        reserved0: 0,
    }
}

/// What follows an action that turned out as said; an error ends the build.
pub open spec fn build_step(state: ChannelBuild, event: BuildEvent) -> Result<
    ChannelBuild,
    AiRuntimeErr,
> {
    match (state.action, event) {
        (BuildAction::LookupShared, BuildEvent::SharedFound) => Ok(
            ChannelBuild { action: BuildAction::Attach, ..state },
        ),
        (BuildAction::LookupShared, BuildEvent::SharedUnreadable) => Err(
            AiRuntimeErr::IoctlFailed,
        ),
        (BuildAction::LookupShared, _) => Err(AiRuntimeErr::ChannelNotInitialized),
        (BuildAction::OpenDevice, BuildEvent::DeviceOpen) => Ok(
            ChannelBuild { action: BuildAction::MapShared, ..state },
        ),
        (BuildAction::OpenDevice, _) => Err(AiRuntimeErr::DeviceOpenFailed),
        (BuildAction::MapShared, BuildEvent::Mapped(shared)) => Ok(
            ChannelBuild { action: BuildAction::Register(registration(shared)), shared, ..state },
        ),
        (BuildAction::MapShared, _) => Err(AiRuntimeErr::MmapFailed),
        (BuildAction::Register(_), BuildEvent::Registered) => Ok(
            ChannelBuild { built: true, action: BuildAction::Attach, ..state },
        ),
        (BuildAction::Register(_), _) => Err(AiRuntimeErr::IoctlFailed),
        (BuildAction::Attach, BuildEvent::Attached) => Ok(
            ChannelBuild { action: BuildAction::Done(standing(state.shared)), ..state },
        ),
        (BuildAction::Attach, _) => Err(AiRuntimeErr::ChannelNotInitialized),
        (BuildAction::Done(_), _) => Ok(state),
    }
}

impl ChannelBuild {
    /// Starts building. A process that has registered shared memory uses it again.
    pub fn start(registered: Option<ChannelMemory>) -> (r: Self)
        ensures
            r == started(registered),
            r.wf(),
    {
        match registered {
            Some(shared) => ChannelBuild {
                reuse: true,
                built: true,
                action: BuildAction::LookupShared,
                shared,
            },
            None => ChannelBuild {
                reuse: false,
                built: false,
                action: BuildAction::OpenDevice,
                shared: ChannelMemory { user_va: 0, size_bytes: 0 },
            },
        }
    }

    /// The memory that this process has registered, now or before.
    pub open spec fn kept(self) -> Option<ChannelMemory> {
        if self.built {
            Some(self.shared)
        } else {
            None
        }
    }

    /// The memory that this process has registered, now or before: what later builds start
    /// from.
    pub fn registered(&self) -> (r: Option<ChannelMemory>)
        ensures
            r == self.kept(),
    {
        if self.built {
            Some(self.shared)
        } else {
            None
        }
    }

    /// Goes on after an action that turned out as said; an error ends the build.
    pub fn on_event(self, event: BuildEvent) -> (r: Result<Self, AiRuntimeErr>)
        ensures
            r == build_step(self, event),
    {
        match (self.action, event) {
            (BuildAction::LookupShared, BuildEvent::SharedFound) => Ok(
                ChannelBuild {
                    reuse: self.reuse,
                    built: self.built,
                    action: BuildAction::Attach,
                    shared: self.shared,
                },
            ),
            (BuildAction::LookupShared, BuildEvent::SharedUnreadable) => Err(
                AiRuntimeErr::IoctlFailed,
            ),
            (BuildAction::LookupShared, _) => Err(AiRuntimeErr::ChannelNotInitialized),
            (BuildAction::OpenDevice, BuildEvent::DeviceOpen) => Ok(
                ChannelBuild {
                    reuse: self.reuse,
                    built: self.built,
                    action: BuildAction::MapShared,
                    shared: self.shared,
                },
            ),
            (BuildAction::OpenDevice, _) => Err(AiRuntimeErr::DeviceOpenFailed),
            (BuildAction::MapShared, BuildEvent::Mapped(shared)) => Ok(
                ChannelBuild {
                    reuse: self.reuse,
                    built: self.built,
                    action: BuildAction::Register(
                        K3AiChannelBuildParam::new(
                            shared.user_va as u64,
                            shared.size_bytes as u64,
                            K3_CHANNEL_COUNT as u32,
                        ),
                    ),
                    shared,
                },
            ),
            (BuildAction::MapShared, _) => Err(AiRuntimeErr::MmapFailed),
            (BuildAction::Register(_), BuildEvent::Registered) => Ok(
                ChannelBuild {
                    reuse: self.reuse,
                    built: true,
                    action: BuildAction::Attach,
                    shared: self.shared,
                },
            ),
            (BuildAction::Register(_), _) => Err(AiRuntimeErr::IoctlFailed),
            (BuildAction::Attach, BuildEvent::Attached) => Ok(
                ChannelBuild {
                    reuse: self.reuse,
                    built: self.built,
                    action: self.done(),
                    shared: self.shared,
                },
            ),
            (BuildAction::Attach, _) => Err(AiRuntimeErr::ChannelNotInitialized),
            (BuildAction::Done(_), _) => Ok(self),
        }
    }

    fn done(self) -> (r: BuildAction)
        ensures
            r == BuildAction::Done(standing(self.shared)),
    {
        BuildAction::Done(
            UringChannel { shared: self.shared, graph_sender: true, complete_reciver: true },
        )
    }

    /// What every build keeps: memory counts as registered from the answer of the
    /// kernel on, a first build never skips the registration, a later one opens, maps and
    /// registers nothing, and a channel that stands is one on registered memory.
    pub open spec fn wf(self) -> bool {
        &&& self.reuse ==> self.built
        &&& match self.action {
            BuildAction::LookupShared => self.reuse,
            BuildAction::OpenDevice => !self.reuse && !self.built,
            BuildAction::MapShared => !self.reuse && !self.built,
            BuildAction::Register(param) => {
                &&& !self.reuse
                &&& !self.built
                &&& param == registration(self.shared)
            },
            BuildAction::Attach => self.built,
            BuildAction::Done(channel) => self.built && channel == standing(self.shared),
        }
    }
}

/// A build starts well-formed and stays so.
pub proof fn build_stays_well_formed(state: ChannelBuild, event: BuildEvent)
    requires
        state.wf(),
    ensures
        build_step(state, event) matches Ok(next) ==> next.wf() && (state.built ==> next.kept()
            == state.kept()),
{
}

/// With every call a success, a first build opens the device, maps and registers fresh
/// memory and attaches both ends; a later one gets hold of the memory and attaches.
pub proof fn build_reaches_channel(shared: ChannelMemory)
    ensures
        ({
            let found = build_step(started(Some(shared)), BuildEvent::SharedFound)->Ok_0;
            let attached = build_step(found, BuildEvent::Attached)->Ok_0;
            attached.action == BuildAction::Done(standing(shared))
        }),
        ({
            let opened = build_step(started(None), BuildEvent::DeviceOpen)->Ok_0;
            let mapped = build_step(opened, BuildEvent::Mapped(shared))->Ok_0;
            let registered = build_step(mapped, BuildEvent::Registered)->Ok_0;
            let attached = build_step(registered, BuildEvent::Attached)->Ok_0;
            attached.action == BuildAction::Done(standing(shared)) && attached.kept() == Some(
                shared,
            )
        }),
{
}

/// How far a build comes with the given events, one after another.
pub open spec fn build_run(start: ChannelBuild, events: Seq<BuildEvent>) -> Result<
    ChannelBuild,
    AiRuntimeErr,
>
    decreases events.len(),
{
    if events.len() == 0 {
        Ok(start)
    } else {
        match build_run(start, events.drop_last()) {
            Ok(state) => build_step(state, events.last()),
            Err(err) => Err(err),
        }
    }
}

/// A build in a process that has registered shared memory never opens the device, maps
/// memory or registers it, whatever happens. The memory stays the registered one, and where
/// the build ends in a channel, the channel stands on it.
pub proof fn later_build_opens_nothing(registered: ChannelMemory, events: Seq<BuildEvent>)
    ensures
        build_run(started(Some(registered)), events) matches Ok(state) ==> {
            &&& state.action is LookupShared || state.action is Attach || state.action is Done
            &&& state.kept() == Some(registered)
            &&& state.action matches BuildAction::Done(channel) ==> channel == standing(registered)
        },
    decreases events.len(),
{
    if events.len() > 0 {
        later_build_opens_nothing(registered, events.drop_last());
    }
}

/// Any build leaves a well-formed state.
proof fn run_is_well_formed(registered: Option<ChannelMemory>, events: Seq<BuildEvent>)
    ensures
        build_run(started(registered), events) matches Ok(state) ==> state.wf(),
    decreases events.len(),
{
    if events.len() > 0 {
        run_is_well_formed(registered, events.drop_last());
    }
}

/// Once a process has a channel, every channel that it builds after that is the same one,
/// on the memory of the first.
pub proof fn later_channel_stands_on_the_first(
    before: Option<ChannelMemory>,
    first_events: Seq<BuildEvent>,
    first: ChannelBuild,
    first_channel: UringChannel,
    later_events: Seq<BuildEvent>,
    later: ChannelBuild,
    later_channel: UringChannel,
)
    requires
        build_run(started(before), first_events) == Ok::<ChannelBuild, AiRuntimeErr>(first),
        first.action == BuildAction::Done(first_channel),
        build_run(started(first.kept()), later_events) == Ok::<ChannelBuild, AiRuntimeErr>(later),
        later.action == BuildAction::Done(later_channel),
    ensures
        later_channel == first_channel,
        later.kept() == first.kept(),
{
    run_is_well_formed(before, first_events);
    later_build_opens_nothing(first.shared, later_events);
}

/// What is wrong with a submission before anything is sent.
pub open spec fn submit_fault(channel: UringChannel, entry: AiGraphSubmitEntry) -> Option<
    AiRuntimeErr,
> {
    if channel.shared.user_va == 0 || channel.shared.size_bytes == 0 {
        Some(AiRuntimeErr::InvalidInput)
    } else if entry.abi_version != AI_ABI_VERSION {
        Some(AiRuntimeErr::InvalidAbiVersion)
    } else if !channel.graph_sender {
        Some(AiRuntimeErr::ChannelNotInitialized)
    } else {
        None
    }
}

/// The bytes that submit a graph, where the submission is in order.
pub fn submit_payload(channel: &UringChannel, graph_entry: &AiGraphSubmitEntry) -> (r: Result<
    Vec<u8>,
    AiRuntimeErr,
>)
    ensures
        match r {
            Ok(bytes) => {
                &&& submit_fault(*channel, *graph_entry) is None
                &&& bytes@ == crate::bytes::bytes_of_words(graph_entry.words())
            },
            Err(err) => submit_fault(*channel, *graph_entry) == Some(err),
        },
{
    if channel.shared.user_va == 0 || channel.shared.size_bytes == 0 {
        return Err(AiRuntimeErr::InvalidInput);
    }
    if graph_entry.abi_version != AI_ABI_VERSION {
        return Err(AiRuntimeErr::InvalidAbiVersion);
    }
    if !channel.graph_sender {
        return Err(AiRuntimeErr::ChannelNotInitialized);
    }
    match graph_entry.to_le_byte() {
        Some(bytes) => Ok(bytes),
        None => Err(AiRuntimeErr::SerializeFailed),
    }
}

/// The message that submits a graph, where the submission is in order.
pub fn submit_graph(channel: &UringChannel, graph_entry: &AiGraphSubmitEntry) -> (r: Result<
    Message,
    AiRuntimeErr,
>)
    ensures
        match r {
            Ok(message) => {
                &&& submit_fault(*channel, *graph_entry) is None
                &&& crate::runtime::message::message_kind(message) == 1
                &&& crate::runtime::message::message_payload(message)
                    == crate::runtime::message::padded(
                    crate::bytes::bytes_of_words(graph_entry.words()),
                )
            },
            Err(err) => submit_fault(*channel, *graph_entry) == Some(err),
        },
{
    match submit_payload(channel, graph_entry) {
        Ok(bytes) => Ok(data_message(&bytes)),
        Err(err) => Err(err),
    }
}

/// What is answered once a message was sent and the kernel was told.
pub fn submit_outcome(sent: bool, told: bool) -> (r: Result<(), AiRuntimeErr>)
    ensures
        r == (if !sent {
            Err::<(), AiRuntimeErr>(AiRuntimeErr::SendFailed)
        } else if !told {
            Err(AiRuntimeErr::IoctlFailed)
        } else {
            Ok(())
        }),
{
    if !sent {
        Err(AiRuntimeErr::SendFailed)
    } else if !told {
        Err(AiRuntimeErr::IoctlFailed)
    } else {
        Ok(())
    }
}

/// How a graph ended, by its receipt.
pub open spec fn outcome_of(completion: AiCompletion) -> Result<(), AiRuntimeErr> {
    if completion.status == 0 {
        Ok(())
    } else {
        Err(
            AiRuntimeErr::GraphExecutionFailed {
                node_id: completion.failed_node_id,
                op: completion.failed_node_op,
                backend_err: completion.failed_node_err,
            },
        )
    }
}

/// What a message with the given payload or notification says about a graph.
pub open spec fn verdict(
    token: UserToken,
    data: Option<Seq<u8>>,
    notification: Option<u32>,
) -> Option<Result<(), AiRuntimeErr>> {
    match data {
        Some(payload) => if payload.len() >= 16 && AiCompletion::of_bytes(payload).user_token
            == token.0 {
            Some(outcome_of(AiCompletion::of_bytes(payload)))
        } else {
            None
        },
        None => if notification == Some(token.0) {
            Some(Ok(()))
        } else {
            None
        },
    }
}

/// What a data payload or a notification says about a graph: how it ended, or nothing
/// where the message is about another graph.
pub fn match_completion(
    token: UserToken,
    data: Option<Vec<u8>>,
    notification: Option<u32>,
) -> (r: Option<Result<(), AiRuntimeErr>>)
    ensures
        r == verdict(
            token,
            match data {
                Some(payload) => Some(payload@),
                None => None,
            },
            notification,
        ),
{
    match data {
        Some(payload) => match AiCompletion::from_bytes(&payload) {
            Some(completion) => if completion.user_token == token.0 {
                if completion.status == 0 {
                    Some(Ok(()))
                } else {
                    Some(
                        Err(
                            AiRuntimeErr::GraphExecutionFailed {
                                node_id: completion.failed_node_id,
                                op: completion.failed_node_op,
                                backend_err: completion.failed_node_err,
                            },
                        ),
                    )
                }
            } else {
                None
            },
            None => None,
        },
        None => match notification {
            Some(id) => if id == token.0 {
                Some(Ok(()))
            } else {
                None
            },
            None => None,
        },
    }
}

/// Looks at a message from the completion channel while a graph is waited for: how the
/// graph ended, or nothing where the wait goes on.
pub fn wait_graph_complete(graph_entry: &AiGraphSubmitEntry, message: &Message) -> (r: Option<
    Result<(), AiRuntimeErr>,
>)
    ensures
        r == verdict(
            graph_entry.user_token,
            if crate::runtime::message::message_kind(*message) == 1 {
                Some(crate::runtime::message::message_payload(*message))
            } else {
                None
            },
            if crate::runtime::message::message_kind(*message) == 0 {
                Some(crate::bytes::word_at(crate::runtime::message::message_payload(*message), 0))
            } else {
                None
            },
        ),
{
    let data: Option<Vec<u8>> = message_data(message);
    let notification: Option<u32> = message_notification(message);
    match_completion(graph_entry.user_token, data, notification)
}

/// The message that carries a receipt.
pub fn completion_message(completion: &AiCompletion) -> (r: Message)
    ensures
        crate::runtime::message::message_kind(r) == 1,
        crate::runtime::message::message_payload(r) == crate::runtime::message::padded(
            completion.bytes(),
        ),
{
    let bytes: Vec<u8> = completion.to_bytes();
    data_message(&bytes)
}

/// A receipt that was sent is read back as sent: whoever waits for its token learns how
/// the graph ended, and whoever waits for another token goes on waiting.
pub proof fn receipt_reaches_waiter(completion: AiCompletion, token: UserToken)
    ensures
        verdict(
            token,
            Some(crate::runtime::message::padded(completion.bytes())),
            None,
        ) == (if completion.user_token == token.0 {
            Some(outcome_of(completion))
        } else {
            None
        }),
{
    let payload = crate::runtime::message::padded(completion.bytes());
    let rest = Seq::new(239, |i: int| 0u8);
    assert(completion.bytes().len() == 16);
    assert(payload =~= completion.bytes() + rest);
    crate::uabi::error::completion_survives_bytes(completion, rest);
}


/// The registration names the memory, asks for two channels, and says the version of the
/// interface.
pub proof fn registration_names_the_memory(shared: ChannelMemory)
    ensures
        ({
            let param = registration(shared);
            &&& param.user_va == shared.user_va
            &&& param.size_bytes == shared.size_bytes
            &&& param.channel_count == 2
            &&& param.abi_version == AI_ABI_VERSION
        }),
{
}

/// An action that fails ends the build with the error of that action.
pub proof fn failed_actions_end_the_build(state: ChannelBuild, event: BuildEvent)
    ensures
        state.action is OpenDevice && !(event is DeviceOpen) ==> build_step(state, event) == Err::<
            ChannelBuild,
            AiRuntimeErr,
        >(AiRuntimeErr::DeviceOpenFailed),
        state.action is MapShared && !(event is Mapped) ==> build_step(state, event) == Err::<
            ChannelBuild,
            AiRuntimeErr,
        >(AiRuntimeErr::MmapFailed),
        state.action is Register && !(event is Registered) ==> build_step(state, event) == Err::<
            ChannelBuild,
            AiRuntimeErr,
        >(AiRuntimeErr::IoctlFailed),
        state.action is Attach && !(event is Attached) ==> build_step(state, event) == Err::<
            ChannelBuild,
            AiRuntimeErr,
        >(AiRuntimeErr::ChannelNotInitialized),
{
}

/// A graph that ended well is answered so, and one that failed is answered with the node, the
/// operation and the error of its receipt; a receipt with another token answers nothing.
pub proof fn receipts_answer_their_graph(token: UserToken, completion: AiCompletion)
    ensures
        ({
            let answer = verdict(token, Some(completion.bytes()), None);
            &&& completion.user_token != token.0 ==> answer is None
            &&& completion.user_token == token.0 && completion.status == 0 ==> answer == Some(
                Ok::<(), AiRuntimeErr>(()),
            )
            &&& completion.user_token == token.0 && completion.status != 0 ==> answer == Some(
                Err::<(), AiRuntimeErr>(
                    AiRuntimeErr::GraphExecutionFailed {
                        node_id: completion.failed_node_id,
                        op: completion.failed_node_op,
                        backend_err: completion.failed_node_err,
                    },
                ),
            )
        }),
{
    crate::uabi::error::completion_survives_bytes(completion, Seq::empty());
    assert(completion.bytes() + Seq::<u8>::empty() =~= completion.bytes());
}

} // verus!
