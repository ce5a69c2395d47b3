use vstd::prelude::*;
use vstd::utf8::encode_utf8;

use crate::bit_sets::{or_all_u16, or_all_u32, or_all_u8};
use crate::fixtures::FixtureError;

use crate::wire_bytes::{b8, extend_bytes, push_u16, push_u32, push_u64, push_u8, u16_le, u32_le, u64_le};

verus! {

/// The message type byte of a packet header.
#[derive(Debug, Clone, Copy, PartialEq, Eq, Structural)]
pub enum MessageTypeName {
    ClientHello,
    SessionPatchAck,
    FlowUpdate,
    ResultHint,
    FrameSubmit,
    ResultPush,
}

impl MessageTypeName {
    /// The value this name stands for on the wire.
    pub open spec fn code(self) -> u8 {
        match self {
            MessageTypeName::ClientHello => 0x01,
            MessageTypeName::SessionPatchAck => 0x04,
            MessageTypeName::FlowUpdate => 0x17,
            MessageTypeName::ResultHint => 0x18,
            MessageTypeName::FrameSubmit => 0x10,
            MessageTypeName::ResultPush => 0x12,
        }
    }

    pub fn as_u8(self) -> (value: u8)
        ensures
            value == self.code(),
    {
        match self {
            MessageTypeName::ClientHello => 0x01,
            MessageTypeName::SessionPatchAck => 0x04,
            MessageTypeName::FlowUpdate => 0x17,
            MessageTypeName::ResultHint => 0x18,
            MessageTypeName::FrameSubmit => 0x10,
            MessageTypeName::ResultPush => 0x12,
        }
    }
}

/// A flag bit of a packet header.
#[derive(Debug, Clone, Copy, PartialEq, Eq, Structural)]
pub enum HeaderFlagName {
    AckRequired,
    CanDrop,
    Stale,
    Eos,
    Retransmit,
    Keyframe,
}

impl HeaderFlagName {
    /// The value this name stands for on the wire.
    pub open spec fn code(self) -> u32 {
        match self {
            HeaderFlagName::AckRequired => 0x0000_0001,
            HeaderFlagName::CanDrop => 0x0000_0002,
            HeaderFlagName::Stale => 0x0000_0004,
            HeaderFlagName::Eos => 0x0000_0008,
            HeaderFlagName::Retransmit => 0x0000_0010,
            HeaderFlagName::Keyframe => 0x0000_0020,
        }
    }

    pub fn as_u32(self) -> (value: u32)
        ensures
            value == self.code(),
    {
        match self {
            HeaderFlagName::AckRequired => 0x0000_0001,
            HeaderFlagName::CanDrop => 0x0000_0002,
            HeaderFlagName::Stale => 0x0000_0004,
            HeaderFlagName::Eos => 0x0000_0008,
            HeaderFlagName::Retransmit => 0x0000_0010,
            HeaderFlagName::Keyframe => 0x0000_0020,
        }
    }
}

/// A typed payload kind, one bit each.
#[derive(Debug, Clone, Copy, PartialEq, Eq, Structural)]
pub enum PayloadKindName {
    Tensor,
    TokenChunk,
    AudioChunk,
    VideoChunk,
    StructuredEvent,
    ToolDelta,
    OpaqueBytes,
}

impl PayloadKindName {
    /// The value this name stands for on the wire.
    pub open spec fn code(self) -> u8 {
        match self {
            PayloadKindName::Tensor => 0x01,
            PayloadKindName::TokenChunk => 0x02,
            PayloadKindName::AudioChunk => 0x04,
            PayloadKindName::VideoChunk => 0x08,
            PayloadKindName::StructuredEvent => 0x10,
            PayloadKindName::ToolDelta => 0x20,
            PayloadKindName::OpaqueBytes => 0x40,
        }
    }

    pub fn as_u8(self) -> (value: u8)
        ensures
            value == self.code(),
    {
        match self {
            PayloadKindName::Tensor => 0x01,
            PayloadKindName::TokenChunk => 0x02,
            PayloadKindName::AudioChunk => 0x04,
            PayloadKindName::VideoChunk => 0x08,
            PayloadKindName::StructuredEvent => 0x10,
            PayloadKindName::ToolDelta => 0x20,
            PayloadKindName::OpaqueBytes => 0x40,
        }
    }

    pub fn as_u32(self) -> (value: u32)
        ensures
            value == self.code() as u32,
    {
        self.as_u8() as u32
    }
}

/// A session field that a patch can touch, one bit each.
#[derive(Debug, Clone, Copy, PartialEq, Eq, Structural)]
pub enum SessionPatchFieldName {
    TargetCadence,
    QualityTier,
    DegradePolicy,
    ActiveLaneMask,
    PreferredCodec,
    PreferredCompression,
    ProfilePatch,
}

impl SessionPatchFieldName {
    /// The value this name stands for on the wire.
    pub open spec fn code(self) -> u32 {
        match self {
            SessionPatchFieldName::TargetCadence => 0x0000_0001,
            SessionPatchFieldName::QualityTier => 0x0000_0002,
            SessionPatchFieldName::DegradePolicy => 0x0000_0004,
            SessionPatchFieldName::ActiveLaneMask => 0x0000_0008,
            SessionPatchFieldName::PreferredCodec => 0x0000_0010,
            SessionPatchFieldName::PreferredCompression => 0x0000_0020,
            SessionPatchFieldName::ProfilePatch => 0x0000_0040,
        }
    }

    pub fn as_u32(self) -> (value: u32)
        ensures
            value == self.code(),
    {
        match self {
            SessionPatchFieldName::TargetCadence => 0x0000_0001,
            SessionPatchFieldName::QualityTier => 0x0000_0002,
            SessionPatchFieldName::DegradePolicy => 0x0000_0004,
            SessionPatchFieldName::ActiveLaneMask => 0x0000_0008,
            SessionPatchFieldName::PreferredCodec => 0x0000_0010,
            SessionPatchFieldName::PreferredCompression => 0x0000_0020,
            SessionPatchFieldName::ProfilePatch => 0x0000_0040,
        }
    }
}

/// How a session patch was answered.
#[derive(Debug, Clone, Copy, PartialEq, Eq, Structural)]
pub enum SessionPatchAckStatusName {
    Accepted,
    PartiallyApplied,
    Rejected,
}

impl SessionPatchAckStatusName {
    /// The value this name stands for on the wire.
    pub open spec fn code(self) -> u16 {
        match self {
            SessionPatchAckStatusName::Accepted => 0,
            SessionPatchAckStatusName::PartiallyApplied => 1,
            SessionPatchAckStatusName::Rejected => 2,
        }
    }

    pub fn as_u16(self) -> (value: u16)
        ensures
            value == self.code(),
    {
        match self {
            SessionPatchAckStatusName::Accepted => 0,
            SessionPatchAckStatusName::PartiallyApplied => 1,
            SessionPatchAckStatusName::Rejected => 2,
        }
    }
}

/// Why a session patch was rejected.
#[derive(Debug, Clone, Copy, PartialEq, Eq, Structural)]
pub enum SessionPatchRejectReasonName {
    Absent,
    UnsupportedField,
    InvalidRange,
    UnsupportedStrategy,
    InvalidLaneMask,
    RateLimited,
}

impl SessionPatchRejectReasonName {
    /// The value this name stands for on the wire.
    pub open spec fn code(self) -> u16 {
        match self {
            SessionPatchRejectReasonName::Absent => 0,
            SessionPatchRejectReasonName::UnsupportedField => 1,
            SessionPatchRejectReasonName::InvalidRange => 2,
            SessionPatchRejectReasonName::UnsupportedStrategy => 3,
            SessionPatchRejectReasonName::InvalidLaneMask => 4,
            SessionPatchRejectReasonName::RateLimited => 5,
        }
    }

    pub fn as_u16(self) -> (value: u16)
        ensures
            value == self.code(),
    {
        match self {
            SessionPatchRejectReasonName::Absent => 0,
            SessionPatchRejectReasonName::UnsupportedField => 1,
            SessionPatchRejectReasonName::InvalidRange => 2,
            SessionPatchRejectReasonName::UnsupportedStrategy => 3,
            SessionPatchRejectReasonName::InvalidLaneMask => 4,
            SessionPatchRejectReasonName::RateLimited => 5,
        }
    }
}

/// What a flow update applies to.
#[derive(Debug, Clone, Copy, PartialEq, Eq, Structural)]
pub enum FlowUpdateScopeKindName {
    Connection,
    Session,
    Operation,
}

impl FlowUpdateScopeKindName {
    /// The value this name stands for on the wire.
    pub open spec fn code(self) -> u8 {
        match self {
            FlowUpdateScopeKindName::Connection => 0,
            FlowUpdateScopeKindName::Session => 1,
            FlowUpdateScopeKindName::Operation => 2,
        }
    }

    pub fn as_u8(self) -> (value: u8)
        ensures
            value == self.code(),
    {
        match self {
            FlowUpdateScopeKindName::Connection => 0,
            FlowUpdateScopeKindName::Session => 1,
            FlowUpdateScopeKindName::Operation => 2,
        }
    }
}

/// Why credit changed.
#[derive(Debug, Clone, Copy, PartialEq, Eq, Structural)]
pub enum FlowUpdateReasonName {
    Grant,
    Reduce,
    Pause,
    Resume,
    Congestion,
}

impl FlowUpdateReasonName {
    /// The value this name stands for on the wire.
    pub open spec fn code(self) -> u8 {
        match self {
            FlowUpdateReasonName::Grant => 0,
            FlowUpdateReasonName::Reduce => 1,
            FlowUpdateReasonName::Pause => 2,
            FlowUpdateReasonName::Resume => 3,
            FlowUpdateReasonName::Congestion => 4,
        }
    }

    pub fn as_u8(self) -> (value: u8)
        ensures
            value == self.code(),
    {
        match self {
            FlowUpdateReasonName::Grant => 0,
            FlowUpdateReasonName::Reduce => 1,
            FlowUpdateReasonName::Pause => 2,
            FlowUpdateReasonName::Resume => 3,
            FlowUpdateReasonName::Congestion => 4,
        }
    }
}

/// How hard the peer pushes back.
#[derive(Debug, Clone, Copy, PartialEq, Eq, Structural)]
pub enum FlowUpdateBackpressureLevelName {
    Absent,
    Soft,
    Hard,
}

impl FlowUpdateBackpressureLevelName {
    /// The value this name stands for on the wire.
    pub open spec fn code(self) -> u8 {
        match self {
            FlowUpdateBackpressureLevelName::Absent => 0,
            FlowUpdateBackpressureLevelName::Soft => 1,
            FlowUpdateBackpressureLevelName::Hard => 2,
        }
    }

    pub fn as_u8(self) -> (value: u8)
        ensures
            value == self.code(),
    {
        match self {
            FlowUpdateBackpressureLevelName::Absent => 0,
            FlowUpdateBackpressureLevelName::Soft => 1,
            FlowUpdateBackpressureLevelName::Hard => 2,
        }
    }
}

/// A flow update flag, one bit each.
#[derive(Debug, Clone, Copy, PartialEq, Eq, Structural)]
pub enum FlowUpdateFlagName {
    CreditValid,
    RetryAfterValid,
    BackgroundOnly,
    DrainInFlightOnly,
}

impl FlowUpdateFlagName {
    /// The value this name stands for on the wire.
    pub open spec fn code(self) -> u32 {
        match self {
            FlowUpdateFlagName::CreditValid => 0x0000_0001,
            FlowUpdateFlagName::RetryAfterValid => 0x0000_0002,
            FlowUpdateFlagName::BackgroundOnly => 0x0000_0004,
            FlowUpdateFlagName::DrainInFlightOnly => 0x0000_0008,
        }
    }

    pub fn as_u32(self) -> (value: u32)
        ensures
            value == self.code(),
    {
        match self {
            FlowUpdateFlagName::CreditValid => 0x0000_0001,
            FlowUpdateFlagName::RetryAfterValid => 0x0000_0002,
            FlowUpdateFlagName::BackgroundOnly => 0x0000_0004,
            FlowUpdateFlagName::DrainInFlightOnly => 0x0000_0008,
        }
    }
}

/// The priority class of a session.
#[derive(Debug, Clone, Copy, PartialEq, Eq, Structural)]
pub enum SessionPriorityClassName {
    Interactive,
    Balanced,
    Background,
}

impl SessionPriorityClassName {
    /// The value this name stands for on the wire.
    pub open spec fn code(self) -> u8 {
        match self {
            SessionPriorityClassName::Interactive => 0,
            SessionPriorityClassName::Balanced => 1,
            SessionPriorityClassName::Background => 2,
        }
    }

    pub fn as_u8(self) -> (value: u8)
        ensures
            value == self.code(),
    {
        match self {
            SessionPriorityClassName::Interactive => 0,
            SessionPriorityClassName::Balanced => 1,
            SessionPriorityClassName::Background => 2,
        }
    }
}

/// How a session open was answered.
#[derive(Debug, Clone, Copy, PartialEq, Eq, Structural)]
pub enum SessionStatusName {
    Opened,
    Rejected,
    RetryLater,
    Resumed,
}

impl SessionStatusName {
    /// The value this name stands for on the wire.
    pub open spec fn code(self) -> u8 {
        match self {
            SessionStatusName::Opened => 0,
            SessionStatusName::Rejected => 1,
            SessionStatusName::RetryLater => 2,
            SessionStatusName::Resumed => 3,
        }
    }

    pub fn as_u8(self) -> (value: u8)
        ensures
            value == self.code(),
    {
        match self {
            SessionStatusName::Opened => 0,
            SessionStatusName::Rejected => 1,
            SessionStatusName::RetryLater => 2,
            SessionStatusName::Resumed => 3,
        }
    }
}

/// Why a session closes.
#[derive(Debug, Clone, Copy, PartialEq, Eq, Structural)]
pub enum SessionCloseReasonName {
    Normal,
    ClientShutdown,
    ServerShutdown,
    IdleTimeout,
    ProtocolError,
    AuthRevoked,
}

impl SessionCloseReasonName {
    /// The value this name stands for on the wire.
    pub open spec fn code(self) -> u16 {
        match self {
            SessionCloseReasonName::Normal => 0,
            SessionCloseReasonName::ClientShutdown => 1,
            SessionCloseReasonName::ServerShutdown => 2,
            SessionCloseReasonName::IdleTimeout => 3,
            SessionCloseReasonName::ProtocolError => 4,
            SessionCloseReasonName::AuthRevoked => 5,
        }
    }

    pub fn as_u16(self) -> (value: u16)
        ensures
            value == self.code(),
    {
        match self {
            SessionCloseReasonName::Normal => 0,
            SessionCloseReasonName::ClientShutdown => 1,
            SessionCloseReasonName::ServerShutdown => 2,
            SessionCloseReasonName::IdleTimeout => 3,
            SessionCloseReasonName::ProtocolError => 4,
            SessionCloseReasonName::AuthRevoked => 5,
        }
    }
}

/// What happens to operations still in flight at close.
#[derive(Debug, Clone, Copy, PartialEq, Eq, Structural)]
pub enum InFlightPolicyName {
    Drain,
    Abort,
}

impl InFlightPolicyName {
    /// The value this name stands for on the wire.
    pub open spec fn code(self) -> u8 {
        match self {
            InFlightPolicyName::Drain => 0,
            InFlightPolicyName::Abort => 1,
        }
    }

    pub fn as_u8(self) -> (value: u8)
        ensures
            value == self.code(),
    {
        match self {
            InFlightPolicyName::Drain => 0,
            InFlightPolicyName::Abort => 1,
        }
    }
}

/// How a session close was answered.
#[derive(Debug, Clone, Copy, PartialEq, Eq, Structural)]
pub enum SessionCloseStatusName {
    Acknowledged,
    Draining,
    Closed,
    Rejected,
}

impl SessionCloseStatusName {
    /// The value this name stands for on the wire.
    pub open spec fn code(self) -> u8 {
        match self {
            SessionCloseStatusName::Acknowledged => 0,
            SessionCloseStatusName::Draining => 1,
            SessionCloseStatusName::Closed => 2,
            SessionCloseStatusName::Rejected => 3,
        }
    }

    pub fn as_u8(self) -> (value: u8)
        ensures
            value == self.code(),
    {
        match self {
            SessionCloseStatusName::Acknowledged => 0,
            SessionCloseStatusName::Draining => 1,
            SessionCloseStatusName::Closed => 2,
            SessionCloseStatusName::Rejected => 3,
        }
    }
}

/// The budget policy a result hint reports.
#[derive(Debug, Clone, Copy, PartialEq, Eq, Structural)]
pub enum ResultHintBudgetPolicyName {
    Absent,
    Full,
    Partial,
    StaleReuse,
    Drop,
}

impl ResultHintBudgetPolicyName {
    /// The value this name stands for on the wire.
    pub open spec fn code(self) -> u32 {
        match self {
            ResultHintBudgetPolicyName::Absent => 0,
            ResultHintBudgetPolicyName::Full => 1,
            ResultHintBudgetPolicyName::Partial => 2,
            ResultHintBudgetPolicyName::StaleReuse => 3,
            ResultHintBudgetPolicyName::Drop => 4,
        }
    }

    pub fn as_u32(self) -> (value: u32)
        ensures
            value == self.code(),
    {
        match self {
            ResultHintBudgetPolicyName::Absent => 0,
            ResultHintBudgetPolicyName::Full => 1,
            ResultHintBudgetPolicyName::Partial => 2,
            ResultHintBudgetPolicyName::StaleReuse => 3,
            ResultHintBudgetPolicyName::Drop => 4,
        }
    }
}

/// The congestion state a result hint reports.
#[derive(Debug, Clone, Copy, PartialEq, Eq, Structural)]
pub enum ResultHintCongestionStateName {
    Absent,
    Steady,
    Elevated,
    Saturated,
}

impl ResultHintCongestionStateName {
    /// The value this name stands for on the wire.
    pub open spec fn code(self) -> u32 {
        match self {
            ResultHintCongestionStateName::Absent => 0,
            ResultHintCongestionStateName::Steady => 1,
            ResultHintCongestionStateName::Elevated => 2,
            ResultHintCongestionStateName::Saturated => 3,
        }
    }

    pub fn as_u32(self) -> (value: u32)
        ensures
            value == self.code(),
    {
        match self {
            ResultHintCongestionStateName::Absent => 0,
            ResultHintCongestionStateName::Steady => 1,
            ResultHintCongestionStateName::Elevated => 2,
            ResultHintCongestionStateName::Saturated => 3,
        }
    }
}

/// Why a result hint was sent.
#[derive(Debug, Clone, Copy, PartialEq, Eq, Structural)]
pub enum ResultHintReasonName {
    Absent,
    QueueFull,
    ServerBusy,
    BudgetExceeded,
    Superseded,
}

impl ResultHintReasonName {
    /// The value this name stands for on the wire.
    pub open spec fn code(self) -> u32 {
        match self {
            ResultHintReasonName::Absent => 0,
            ResultHintReasonName::QueueFull => 1,
            ResultHintReasonName::ServerBusy => 2,
            ResultHintReasonName::BudgetExceeded => 3,
            ResultHintReasonName::Superseded => 4,
        }
    }

    pub fn as_u32(self) -> (value: u32)
        ensures
            value == self.code(),
    {
        match self {
            ResultHintReasonName::Absent => 0,
            ResultHintReasonName::QueueFull => 1,
            ResultHintReasonName::ServerBusy => 2,
            ResultHintReasonName::BudgetExceeded => 3,
            ResultHintReasonName::Superseded => 4,
        }
    }
}

/// The kind of a cached object.
#[derive(Debug, Clone, Copy, PartialEq, Eq, Structural)]
pub enum CacheObjectKindName {
    CameraBlock,
    TileIndexBlock,
    TensorSectionTable,
    CodecTable,
    ReusableResultObject,
    PayloadLayoutTemplate,
    PromptSegment,
    ToolSchema,
    StructuredEventSchema,
}

impl CacheObjectKindName {
    /// The value this name stands for on the wire.
    pub open spec fn code(self) -> u16 {
        match self {
            CacheObjectKindName::CameraBlock => 0x0001,
            CacheObjectKindName::TileIndexBlock => 0x0002,
            CacheObjectKindName::TensorSectionTable => 0x0003,
            CacheObjectKindName::CodecTable => 0x0004,
            CacheObjectKindName::ReusableResultObject => 0x0005,
            CacheObjectKindName::PayloadLayoutTemplate => 0x0006,
            CacheObjectKindName::PromptSegment => 0x0007,
            CacheObjectKindName::ToolSchema => 0x0008,
            CacheObjectKindName::StructuredEventSchema => 0x0009,
        }
    }

    pub fn as_u16(self) -> (value: u16)
        ensures
            value == self.code(),
    {
        match self {
            CacheObjectKindName::CameraBlock => 0x0001,
            CacheObjectKindName::TileIndexBlock => 0x0002,
            CacheObjectKindName::TensorSectionTable => 0x0003,
            CacheObjectKindName::CodecTable => 0x0004,
            CacheObjectKindName::ReusableResultObject => 0x0005,
            CacheObjectKindName::PayloadLayoutTemplate => 0x0006,
            CacheObjectKindName::PromptSegment => 0x0007,
            CacheObjectKindName::ToolSchema => 0x0008,
            CacheObjectKindName::StructuredEventSchema => 0x0009,
        }
    }
}

/// The input profile of a frame submit.
#[derive(Debug, Clone, Copy, PartialEq, Eq, Structural)]
pub enum InputProfileName {
    Unspecified,
    ChangedTilesLuma,
    DenseLumaFrame,
}

impl InputProfileName {
    /// The value this name stands for on the wire.
    pub open spec fn code(self) -> u8 {
        match self {
            InputProfileName::Unspecified => 0,
            InputProfileName::ChangedTilesLuma => 1,
            InputProfileName::DenseLumaFrame => 2,
        }
    }

    pub fn as_u8(self) -> (value: u8)
        ensures
            value == self.code(),
    {
        match self {
            InputProfileName::Unspecified => 0,
            InputProfileName::ChangedTilesLuma => 1,
            InputProfileName::DenseLumaFrame => 2,
        }
    }
}

/// How tile indices are encoded.
#[derive(Debug, Clone, Copy, PartialEq, Eq, Structural)]
pub enum TileIndexModeName {
    DenseRange,
    RawU16,
    DeltaU16,
    Bitset,
}

impl TileIndexModeName {
    /// The value this name stands for on the wire.
    pub open spec fn code(self) -> u8 {
        match self {
            TileIndexModeName::DenseRange => 0,
            TileIndexModeName::RawU16 => 1,
            TileIndexModeName::DeltaU16 => 2,
            TileIndexModeName::Bitset => 3,
        }
    }

    pub fn as_u8(self) -> (value: u8)
        ensures
            value == self.code(),
    {
        match self {
            TileIndexModeName::DenseRange => 0,
            TileIndexModeName::RawU16 => 1,
            TileIndexModeName::DeltaU16 => 2,
            TileIndexModeName::Bitset => 3,
        }
    }
}

/// How a frame submit carries its data.
#[derive(Debug, Clone, Copy, PartialEq, Eq, Structural)]
pub enum SubmitModeName {
    Inline,
    Reference,
    Mixed,
}

impl SubmitModeName {
    /// The value this name stands for on the wire.
    pub open spec fn code(self) -> u8 {
        match self {
            SubmitModeName::Inline => 0,
            SubmitModeName::Reference => 1,
            SubmitModeName::Mixed => 2,
        }
    }

    pub fn as_u8(self) -> (value: u8)
        ensures
            value == self.code(),
    {
        match self {
            SubmitModeName::Inline => 0,
            SubmitModeName::Reference => 1,
            SubmitModeName::Mixed => 2,
        }
    }
}

/// A budget policy allowance, one bit each.
#[derive(Debug, Clone, Copy, PartialEq, Eq, Structural)]
pub enum BudgetPolicyName {
    Partial,
    StaleReuse,
    Degraded,
    Drop,
}

impl BudgetPolicyName {
    /// The value this name stands for on the wire.
    pub open spec fn code(self) -> u8 {
        match self {
            BudgetPolicyName::Partial => 0x01,
            BudgetPolicyName::StaleReuse => 0x02,
            BudgetPolicyName::Degraded => 0x04,
            BudgetPolicyName::Drop => 0x08,
        }
    }

    pub fn as_u8(self) -> (value: u8)
        ensures
            value == self.code(),
    {
        match self {
            BudgetPolicyName::Partial => 0x01,
            BudgetPolicyName::StaleReuse => 0x02,
            BudgetPolicyName::Degraded => 0x04,
            BudgetPolicyName::Drop => 0x08,
        }
    }
}

/// How much loss a submit tolerates.
#[derive(Debug, Clone, Copy, PartialEq, Eq, Structural)]
pub enum LossTolerancePolicyName {
    Strict,
    BestEffort,
    LowLatency,
    FireAndForget,
    InheritSession,
}

impl LossTolerancePolicyName {
    /// The value this name stands for on the wire.
    pub open spec fn code(self) -> u8 {
        match self {
            LossTolerancePolicyName::Strict => 0,
            LossTolerancePolicyName::BestEffort => 1,
            LossTolerancePolicyName::LowLatency => 2,
            LossTolerancePolicyName::FireAndForget => 3,
            LossTolerancePolicyName::InheritSession => 0xff,
        }
    }

    pub fn as_u8(self) -> (value: u8)
        ensures
            value == self.code(),
    {
        match self {
            LossTolerancePolicyName::Strict => 0,
            LossTolerancePolicyName::BestEffort => 1,
            LossTolerancePolicyName::LowLatency => 2,
            LossTolerancePolicyName::FireAndForget => 3,
            LossTolerancePolicyName::InheritSession => 0xff,
        }
    }
}

/// A result flag, one bit each.
#[derive(Debug, Clone, Copy, PartialEq, Eq, Structural)]
pub enum ResultFlagName {
    Stale,
    Fallback,
    Partial,
}

impl ResultFlagName {
    /// The value this name stands for on the wire.
    pub open spec fn code(self) -> u16 {
        match self {
            ResultFlagName::Stale => 0x0001,
            ResultFlagName::Fallback => 0x0002,
            ResultFlagName::Partial => 0x0004,
        }
    }

    pub fn as_u16(self) -> (value: u16)
        ensures
            value == self.code(),
    {
        match self {
            ResultFlagName::Stale => 0x0001,
            ResultFlagName::Fallback => 0x0002,
            ResultFlagName::Partial => 0x0004,
        }
    }
}

/// The class of a pushed result.
#[derive(Debug, Clone, Copy, PartialEq, Eq, Structural)]
pub enum ResultClassName {
    Complete,
    Partial,
    StaleReuse,
    Degraded,
}

impl ResultClassName {
    /// The value this name stands for on the wire.
    pub open spec fn code(self) -> u8 {
        match self {
            ResultClassName::Complete => 0,
            ResultClassName::Partial => 1,
            ResultClassName::StaleReuse => 2,
            ResultClassName::Degraded => 3,
        }
    }

    pub fn as_u8(self) -> (value: u8)
        ensures
            value == self.code(),
    {
        match self {
            ResultClassName::Complete => 0,
            ResultClassName::Partial => 1,
            ResultClassName::StaleReuse => 2,
            ResultClassName::Degraded => 3,
        }
    }
}


/// The wire values of a list of `HeaderFlagName`s, in list order.
pub open spec fn header_flag_bits_values(flags: Seq<HeaderFlagName>) -> Seq<u32> {
    flags.map_values(|f: HeaderFlagName| f.code())
}

/// Header flag bits, one OR-ed in per listed flag.
pub open spec fn header_flag_bits(flags: Seq<HeaderFlagName>) -> u32 {
    or_all_u32(header_flag_bits_values(flags))
}

pub fn header_flags(flags: &[HeaderFlagName]) -> (bits: u32)
    ensures
        bits == header_flag_bits(flags@),
{
    let mut bits: u32 = 0;
    let mut i: usize = 0;
    while i < flags.len()
        invariant
            i <= flags@.len(),
            bits == or_all_u32(header_flag_bits_values(flags@.take(i as int))),
        decreases flags@.len() - i,
    {
        let value = flags[i].as_u32();
        bits = bits | value;
        i = i + 1;
        assert(header_flag_bits_values(flags@.take(i as int)).drop_last() =~= header_flag_bits_values(flags@.take(i - 1)));
    }
    assert(flags@.take(i as int) =~= flags@);
    bits
}

/// The wire values of a list of `PayloadKindName`s, in list order.
pub open spec fn payload_kind_bits_values(flags: Seq<PayloadKindName>) -> Seq<u32> {
    flags.map_values(|f: PayloadKindName| f.code() as u32)
}

/// Payload kind bits, one OR-ed in per listed kind.
pub open spec fn payload_kind_bits(flags: Seq<PayloadKindName>) -> u32 {
    or_all_u32(payload_kind_bits_values(flags))
}

pub fn payload_kinds(flags: &[PayloadKindName]) -> (bits: u32)
    ensures
        bits == payload_kind_bits(flags@),
{
    let mut bits: u32 = 0;
    let mut i: usize = 0;
    while i < flags.len()
        invariant
            i <= flags@.len(),
            bits == or_all_u32(payload_kind_bits_values(flags@.take(i as int))),
        decreases flags@.len() - i,
    {
        let value = flags[i].as_u32();
        bits = bits | value;
        i = i + 1;
        assert(payload_kind_bits_values(flags@.take(i as int)).drop_last() =~= payload_kind_bits_values(flags@.take(i - 1)));
    }
    assert(flags@.take(i as int) =~= flags@);
    bits
}

/// The wire values of a list of `SessionPatchFieldName`s, in list order.
pub open spec fn session_patch_bits_values(flags: Seq<SessionPatchFieldName>) -> Seq<u32> {
    flags.map_values(|f: SessionPatchFieldName| f.code())
}

/// Session patch field bits, one OR-ed in per listed field.
pub open spec fn session_patch_bits(flags: Seq<SessionPatchFieldName>) -> u32 {
    or_all_u32(session_patch_bits_values(flags))
}

pub fn session_patch_fields(flags: &[SessionPatchFieldName]) -> (bits: u32)
    ensures
        bits == session_patch_bits(flags@),
{
    let mut bits: u32 = 0;
    let mut i: usize = 0;
    while i < flags.len()
        invariant
            i <= flags@.len(),
            bits == or_all_u32(session_patch_bits_values(flags@.take(i as int))),
        decreases flags@.len() - i,
    {
        let value = flags[i].as_u32();
        bits = bits | value;
        i = i + 1;
        assert(session_patch_bits_values(flags@.take(i as int)).drop_last() =~= session_patch_bits_values(flags@.take(i - 1)));
    }
    assert(flags@.take(i as int) =~= flags@);
    bits
}

/// The wire values of a list of `FlowUpdateFlagName`s, in list order.
pub open spec fn flow_update_flag_bits_values(flags: Seq<FlowUpdateFlagName>) -> Seq<u32> {
    flags.map_values(|f: FlowUpdateFlagName| f.code())
}

/// Flow update flag bits, one OR-ed in per listed flag.
pub open spec fn flow_update_flag_bits(flags: Seq<FlowUpdateFlagName>) -> u32 {
    or_all_u32(flow_update_flag_bits_values(flags))
}

pub fn flow_update_flags_bits(flags: &[FlowUpdateFlagName]) -> (bits: u32)
    ensures
        bits == flow_update_flag_bits(flags@),
{
    let mut bits: u32 = 0;
    let mut i: usize = 0;
    while i < flags.len()
        invariant
            i <= flags@.len(),
            bits == or_all_u32(flow_update_flag_bits_values(flags@.take(i as int))),
        decreases flags@.len() - i,
    {
        let value = flags[i].as_u32();
        bits = bits | value;
        i = i + 1;
        assert(flow_update_flag_bits_values(flags@.take(i as int)).drop_last() =~= flow_update_flag_bits_values(flags@.take(i - 1)));
    }
    assert(flags@.take(i as int) =~= flags@);
    bits
}

/// The wire values of a list of `BudgetPolicyName`s, in list order.
pub open spec fn budget_policy_mask_values(flags: Seq<BudgetPolicyName>) -> Seq<u8> {
    flags.map_values(|f: BudgetPolicyName| f.code())
}

/// Budget policy bits, one OR-ed in per listed policy.
pub open spec fn budget_policy_mask(flags: Seq<BudgetPolicyName>) -> u8 {
    or_all_u8(budget_policy_mask_values(flags))
}

pub fn budget_policy_bits(flags: &[BudgetPolicyName]) -> (bits: u8)
    ensures
        bits == budget_policy_mask(flags@),
{
    let mut bits: u8 = 0;
    let mut i: usize = 0;
    while i < flags.len()
        invariant
            i <= flags@.len(),
            bits == or_all_u8(budget_policy_mask_values(flags@.take(i as int))),
        decreases flags@.len() - i,
    {
        let value = flags[i].as_u8();
        bits = bits | value;
        i = i + 1;
        assert(budget_policy_mask_values(flags@.take(i as int)).drop_last() =~= budget_policy_mask_values(flags@.take(i - 1)));
    }
    assert(flags@.take(i as int) =~= flags@);
    bits
}

/// The wire values of a list of `ResultFlagName`s, in list order.
pub open spec fn result_flag_bits_values(flags: Seq<ResultFlagName>) -> Seq<u16> {
    flags.map_values(|f: ResultFlagName| f.code())
}

/// Result flag bits, one OR-ed in per listed flag.
pub open spec fn result_flag_bits(flags: Seq<ResultFlagName>) -> u16 {
    or_all_u16(result_flag_bits_values(flags))
}

pub fn result_flags_bits(flags: &[ResultFlagName]) -> (bits: u16)
    ensures
        bits == result_flag_bits(flags@),
{
    let mut bits: u16 = 0;
    let mut i: usize = 0;
    while i < flags.len()
        invariant
            i <= flags@.len(),
            bits == or_all_u16(result_flag_bits_values(flags@.take(i as int))),
        decreases flags@.len() - i,
    {
        let value = flags[i].as_u16();
        bits = bits | value;
        i = i + 1;
        assert(result_flag_bits_values(flags@.take(i as int)).drop_last() =~= result_flag_bits_values(flags@.take(i - 1)));
    }
    assert(flags@.take(i as int) =~= flags@);
    bits
}


/// The fixed fields of a packet header.
#[derive(Debug, Clone, Copy)]
pub struct HeaderFields {
    pub version_major: u8,
    pub wire_format: u8,
    pub message_type: u8,
    pub flags: u32,
    pub meta_len: u32,
    pub body_len: u32,
    pub session_id: u32,
    pub frame_id: u32,
    pub view_id: u16,
    pub route_id: u16,
    pub trace_id: u64,
}

/// The length of a packet header in bytes.
pub const HEADER_BYTES: u8 = 40;

/// The 40-byte header: magic `NNRP`, version, wire format, message type, header
/// length, then the numeric fields in little-endian order.
pub open spec fn header_bytes(f: HeaderFields) -> Seq<u8> {
    Seq::<u8>::empty()
        + b8(0x4e)
        + b8(0x4e)
        + b8(0x52)
        + b8(0x50)
        + b8(f.version_major)
        + b8(f.wire_format)
        + b8(f.message_type)
        + b8(HEADER_BYTES)
        + u32_le(f.flags)
        + u32_le(f.meta_len)
        + u32_le(f.body_len)
        + u32_le(f.session_id)
        + u32_le(f.frame_id)
        + u16_le(f.view_id)
        + u16_le(f.route_id)
        + u64_le(f.trace_id)
}

pub fn pack_header(fields: HeaderFields) -> (payload: Vec<u8>)
    ensures
        payload@ == header_bytes(fields),
{
    let mut payload: Vec<u8> = Vec::new();
    push_u8(&mut payload, 0x4e);
    push_u8(&mut payload, 0x4e);
    push_u8(&mut payload, 0x52);
    push_u8(&mut payload, 0x50);
    push_u8(&mut payload, fields.version_major);
    push_u8(&mut payload, fields.wire_format);
    push_u8(&mut payload, fields.message_type);
    push_u8(&mut payload, HEADER_BYTES);
    push_u32(&mut payload, fields.flags);
    push_u32(&mut payload, fields.meta_len);
    push_u32(&mut payload, fields.body_len);
    push_u32(&mut payload, fields.session_id);
    push_u32(&mut payload, fields.frame_id);
    push_u16(&mut payload, fields.view_id);
    push_u16(&mut payload, fields.route_id);
    push_u64(&mut payload, fields.trace_id);
    payload
}

/// The header fields with the metadata and body lengths replaced.
pub open spec fn with_lengths(f: HeaderFields, meta_len: u32, body_len: u32) -> HeaderFields {
    HeaderFields {
        version_major: f.version_major,
        wire_format: f.wire_format,
        message_type: f.message_type,
        flags: f.flags,
        meta_len,
        body_len,
        session_id: f.session_id,
        frame_id: f.frame_id,
        view_id: f.view_id,
        route_id: f.route_id,
        trace_id: f.trace_id,
    }
}

/// A packet: a header that carries the metadata and body lengths, then the
/// metadata, then the body.
pub open spec fn packet_bytes(f: HeaderFields, metadata: Seq<u8>, body: Seq<u8>) -> Seq<u8> {
    header_bytes(with_lengths(f, metadata.len() as u32, body.len() as u32)) + metadata + body
}

pub fn build_packet(fields: HeaderFields, metadata: Vec<u8>, body: Vec<u8>) -> (packet: Vec<u8>)
    ensures
        packet@ == packet_bytes(fields, metadata@, body@),
{
    let mut fields = fields;
    fields.meta_len = metadata.len() as u32;
    fields.body_len = body.len() as u32;
    let mut packet = pack_header(fields);
    extend_bytes(&mut packet, metadata.as_slice());
    extend_bytes(&mut packet, body.as_slice());
    assert(fields == with_lengths(fields, metadata@.len() as u32, body@.len() as u32));
    packet
}

/// One typed payload frame: its kind, profile and UTF-8 text.
#[derive(Debug, Clone, PartialEq, Eq)]
pub struct TypedPayloadFrameRecipe {
    pub payload_kind: PayloadKindName,
    pub profile_id: u16,
    pub payload_utf8: String,
}

/// The UTF-8 bytes a frame carries.
pub open spec fn frame_payload(frame: TypedPayloadFrameRecipe) -> Seq<u8> {
    encode_utf8(frame.payload_utf8@)
}

/// The total payload size of a list of frames.
pub open spec fn frames_total_len(frames: Seq<TypedPayloadFrameRecipe>) -> nat
    decreases frames.len(),
{
    if frames.len() == 0 {
        0
    } else {
        frames_total_len(frames.drop_last()) + frame_payload(frames.last()).len()
    }
}

/// The frame region: every frame's payload, in order.
pub open spec fn frame_region_bytes(frames: Seq<TypedPayloadFrameRecipe>) -> Seq<u8>
    decreases frames.len(),
{
    if frames.len() == 0 {
        Seq::empty()
    } else {
        frame_region_bytes(frames.drop_last()) + frame_payload(frames.last())
    }
}

/// The 16-byte descriptor of a frame whose payload starts at `offset`.
pub open spec fn descriptor_bytes(frame: TypedPayloadFrameRecipe, offset: u32) -> Seq<u8> {
    Seq::<u8>::empty()
        + b8(frame.payload_kind.code())
        + b8(0u8)
        + u16_le(frame.profile_id)
        + u32_le(offset)
        + u32_le(frame_payload(frame).len() as u32)
        + u32_le(0u32)
}

/// The descriptor region: one descriptor per frame, each pointing at the
/// frame's payload within the frame region.
pub open spec fn descriptor_region_bytes(frames: Seq<TypedPayloadFrameRecipe>) -> Seq<u8>
    decreases frames.len(),
{
    if frames.len() == 0 {
        Seq::empty()
    } else {
        descriptor_region_bytes(frames.drop_last())
            + descriptor_bytes(frames.last(), frames_total_len(frames.drop_last()) as u32)
    }
}

pub proof fn lemma_frames_total_len_prefix(frames: Seq<TypedPayloadFrameRecipe>, k: int)
    requires
        0 <= k <= frames.len(),
    ensures
        frames_total_len(frames.take(k)) <= frames_total_len(frames),
    decreases frames.len(),
{
    if k < frames.len() {
        lemma_frames_total_len_prefix(frames.drop_last(), k);
        assert(frames.drop_last().take(k) =~= frames.take(k));
    } else {
        assert(frames.take(k) =~= frames);
    }
}

pub fn pack_typed_payload_descriptor_region(frames: &[TypedPayloadFrameRecipe]) -> (descriptors: Vec<u8>)
    requires
        frames_total_len(frames@) <= u32::MAX,
    ensures
        descriptors@ == descriptor_region_bytes(frames@),
{
    let mut descriptors: Vec<u8> = Vec::new();
    let mut payload_offset: u32 = 0;
    let mut i: usize = 0;
    while i < frames.len()
        invariant
            i <= frames@.len(),
            frames_total_len(frames@) <= u32::MAX,
            payload_offset == frames_total_len(frames@.take(i as int)),
            descriptors@ == descriptor_region_bytes(frames@.take(i as int)),
        decreases frames@.len() - i,
    {
        let frame = &frames[i];
        let payload = frame.payload_utf8.as_str().as_bytes();
        let ghost before = descriptors@;
        push_u8(&mut descriptors, frame.payload_kind.as_u8());
        push_u8(&mut descriptors, 0u8);
        push_u16(&mut descriptors, frame.profile_id);
        push_u32(&mut descriptors, payload_offset);
        push_u32(&mut descriptors, payload.len() as u32);
        push_u32(&mut descriptors, 0u32);
        proof {
            let next = frames@.take(i + 1);
            assert(next.drop_last() =~= frames@.take(i as int));
            assert(next.last() == frames@[i as int]);
            lemma_frames_total_len_prefix(frames@, i + 1);
            assert(descriptors@ =~= before + descriptor_bytes(frames@[i as int], payload_offset));
        }
        payload_offset = payload_offset + payload.len() as u32;
        i = i + 1;
    }
    assert(frames@.take(i as int) =~= frames@);
    descriptors
}

pub fn pack_typed_payload_frame_region(frames: &[TypedPayloadFrameRecipe]) -> (payload: Vec<u8>)
    ensures
        payload@ == frame_region_bytes(frames@),
{
    let mut payload: Vec<u8> = Vec::new();
    let mut i: usize = 0;
    while i < frames.len()
        invariant
            i <= frames@.len(),
            payload@ == frame_region_bytes(frames@.take(i as int)),
        decreases frames@.len() - i,
    {
        extend_bytes(&mut payload, frames[i].payload_utf8.as_str().as_bytes());
        proof {
            let next = frames@.take(i + 1);
            assert(next.drop_last() =~= frames@.take(i as int));
        }
        i = i + 1;
    }
    assert(frames@.take(i as int) =~= frames@);
    payload
}

/// A recipe from which one golden vector is rendered.
#[derive(Debug, Clone, PartialEq, Eq)]
pub enum SemanticVectorRecipe {
    Header {
        name: String,
        description: String,
        version_major: u8,
        wire_format: u8,
        message_type: MessageTypeName,
        flags: Vec<HeaderFlagName>,
        meta_len: u32,
        body_len: u32,
        session_id: u32,
        frame_id: u32,
        view_id: u16,
        route_id: u16,
        trace_id: u64,
    },
    ClientHelloMetadata {
        name: String,
        description: String,
        min_version_major: u8,
        max_version_major: u8,
        supported_wire_format_bitmap: u16,
        supported_profile_bitmap: u32,
        supported_payload_kind_bitmap: Vec<PayloadKindName>,
        supported_codec_bitmap: u32,
        supported_compression_bitmap: u32,
        supported_dtype_bitmap: u32,
        supported_layout_bitmap: u32,
        cache_digest_bitmap: u16,
        cache_object_bitmap: u16,
        cache_namespace_count: u16,
        max_lane_count: u16,
        max_cache_entries: u32,
        max_cache_bytes: u32,
        target_cadence_x100: u16,
        latency_budget_ms: u16,
        quality_tier: u16,
        degrade_policy: u16,
        requested_session_id: u32,
        auth_bytes: u32,
        control_extension_bytes: u32,
    },
    SessionPatchAckMetadata {
        name: String,
        description: String,
        ack_status: SessionPatchAckStatusName,
        reject_reason: SessionPatchRejectReasonName,
        applied_patch_mask: Vec<SessionPatchFieldName>,
        rejected_patch_mask: Vec<SessionPatchFieldName>,
        retry_after_ms: u32,
        effective_profile_id: u16,
        effective_target_cadence_x100: u32,
        effective_quality_tier: u16,
        effective_degrade_policy: u16,
        effective_lane_mask: u64,
        effective_codec_bitmap: u32,
        effective_compression_bitmap: u32,
        profile_patch_ack_bytes: u32,
        reserved0: u16,
    },
    FlowUpdatePacket {
        name: String,
        description: String,
        version_major: u8,
        wire_format: u8,
        flags: Vec<HeaderFlagName>,
        session_id: u32,
        route_id: u16,
        trace_id: u64,
        scope_kind: FlowUpdateScopeKindName,
        update_reason: FlowUpdateReasonName,
        backpressure_level: FlowUpdateBackpressureLevelName,
        connection_credit: u16,
        session_credit: u16,
        operation_credit: u16,
        operation_id: u64,
        retry_after_ms: u32,
        credit_epoch: u32,
        flow_update_flags: Vec<FlowUpdateFlagName>,
    },
    SessionOpenMetadata {
        name: String,
        description: String,
        requested_session_id: u32,
        profile_id: u16,
        priority_class: SessionPriorityClassName,
        session_flags: u8,
        schema_id: u32,
        schema_version: u32,
        default_deadline_ms: u32,
        max_in_flight_operations: u16,
        lease_ttl_hint_ms: u32,
        resume_token_bytes: u32,
        auth_bytes: u32,
        session_extension_bytes: u32,
        client_session_tag: u64,
    },
    SessionOpenAckMetadata {
        name: String,
        description: String,
        session_id: u32,
        accepted_profile_id: u16,
        accepted_priority_class: SessionPriorityClassName,
        session_status: SessionStatusName,
        schema_id: u32,
        schema_version: u32,
        granted_operation_credit: u16,
        max_in_flight_operations: u16,
        lease_ttl_ms: u32,
        resume_window_ms: u32,
        resume_token_bytes: u32,
        session_extension_bytes: u32,
        server_session_tag: u64,
        route_scope_id: u32,
        session_error_code: u32,
        session_flags_ack: u32,
    },
    SessionCloseMetadata {
        name: String,
        description: String,
        close_reason: SessionCloseReasonName,
        in_flight_policy: InFlightPolicyName,
        drain_timeout_ms: u32,
        last_operation_id: u64,
        session_error_code: u32,
        session_close_tag: u32,
    },
    SessionCloseAckMetadata {
        name: String,
        description: String,
        close_status: SessionCloseStatusName,
        last_operation_id: u64,
        session_error_code: u32,
    },
    SchemaDescriptorHeader {
        name: String,
        description: String,
        schema_id: u32,
        schema_version: u32,
        profile_id: u16,
        schema_flags: u16,
        min_version_major: u8,
        max_version_major: u8,
        body_bytes: u32,
        dependency_count: u16,
        default_stream_semantics: u16,
        schema_hash: u64,
    },
    U32Value {
        name: String,
        description: String,
        kind: String,
        value: u32,
    },
    TypedPayloadDescriptorV3 {
        name: String,
        description: String,
        profile_id: u16,
        descriptor_flags: u16,
        schema_id: u32,
        schema_version: u32,
        stream_semantics: u16,
        offset: u32,
        length: u32,
    },
    ResultHintPacket {
        name: String,
        description: String,
        version_major: u8,
        wire_format: u8,
        flags: Vec<HeaderFlagName>,
        session_id: u32,
        frame_id: u32,
        route_id: u16,
        trace_id: u64,
        applied_budget_policy: ResultHintBudgetPolicyName,
        congestion_state: ResultHintCongestionStateName,
        reason: ResultHintReasonName,
        retry_after_ms: u32,
    },
    FrameSubmitMetadata {
        name: String,
        description: String,
        src_width: u16,
        src_height: u16,
        tile_width: u16,
        tile_height: u16,
        tile_count: u16,
        section_count: u16,
        frame_class: u8,
        input_profile: InputProfileName,
        tile_index_mode: TileIndexModeName,
        reserved0: u8,
        latency_budget_ms: u16,
        target_fps_x100: u16,
        retry_of_frame: u32,
        tile_base_id: u32,
        camera_bytes: u32,
        tile_index_bytes: u32,
        submit_mode: SubmitModeName,
        budget_policy: Vec<BudgetPolicyName>,
        loss_tolerance_policy: LossTolerancePolicyName,
        object_ref_mask: u32,
        dependency_frame_id: u32,
        payload_kind_bitmap: Vec<PayloadKindName>,
        payload_frame_count: u16,
    },
    ResultPushMetadata {
        name: String,
        description: String,
        status_code: u16,
        result_flags: Vec<ResultFlagName>,
        section_count: u16,
        tile_count: u16,
        active_profile_id: u16,
        reserved0: u16,
        inference_ms: u16,
        queue_ms: u16,
        server_total_ms: u16,
        reserved1: u16,
        tile_base_id: u32,
        tile_index_bytes: u32,
        result_class: ResultClassName,
        applied_budget_policy: Vec<BudgetPolicyName>,
        reused_frame_id: u32,
        covered_tile_count: u16,
        dropped_tile_count: u16,
        payload_kind_bitmap: Vec<PayloadKindName>,
        payload_frame_count: u16,
    },
    BodyRegionPrelude {
        name: String,
        description: String,
        inline_object_bytes: u32,
        object_reference_bytes: u32,
        typed_payload_descriptor_bytes: u32,
        typed_payload_frame_bytes: u32,
        extension_descriptor_bytes: u32,
        extension_payload_bytes: u32,
    },
    ObjectReferenceBlock {
        name: String,
        description: String,
        object_kind: CacheObjectKindName,
        ref_flags: u16,
        cache_namespace: u32,
        cache_key_hi: u32,
        cache_key_lo: u32,
    },
    TypedPayloadDescriptor {
        name: String,
        description: String,
        payload_kind: PayloadKindName,
        descriptor_flags: u8,
        profile_id: u16,
        payload_offset: u32,
        payload_length: u32,
    },
    TypedPayloadDescriptorRegion {
        name: String,
        description: String,
        frames: Vec<TypedPayloadFrameRecipe>,
    },
    TypedPayloadFrameRegion {
        name: String,
        description: String,
        frames: Vec<TypedPayloadFrameRecipe>,
    },
}

/// The vector name a recipe declares.
pub open spec fn recipe_name(recipe: SemanticVectorRecipe) -> Seq<char> {
    match recipe {
            SemanticVectorRecipe::Header { name, .. } => name@,
            SemanticVectorRecipe::ClientHelloMetadata { name, .. } => name@,
            SemanticVectorRecipe::SessionPatchAckMetadata { name, .. } => name@,
            SemanticVectorRecipe::FlowUpdatePacket { name, .. } => name@,
            SemanticVectorRecipe::SessionOpenMetadata { name, .. } => name@,
            SemanticVectorRecipe::SessionOpenAckMetadata { name, .. } => name@,
            SemanticVectorRecipe::SessionCloseMetadata { name, .. } => name@,
            SemanticVectorRecipe::SessionCloseAckMetadata { name, .. } => name@,
            SemanticVectorRecipe::SchemaDescriptorHeader { name, .. } => name@,
            SemanticVectorRecipe::U32Value { name, .. } => name@,
            SemanticVectorRecipe::TypedPayloadDescriptorV3 { name, .. } => name@,
            SemanticVectorRecipe::ResultHintPacket { name, .. } => name@,
            SemanticVectorRecipe::FrameSubmitMetadata { name, .. } => name@,
            SemanticVectorRecipe::ResultPushMetadata { name, .. } => name@,
            SemanticVectorRecipe::BodyRegionPrelude { name, .. } => name@,
            SemanticVectorRecipe::ObjectReferenceBlock { name, .. } => name@,
            SemanticVectorRecipe::TypedPayloadDescriptor { name, .. } => name@,
            SemanticVectorRecipe::TypedPayloadDescriptorRegion { name, .. } => name@,
            SemanticVectorRecipe::TypedPayloadFrameRegion { name, .. } => name@,
    }
}

/// The description a recipe declares.
pub open spec fn recipe_description(recipe: SemanticVectorRecipe) -> Seq<char> {
    match recipe {
            SemanticVectorRecipe::Header { description, .. } => description@,
            SemanticVectorRecipe::ClientHelloMetadata { description, .. } => description@,
            SemanticVectorRecipe::SessionPatchAckMetadata { description, .. } => description@,
            SemanticVectorRecipe::FlowUpdatePacket { description, .. } => description@,
            SemanticVectorRecipe::SessionOpenMetadata { description, .. } => description@,
            SemanticVectorRecipe::SessionOpenAckMetadata { description, .. } => description@,
            SemanticVectorRecipe::SessionCloseMetadata { description, .. } => description@,
            SemanticVectorRecipe::SessionCloseAckMetadata { description, .. } => description@,
            SemanticVectorRecipe::SchemaDescriptorHeader { description, .. } => description@,
            SemanticVectorRecipe::U32Value { description, .. } => description@,
            SemanticVectorRecipe::TypedPayloadDescriptorV3 { description, .. } => description@,
            SemanticVectorRecipe::ResultHintPacket { description, .. } => description@,
            SemanticVectorRecipe::FrameSubmitMetadata { description, .. } => description@,
            SemanticVectorRecipe::ResultPushMetadata { description, .. } => description@,
            SemanticVectorRecipe::BodyRegionPrelude { description, .. } => description@,
            SemanticVectorRecipe::ObjectReferenceBlock { description, .. } => description@,
            SemanticVectorRecipe::TypedPayloadDescriptor { description, .. } => description@,
            SemanticVectorRecipe::TypedPayloadDescriptorRegion { description, .. } => description@,
            SemanticVectorRecipe::TypedPayloadFrameRegion { description, .. } => description@,
    }
}

/// The vector kind a recipe renders.
pub open spec fn recipe_kind(recipe: SemanticVectorRecipe) -> Seq<char> {
    match recipe {
            SemanticVectorRecipe::Header { .. } => "header"@,
            SemanticVectorRecipe::FlowUpdatePacket { .. } => "flow_update_packet"@,
            SemanticVectorRecipe::U32Value { kind, .. } => kind@,
            SemanticVectorRecipe::ResultHintPacket { .. } => "packet"@,
            SemanticVectorRecipe::TypedPayloadDescriptorRegion { .. } => "typed_payload_descriptor_region"@,
            SemanticVectorRecipe::TypedPayloadFrameRegion { .. } => "typed_payload_frame_region"@,
            SemanticVectorRecipe::ClientHelloMetadata { .. } => "metadata"@,
            SemanticVectorRecipe::SessionPatchAckMetadata { .. } => "metadata"@,
            SemanticVectorRecipe::SessionOpenMetadata { .. } => "session_open_metadata"@,
            SemanticVectorRecipe::SessionOpenAckMetadata { .. } => "session_open_ack_metadata"@,
            SemanticVectorRecipe::SessionCloseMetadata { .. } => "session_close_metadata"@,
            SemanticVectorRecipe::SessionCloseAckMetadata { .. } => "session_close_ack_metadata"@,
            SemanticVectorRecipe::SchemaDescriptorHeader { .. } => "schema_descriptor_header"@,
            SemanticVectorRecipe::TypedPayloadDescriptorV3 { .. } => "typed_payload_descriptor"@,
            SemanticVectorRecipe::FrameSubmitMetadata { .. } => "metadata"@,
            SemanticVectorRecipe::ResultPushMetadata { .. } => "metadata"@,
            SemanticVectorRecipe::BodyRegionPrelude { .. } => "body_region"@,
            SemanticVectorRecipe::ObjectReferenceBlock { .. } => "object_reference"@,
            SemanticVectorRecipe::TypedPayloadDescriptor { .. } => "typed_payload_descriptor"@,
    }
}

/// The bytes a recipe renders.
pub open spec fn recipe_payload(recipe: SemanticVectorRecipe) -> Seq<u8> {
    match recipe {
            SemanticVectorRecipe::Header { version_major, wire_format, message_type, flags, meta_len, body_len, session_id, frame_id, view_id, route_id, trace_id, .. } =>
                header_bytes(HeaderFields {
                    version_major,
                    wire_format,
                    message_type: message_type.code(),
                    flags: header_flag_bits(flags@),
                    meta_len,
                    body_len,
                    session_id,
                    frame_id,
                    view_id,
                    route_id,
                    trace_id,
                }),
            SemanticVectorRecipe::FlowUpdatePacket { version_major, wire_format, flags, session_id, route_id, trace_id, scope_kind, update_reason, backpressure_level, connection_credit, session_credit, operation_credit, operation_id, retry_after_ms, credit_epoch, flow_update_flags, .. } =>
                packet_bytes(
                    HeaderFields {
                        version_major,
                        wire_format,
                        message_type: MessageTypeName::FlowUpdate.code(),
                        flags: header_flag_bits(flags@),
                        meta_len: 0,
                        body_len: 0,
                        session_id,
                        frame_id: 0,
                        view_id: 0,
                        route_id,
                        trace_id,
                    },
                    Seq::<u8>::empty()
                        + b8(scope_kind.code())
                        + b8(update_reason.code())
                        + b8(backpressure_level.code())
                        + b8(0u8)
                        + u16_le(connection_credit)
                        + u16_le(session_credit)
                        + u16_le(operation_credit)
                        + u16_le(0u16)
                        + u64_le(operation_id)
                        + u32_le(retry_after_ms)
                        + u32_le(credit_epoch)
                        + u32_le(flow_update_flag_bits(flow_update_flags@)),
                    Seq::<u8>::empty(),
                ),
            SemanticVectorRecipe::U32Value { value, .. } => Seq::<u8>::empty() + u32_le(value),
            SemanticVectorRecipe::ResultHintPacket { version_major, wire_format, flags, session_id, frame_id, route_id, trace_id, applied_budget_policy, congestion_state, reason, retry_after_ms, .. } =>
                packet_bytes(
                    HeaderFields {
                        version_major,
                        wire_format,
                        message_type: MessageTypeName::ResultHint.code(),
                        flags: header_flag_bits(flags@),
                        meta_len: 0,
                        body_len: 0,
                        session_id,
                        frame_id,
                        view_id: 0,
                        route_id,
                        trace_id,
                    },
                    Seq::<u8>::empty()
                        + u32_le(applied_budget_policy.code())
                        + u32_le(congestion_state.code())
                        + u32_le(reason.code())
                        + u32_le(retry_after_ms),
                    Seq::<u8>::empty(),
                ),
            SemanticVectorRecipe::TypedPayloadDescriptorRegion { frames, .. } => descriptor_region_bytes(frames@),
            SemanticVectorRecipe::TypedPayloadFrameRegion { frames, .. } => frame_region_bytes(frames@),
            SemanticVectorRecipe::ClientHelloMetadata { min_version_major, max_version_major, supported_wire_format_bitmap, supported_profile_bitmap, supported_payload_kind_bitmap, supported_codec_bitmap, supported_compression_bitmap, supported_dtype_bitmap, supported_layout_bitmap, cache_digest_bitmap, cache_object_bitmap, cache_namespace_count, max_lane_count, max_cache_entries, max_cache_bytes, target_cadence_x100, latency_budget_ms, quality_tier, degrade_policy, requested_session_id, auth_bytes, control_extension_bytes, .. } => Seq::<u8>::empty()
                + b8(min_version_major)
                + b8(max_version_major)
                + u16_le(supported_wire_format_bitmap)
                + u32_le(supported_profile_bitmap)
                + u32_le(payload_kind_bits(supported_payload_kind_bitmap@))
                + u32_le(supported_codec_bitmap)
                + u32_le(supported_compression_bitmap)
                + u32_le(supported_dtype_bitmap)
                + u32_le(supported_layout_bitmap)
                + u16_le(cache_digest_bitmap)
                + u16_le(cache_object_bitmap)
                + u16_le(cache_namespace_count)
                + u16_le(max_lane_count)
                + u32_le(max_cache_entries)
                + u32_le(max_cache_bytes)
                + u16_le(target_cadence_x100)
                + u16_le(latency_budget_ms)
                + u16_le(quality_tier)
                + u16_le(degrade_policy)
                + u32_le(requested_session_id)
                + u32_le(auth_bytes)
                + u32_le(control_extension_bytes),
            SemanticVectorRecipe::SessionPatchAckMetadata { ack_status, reject_reason, applied_patch_mask, rejected_patch_mask, retry_after_ms, effective_profile_id, effective_target_cadence_x100, effective_quality_tier, effective_degrade_policy, effective_lane_mask, effective_codec_bitmap, effective_compression_bitmap, profile_patch_ack_bytes, reserved0, .. } => Seq::<u8>::empty()
                + u16_le(ack_status.code())
                + u16_le(reject_reason.code())
                + u32_le(session_patch_bits(applied_patch_mask@))
                + u32_le(session_patch_bits(rejected_patch_mask@))
                + u32_le(retry_after_ms)
                + u16_le(effective_profile_id)
                + u16_le(reserved0)
                + u32_le(effective_target_cadence_x100)
                + u16_le(effective_quality_tier)
                + u16_le(effective_degrade_policy)
                + u64_le(effective_lane_mask)
                + u32_le(effective_codec_bitmap)
                + u32_le(effective_compression_bitmap)
                + u32_le(profile_patch_ack_bytes),
            SemanticVectorRecipe::SessionOpenMetadata { requested_session_id, profile_id, priority_class, session_flags, schema_id, schema_version, default_deadline_ms, max_in_flight_operations, lease_ttl_hint_ms, resume_token_bytes, auth_bytes, session_extension_bytes, client_session_tag, .. } => Seq::<u8>::empty()
                + u32_le(requested_session_id)
                + u16_le(profile_id)
                + b8(priority_class.code())
                + b8(session_flags)
                + u32_le(schema_id)
                + u32_le(schema_version)
                + u32_le(default_deadline_ms)
                + u16_le(max_in_flight_operations)
                + u16_le(0u16)
                + u32_le(lease_ttl_hint_ms)
                + u32_le(resume_token_bytes)
                + u32_le(auth_bytes)
                + u32_le(session_extension_bytes)
                + u64_le(client_session_tag),
            SemanticVectorRecipe::SessionOpenAckMetadata { session_id, accepted_profile_id, accepted_priority_class, session_status, schema_id, schema_version, granted_operation_credit, max_in_flight_operations, lease_ttl_ms, resume_window_ms, resume_token_bytes, session_extension_bytes, server_session_tag, route_scope_id, session_error_code, session_flags_ack, .. } => Seq::<u8>::empty()
                + u32_le(session_id)
                + u16_le(accepted_profile_id)
                + b8(accepted_priority_class.code())
                + b8(session_status.code())
                + u32_le(schema_id)
                + u32_le(schema_version)
                + u16_le(granted_operation_credit)
                + u16_le(max_in_flight_operations)
                + u32_le(lease_ttl_ms)
                + u32_le(resume_window_ms)
                + u32_le(resume_token_bytes)
                + u32_le(session_extension_bytes)
                + u64_le(server_session_tag)
                + u32_le(route_scope_id)
                + u32_le(session_error_code)
                + u32_le(session_flags_ack),
            SemanticVectorRecipe::SessionCloseMetadata { close_reason, in_flight_policy, drain_timeout_ms, last_operation_id, session_error_code, session_close_tag, .. } => Seq::<u8>::empty()
                + u16_le(close_reason.code())
                + b8(in_flight_policy.code())
                + b8(0u8)
                + u32_le(drain_timeout_ms)
                + u64_le(last_operation_id)
                + u32_le(session_error_code)
                + u32_le(session_close_tag),
            SemanticVectorRecipe::SessionCloseAckMetadata { close_status, last_operation_id, session_error_code, .. } => Seq::<u8>::empty()
                + b8(close_status.code())
                + b8(0u8)
                + u16_le(0u16)
                + u64_le(last_operation_id)
                + u32_le(session_error_code),
            SemanticVectorRecipe::SchemaDescriptorHeader { schema_id, schema_version, profile_id, schema_flags, min_version_major, max_version_major, body_bytes, dependency_count, default_stream_semantics, schema_hash, .. } => Seq::<u8>::empty()
                + u32_le(schema_id)
                + u32_le(schema_version)
                + u16_le(profile_id)
                + u16_le(schema_flags)
                + b8(min_version_major)
                + b8(max_version_major)
                + u16_le(0u16)
                + u32_le(body_bytes)
                + u16_le(dependency_count)
                + u16_le(default_stream_semantics)
                + u64_le(schema_hash),
            SemanticVectorRecipe::TypedPayloadDescriptorV3 { profile_id, descriptor_flags, schema_id, schema_version, stream_semantics, offset, length, .. } => Seq::<u8>::empty()
                + u16_le(profile_id)
                + u16_le(descriptor_flags)
                + u32_le(schema_id)
                + u32_le(schema_version)
                + u16_le(stream_semantics)
                + u16_le(0u16)
                + u32_le(offset)
                + u32_le(length),
            SemanticVectorRecipe::FrameSubmitMetadata { src_width, src_height, tile_width, tile_height, tile_count, section_count, frame_class, input_profile, tile_index_mode, reserved0, latency_budget_ms, target_fps_x100, retry_of_frame, tile_base_id, camera_bytes, tile_index_bytes, submit_mode, budget_policy, loss_tolerance_policy, object_ref_mask, dependency_frame_id, payload_kind_bitmap, payload_frame_count, .. } => Seq::<u8>::empty()
                + u16_le(src_width)
                + u16_le(src_height)
                + u16_le(tile_width)
                + u16_le(tile_height)
                + u16_le(tile_count)
                + u16_le(section_count)
                + b8(frame_class)
                + b8(input_profile.code())
                + b8(tile_index_mode.code())
                + b8(reserved0)
                + u16_le(latency_budget_ms)
                + u16_le(target_fps_x100)
                + u32_le(retry_of_frame)
                + u32_le(tile_base_id)
                + u32_le(camera_bytes)
                + u32_le(tile_index_bytes)
                + u64_le(0u64)
                + u64_le(0u64)
                + b8(submit_mode.code())
                + b8(budget_policy_mask(budget_policy@))
                + b8(loss_tolerance_policy.code())
                + b8(0u8)
                + u32_le(object_ref_mask)
                + u32_le(dependency_frame_id)
                + u32_le(payload_kind_bits(payload_kind_bitmap@))
                + u16_le(payload_frame_count)
                + u16_le(0u16),
            SemanticVectorRecipe::ResultPushMetadata { status_code, result_flags, section_count, tile_count, active_profile_id, reserved0, inference_ms, queue_ms, server_total_ms, reserved1, tile_base_id, tile_index_bytes, result_class, applied_budget_policy, reused_frame_id, covered_tile_count, dropped_tile_count, payload_kind_bitmap, payload_frame_count, .. } => Seq::<u8>::empty()
                + u16_le(status_code)
                + u16_le(result_flag_bits(result_flags@))
                + u16_le(section_count)
                + u16_le(tile_count)
                + u16_le(active_profile_id)
                + u16_le(reserved0)
                + u16_le(inference_ms)
                + u16_le(queue_ms)
                + u16_le(server_total_ms)
                + u16_le(reserved1)
                + u32_le(tile_base_id)
                + u32_le(tile_index_bytes)
                + u64_le(0u64)
                + u64_le(0u64)
                + b8(result_class.code())
                + b8(budget_policy_mask(applied_budget_policy@))
                + u16_le(0u16)
                + u32_le(reused_frame_id)
                + u16_le(covered_tile_count)
                + u16_le(dropped_tile_count)
                + u32_le(payload_kind_bits(payload_kind_bitmap@))
                + u16_le(payload_frame_count)
                + u16_le(0u16),
            SemanticVectorRecipe::BodyRegionPrelude { inline_object_bytes, object_reference_bytes, typed_payload_descriptor_bytes, typed_payload_frame_bytes, extension_descriptor_bytes, extension_payload_bytes, .. } => Seq::<u8>::empty()
                + u32_le(inline_object_bytes)
                + u32_le(object_reference_bytes)
                + u32_le(typed_payload_descriptor_bytes)
                + u32_le(typed_payload_frame_bytes)
                + u32_le(extension_descriptor_bytes)
                + u32_le(extension_payload_bytes)
                + u32_le(0u32)
                + u32_le(0u32),
            SemanticVectorRecipe::ObjectReferenceBlock { object_kind, ref_flags, cache_namespace, cache_key_hi, cache_key_lo, .. } => Seq::<u8>::empty()
                + u16_le(object_kind.code())
                + u16_le(ref_flags)
                + u32_le(cache_namespace)
                + u32_le(cache_key_hi)
                + u32_le(cache_key_lo),
            SemanticVectorRecipe::TypedPayloadDescriptor { payload_kind, descriptor_flags, profile_id, payload_offset, payload_length, .. } => Seq::<u8>::empty()
                + b8(payload_kind.code())
                + b8(descriptor_flags)
                + u16_le(profile_id)
                + u32_le(payload_offset)
                + u32_le(payload_length)
                + u32_le(0u32),
    }
}

/// A recipe whose payload offsets fit the 32-bit descriptor fields.
pub open spec fn recipe_fits(recipe: SemanticVectorRecipe) -> bool {
    match recipe {
        SemanticVectorRecipe::TypedPayloadDescriptorRegion { frames, .. } => frames_total_len(frames@) <= u32::MAX,
        _ => true,
    }
}

/// Whether the frames' payloads fit the 32-bit descriptor offsets.
pub fn frames_fit(frames: &[TypedPayloadFrameRecipe]) -> (fits: bool)
    ensures
        fits == (frames_total_len(frames@) <= u32::MAX),
{
    let mut total: u64 = 0;
    let mut i: usize = 0;
    while i < frames.len()
        invariant
            i <= frames@.len(),
            total == frames_total_len(frames@.take(i as int)),
            total <= u32::MAX,
        decreases frames@.len() - i,
    {
        let length = frames[i].payload_utf8.as_str().as_bytes().len();
        proof {
            let next = frames@.take(i + 1);
            assert(next.drop_last() =~= frames@.take(i as int));
            assert(next.last() == frames@[i as int]);
        }
        if length as u64 > u32::MAX as u64 - total {
            proof {
                lemma_frames_total_len_prefix(frames@, i + 1);
            }
            return false;
        }
        total = total + length as u64;
        i = i + 1;
    }
    assert(frames@.take(i as int) =~= frames@);
    true
}

/// Whether a recipe fits the descriptor fields.
pub fn recipe_fits_descriptors(recipe: &SemanticVectorRecipe) -> (fits: bool)
    ensures
        fits == recipe_fits(*recipe),
{
    match recipe {
        SemanticVectorRecipe::TypedPayloadDescriptorRegion { frames, .. } => frames_fit(frames.as_slice()),
        _ => true,
    }
}

/// Renders a recipe into its name, kind, description and bytes.
pub fn render_recipe(recipe: &SemanticVectorRecipe) -> (result: Result<(String, String, String, Vec<u8>), FixtureError>)
    requires
        recipe_fits(*recipe),
    ensures
        match result {
            Ok(rendered) => rendered.0@ == recipe_name(*recipe)
                && rendered.1@ == recipe_kind(*recipe)
                && rendered.2@ == recipe_description(*recipe)
                && rendered.3@ == recipe_payload(*recipe),
            Err(_) => false,
        },
{
    match recipe {
        SemanticVectorRecipe::Header { name, description, version_major, wire_format, message_type, flags, meta_len, body_len, session_id, frame_id, view_id, route_id, trace_id } => {
            let payload = pack_header(HeaderFields {
                version_major: *version_major,
                wire_format: *wire_format,
                message_type: message_type.as_u8(),
                flags: header_flags(flags.as_slice()),
                meta_len: *meta_len,
                body_len: *body_len,
                session_id: *session_id,
                frame_id: *frame_id,
                view_id: *view_id,
                route_id: *route_id,
                trace_id: *trace_id,
            });
            proof { reveal_strlit("header"); }
            Ok((name.clone(), "header".to_owned(), description.clone(), payload))
        },
        SemanticVectorRecipe::FlowUpdatePacket { name, description, version_major, wire_format, flags, session_id, route_id, trace_id, scope_kind, update_reason, backpressure_level, connection_credit, session_credit, operation_credit, operation_id, retry_after_ms, credit_epoch, flow_update_flags } => {
            let mut metadata: Vec<u8> = Vec::new();
            push_u8(&mut metadata, scope_kind.as_u8());
            push_u8(&mut metadata, update_reason.as_u8());
            push_u8(&mut metadata, backpressure_level.as_u8());
            push_u8(&mut metadata, 0u8);
            push_u16(&mut metadata, *connection_credit);
            push_u16(&mut metadata, *session_credit);
            push_u16(&mut metadata, *operation_credit);
            push_u16(&mut metadata, 0u16);
            push_u64(&mut metadata, *operation_id);
            push_u32(&mut metadata, *retry_after_ms);
            push_u32(&mut metadata, *credit_epoch);
            push_u32(&mut metadata, flow_update_flags_bits(flow_update_flags.as_slice()));
            let packet = build_packet(
                HeaderFields {
                    version_major: *version_major,
                    wire_format: *wire_format,
                    message_type: MessageTypeName::FlowUpdate.as_u8(),
                    flags: header_flags(flags.as_slice()),
                    meta_len: 0,
                    body_len: 0,
                    session_id: *session_id,
                    frame_id: 0,
                    view_id: 0,
                    route_id: *route_id,
                    trace_id: *trace_id,
                },
                metadata,
                Vec::new(),
            );
            proof { reveal_strlit("flow_update_packet"); }
            Ok((name.clone(), "flow_update_packet".to_owned(), description.clone(), packet))
        },
        SemanticVectorRecipe::U32Value { name, description, kind, value } => {
            let mut payload: Vec<u8> = Vec::new();
            push_u32(&mut payload, *value);
            Ok((name.clone(), kind.clone(), description.clone(), payload))
        },
        SemanticVectorRecipe::ResultHintPacket { name, description, version_major, wire_format, flags, session_id, frame_id, route_id, trace_id, applied_budget_policy, congestion_state, reason, retry_after_ms } => {
            let mut metadata: Vec<u8> = Vec::new();
            push_u32(&mut metadata, applied_budget_policy.as_u32());
            push_u32(&mut metadata, congestion_state.as_u32());
            push_u32(&mut metadata, reason.as_u32());
            push_u32(&mut metadata, *retry_after_ms);
            let packet = build_packet(
                HeaderFields {
                    version_major: *version_major,
                    wire_format: *wire_format,
                    message_type: MessageTypeName::ResultHint.as_u8(),
                    flags: header_flags(flags.as_slice()),
                    meta_len: 0,
                    body_len: 0,
                    session_id: *session_id,
                    frame_id: *frame_id,
                    view_id: 0,
                    route_id: *route_id,
                    trace_id: *trace_id,
                },
                metadata,
                Vec::new(),
            );
            proof { reveal_strlit("packet"); }
            Ok((name.clone(), "packet".to_owned(), description.clone(), packet))
        },
        SemanticVectorRecipe::TypedPayloadDescriptorRegion { name, description, frames } => {
            let payload = pack_typed_payload_descriptor_region(frames.as_slice());
            proof { reveal_strlit("typed_payload_descriptor_region"); }
            Ok((name.clone(), "typed_payload_descriptor_region".to_owned(), description.clone(), payload))
        },
        SemanticVectorRecipe::TypedPayloadFrameRegion { name, description, frames } => {
            let payload = pack_typed_payload_frame_region(frames.as_slice());
            proof { reveal_strlit("typed_payload_frame_region"); }
            Ok((name.clone(), "typed_payload_frame_region".to_owned(), description.clone(), payload))
        },
        SemanticVectorRecipe::ClientHelloMetadata { name, description, min_version_major, max_version_major, supported_wire_format_bitmap, supported_profile_bitmap, supported_payload_kind_bitmap, supported_codec_bitmap, supported_compression_bitmap, supported_dtype_bitmap, supported_layout_bitmap, cache_digest_bitmap, cache_object_bitmap, cache_namespace_count, max_lane_count, max_cache_entries, max_cache_bytes, target_cadence_x100, latency_budget_ms, quality_tier, degrade_policy, requested_session_id, auth_bytes, control_extension_bytes } => {
            let mut payload: Vec<u8> = Vec::new();
            push_u8(&mut payload, *min_version_major);
            push_u8(&mut payload, *max_version_major);
            push_u16(&mut payload, *supported_wire_format_bitmap);
            push_u32(&mut payload, *supported_profile_bitmap);
            push_u32(&mut payload, payload_kinds(supported_payload_kind_bitmap.as_slice()));
            push_u32(&mut payload, *supported_codec_bitmap);
            push_u32(&mut payload, *supported_compression_bitmap);
            push_u32(&mut payload, *supported_dtype_bitmap);
            push_u32(&mut payload, *supported_layout_bitmap);
            push_u16(&mut payload, *cache_digest_bitmap);
            push_u16(&mut payload, *cache_object_bitmap);
            push_u16(&mut payload, *cache_namespace_count);
            push_u16(&mut payload, *max_lane_count);
            push_u32(&mut payload, *max_cache_entries);
            push_u32(&mut payload, *max_cache_bytes);
            push_u16(&mut payload, *target_cadence_x100);
            push_u16(&mut payload, *latency_budget_ms);
            push_u16(&mut payload, *quality_tier);
            push_u16(&mut payload, *degrade_policy);
            push_u32(&mut payload, *requested_session_id);
            push_u32(&mut payload, *auth_bytes);
            push_u32(&mut payload, *control_extension_bytes);
            proof { reveal_strlit("metadata"); }
            Ok((name.clone(), "metadata".to_owned(), description.clone(), payload))
        },
        SemanticVectorRecipe::SessionPatchAckMetadata { name, description, ack_status, reject_reason, applied_patch_mask, rejected_patch_mask, retry_after_ms, effective_profile_id, effective_target_cadence_x100, effective_quality_tier, effective_degrade_policy, effective_lane_mask, effective_codec_bitmap, effective_compression_bitmap, profile_patch_ack_bytes, reserved0 } => {
            let mut payload: Vec<u8> = Vec::new();
            push_u16(&mut payload, ack_status.as_u16());
            push_u16(&mut payload, reject_reason.as_u16());
            push_u32(&mut payload, session_patch_fields(applied_patch_mask.as_slice()));
            push_u32(&mut payload, session_patch_fields(rejected_patch_mask.as_slice()));
            push_u32(&mut payload, *retry_after_ms);
            push_u16(&mut payload, *effective_profile_id);
            push_u16(&mut payload, *reserved0);
            push_u32(&mut payload, *effective_target_cadence_x100);
            push_u16(&mut payload, *effective_quality_tier);
            push_u16(&mut payload, *effective_degrade_policy);
            push_u64(&mut payload, *effective_lane_mask);
            push_u32(&mut payload, *effective_codec_bitmap);
            push_u32(&mut payload, *effective_compression_bitmap);
            push_u32(&mut payload, *profile_patch_ack_bytes);
            proof { reveal_strlit("metadata"); }
            Ok((name.clone(), "metadata".to_owned(), description.clone(), payload))
        },
        SemanticVectorRecipe::SessionOpenMetadata { name, description, requested_session_id, profile_id, priority_class, session_flags, schema_id, schema_version, default_deadline_ms, max_in_flight_operations, lease_ttl_hint_ms, resume_token_bytes, auth_bytes, session_extension_bytes, client_session_tag } => {
            let mut payload: Vec<u8> = Vec::new();
            push_u32(&mut payload, *requested_session_id);
            push_u16(&mut payload, *profile_id);
            push_u8(&mut payload, priority_class.as_u8());
            push_u8(&mut payload, *session_flags);
            push_u32(&mut payload, *schema_id);
            push_u32(&mut payload, *schema_version);
            push_u32(&mut payload, *default_deadline_ms);
            push_u16(&mut payload, *max_in_flight_operations);
            push_u16(&mut payload, 0u16);
            push_u32(&mut payload, *lease_ttl_hint_ms);
            push_u32(&mut payload, *resume_token_bytes);
            push_u32(&mut payload, *auth_bytes);
            push_u32(&mut payload, *session_extension_bytes);
            push_u64(&mut payload, *client_session_tag);
            proof { reveal_strlit("session_open_metadata"); }
            Ok((name.clone(), "session_open_metadata".to_owned(), description.clone(), payload))
        },
        SemanticVectorRecipe::SessionOpenAckMetadata { name, description, session_id, accepted_profile_id, accepted_priority_class, session_status, schema_id, schema_version, granted_operation_credit, max_in_flight_operations, lease_ttl_ms, resume_window_ms, resume_token_bytes, session_extension_bytes, server_session_tag, route_scope_id, session_error_code, session_flags_ack } => {
            let mut payload: Vec<u8> = Vec::new();
            push_u32(&mut payload, *session_id);
            push_u16(&mut payload, *accepted_profile_id);
            push_u8(&mut payload, accepted_priority_class.as_u8());
            push_u8(&mut payload, session_status.as_u8());
            push_u32(&mut payload, *schema_id);
            push_u32(&mut payload, *schema_version);
            push_u16(&mut payload, *granted_operation_credit);
            push_u16(&mut payload, *max_in_flight_operations);
            push_u32(&mut payload, *lease_ttl_ms);
            push_u32(&mut payload, *resume_window_ms);
            push_u32(&mut payload, *resume_token_bytes);
            push_u32(&mut payload, *session_extension_bytes);
            push_u64(&mut payload, *server_session_tag);
            push_u32(&mut payload, *route_scope_id);
            push_u32(&mut payload, *session_error_code);
            push_u32(&mut payload, *session_flags_ack);
            proof { reveal_strlit("session_open_ack_metadata"); }
            Ok((name.clone(), "session_open_ack_metadata".to_owned(), description.clone(), payload))
        },
        SemanticVectorRecipe::SessionCloseMetadata { name, description, close_reason, in_flight_policy, drain_timeout_ms, last_operation_id, session_error_code, session_close_tag } => {
            let mut payload: Vec<u8> = Vec::new();
            push_u16(&mut payload, close_reason.as_u16());
            push_u8(&mut payload, in_flight_policy.as_u8());
            push_u8(&mut payload, 0u8);
            push_u32(&mut payload, *drain_timeout_ms);
            push_u64(&mut payload, *last_operation_id);
            push_u32(&mut payload, *session_error_code);
            push_u32(&mut payload, *session_close_tag);
            proof { reveal_strlit("session_close_metadata"); }
            Ok((name.clone(), "session_close_metadata".to_owned(), description.clone(), payload))
        },
        SemanticVectorRecipe::SessionCloseAckMetadata { name, description, close_status, last_operation_id, session_error_code } => {
            let mut payload: Vec<u8> = Vec::new();
            push_u8(&mut payload, close_status.as_u8());
            push_u8(&mut payload, 0u8);
            push_u16(&mut payload, 0u16);
            push_u64(&mut payload, *last_operation_id);
            push_u32(&mut payload, *session_error_code);
            proof { reveal_strlit("session_close_ack_metadata"); }
            Ok((name.clone(), "session_close_ack_metadata".to_owned(), description.clone(), payload))
        },
        SemanticVectorRecipe::SchemaDescriptorHeader { name, description, schema_id, schema_version, profile_id, schema_flags, min_version_major, max_version_major, body_bytes, dependency_count, default_stream_semantics, schema_hash } => {
            let mut payload: Vec<u8> = Vec::new();
            push_u32(&mut payload, *schema_id);
            push_u32(&mut payload, *schema_version);
            push_u16(&mut payload, *profile_id);
            push_u16(&mut payload, *schema_flags);
            push_u8(&mut payload, *min_version_major);
            push_u8(&mut payload, *max_version_major);
            push_u16(&mut payload, 0u16);
            push_u32(&mut payload, *body_bytes);
            push_u16(&mut payload, *dependency_count);
            push_u16(&mut payload, *default_stream_semantics);
            push_u64(&mut payload, *schema_hash);
            proof { reveal_strlit("schema_descriptor_header"); }
            Ok((name.clone(), "schema_descriptor_header".to_owned(), description.clone(), payload))
        },
        SemanticVectorRecipe::TypedPayloadDescriptorV3 { name, description, profile_id, descriptor_flags, schema_id, schema_version, stream_semantics, offset, length } => {
            let mut payload: Vec<u8> = Vec::new();
            push_u16(&mut payload, *profile_id);
            push_u16(&mut payload, *descriptor_flags);
            push_u32(&mut payload, *schema_id);
            push_u32(&mut payload, *schema_version);
            push_u16(&mut payload, *stream_semantics);
            push_u16(&mut payload, 0u16);
            push_u32(&mut payload, *offset);
            push_u32(&mut payload, *length);
            proof { reveal_strlit("typed_payload_descriptor"); }
            Ok((name.clone(), "typed_payload_descriptor".to_owned(), description.clone(), payload))
        },
        SemanticVectorRecipe::FrameSubmitMetadata { name, description, src_width, src_height, tile_width, tile_height, tile_count, section_count, frame_class, input_profile, tile_index_mode, reserved0, latency_budget_ms, target_fps_x100, retry_of_frame, tile_base_id, camera_bytes, tile_index_bytes, submit_mode, budget_policy, loss_tolerance_policy, object_ref_mask, dependency_frame_id, payload_kind_bitmap, payload_frame_count } => {
            let mut payload: Vec<u8> = Vec::new();
            push_u16(&mut payload, *src_width);
            push_u16(&mut payload, *src_height);
            push_u16(&mut payload, *tile_width);
            push_u16(&mut payload, *tile_height);
            push_u16(&mut payload, *tile_count);
            push_u16(&mut payload, *section_count);
            push_u8(&mut payload, *frame_class);
            push_u8(&mut payload, input_profile.as_u8());
            push_u8(&mut payload, tile_index_mode.as_u8());
            push_u8(&mut payload, *reserved0);
            push_u16(&mut payload, *latency_budget_ms);
            push_u16(&mut payload, *target_fps_x100);
            push_u32(&mut payload, *retry_of_frame);
            push_u32(&mut payload, *tile_base_id);
            push_u32(&mut payload, *camera_bytes);
            push_u32(&mut payload, *tile_index_bytes);
            push_u64(&mut payload, 0u64);
            push_u64(&mut payload, 0u64);
            push_u8(&mut payload, submit_mode.as_u8());
            push_u8(&mut payload, budget_policy_bits(budget_policy.as_slice()));
            push_u8(&mut payload, loss_tolerance_policy.as_u8());
            push_u8(&mut payload, 0u8);
            push_u32(&mut payload, *object_ref_mask);
            push_u32(&mut payload, *dependency_frame_id);
            push_u32(&mut payload, payload_kinds(payload_kind_bitmap.as_slice()));
            push_u16(&mut payload, *payload_frame_count);
            push_u16(&mut payload, 0u16);
            proof { reveal_strlit("metadata"); }
            Ok((name.clone(), "metadata".to_owned(), description.clone(), payload))
        },
        SemanticVectorRecipe::ResultPushMetadata { name, description, status_code, result_flags, section_count, tile_count, active_profile_id, reserved0, inference_ms, queue_ms, server_total_ms, reserved1, tile_base_id, tile_index_bytes, result_class, applied_budget_policy, reused_frame_id, covered_tile_count, dropped_tile_count, payload_kind_bitmap, payload_frame_count } => {
            let mut payload: Vec<u8> = Vec::new();
            push_u16(&mut payload, *status_code);
            push_u16(&mut payload, result_flags_bits(result_flags.as_slice()));
            push_u16(&mut payload, *section_count);
            push_u16(&mut payload, *tile_count);
            push_u16(&mut payload, *active_profile_id);
            push_u16(&mut payload, *reserved0);
            push_u16(&mut payload, *inference_ms);
            push_u16(&mut payload, *queue_ms);
            push_u16(&mut payload, *server_total_ms);
            push_u16(&mut payload, *reserved1);
            push_u32(&mut payload, *tile_base_id);
            push_u32(&mut payload, *tile_index_bytes);
            push_u64(&mut payload, 0u64);
            push_u64(&mut payload, 0u64);
            push_u8(&mut payload, result_class.as_u8());
            push_u8(&mut payload, budget_policy_bits(applied_budget_policy.as_slice()));
            push_u16(&mut payload, 0u16);
            push_u32(&mut payload, *reused_frame_id);
            push_u16(&mut payload, *covered_tile_count);
            push_u16(&mut payload, *dropped_tile_count);
            push_u32(&mut payload, payload_kinds(payload_kind_bitmap.as_slice()));
            push_u16(&mut payload, *payload_frame_count);
            push_u16(&mut payload, 0u16);
            proof { reveal_strlit("metadata"); }
            Ok((name.clone(), "metadata".to_owned(), description.clone(), payload))
        },
        SemanticVectorRecipe::BodyRegionPrelude { name, description, inline_object_bytes, object_reference_bytes, typed_payload_descriptor_bytes, typed_payload_frame_bytes, extension_descriptor_bytes, extension_payload_bytes } => {
            let mut payload: Vec<u8> = Vec::new();
            push_u32(&mut payload, *inline_object_bytes);
            push_u32(&mut payload, *object_reference_bytes);
            push_u32(&mut payload, *typed_payload_descriptor_bytes);
            push_u32(&mut payload, *typed_payload_frame_bytes);
            push_u32(&mut payload, *extension_descriptor_bytes);
            push_u32(&mut payload, *extension_payload_bytes);
            push_u32(&mut payload, 0u32);
            push_u32(&mut payload, 0u32);
            proof { reveal_strlit("body_region"); }
            Ok((name.clone(), "body_region".to_owned(), description.clone(), payload))
        },
        SemanticVectorRecipe::ObjectReferenceBlock { name, description, object_kind, ref_flags, cache_namespace, cache_key_hi, cache_key_lo } => {
            let mut payload: Vec<u8> = Vec::new();
            push_u16(&mut payload, object_kind.as_u16());
            push_u16(&mut payload, *ref_flags);
            push_u32(&mut payload, *cache_namespace);
            push_u32(&mut payload, *cache_key_hi);
            push_u32(&mut payload, *cache_key_lo);
            proof { reveal_strlit("object_reference"); }
            Ok((name.clone(), "object_reference".to_owned(), description.clone(), payload))
        },
        SemanticVectorRecipe::TypedPayloadDescriptor { name, description, payload_kind, descriptor_flags, profile_id, payload_offset, payload_length } => {
            let mut payload: Vec<u8> = Vec::new();
            push_u8(&mut payload, payload_kind.as_u8());
            push_u8(&mut payload, *descriptor_flags);
            push_u16(&mut payload, *profile_id);
            push_u32(&mut payload, *payload_offset);
            push_u32(&mut payload, *payload_length);
            push_u32(&mut payload, 0u32);
            proof { reveal_strlit("typed_payload_descriptor"); }
            Ok((name.clone(), "typed_payload_descriptor".to_owned(), description.clone(), payload))
        },
    }
}

} // verus!
