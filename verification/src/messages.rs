//! The closed message-type tables: the numeric code of each inbound message
//! type the router knows, the fixed field offset at which a type carries its
//! correlation id, and which types end the stream for their id. The protocol
//! is not self-describing, so these are enumerations, not formulas.
use vstd::prelude::*;

verus! {

/// Inbound message types the transport layer routes. Codes outside this
/// closed set decode to `NotValid` and are routed to the global destination.
#[derive(Clone, Copy, Debug, PartialEq, Eq, Structural)]
pub enum IncomingMessages {
    /// An unknown or unparsable message-type code.
    NotValid,
    /// A session-level error or notice.
    ErrorMessage,
    /// The next valid order id, sent unprompted after session start.
    NextValidId,
    /// One contract description, correlated by request id.
    ContractData,
    /// The managed account list, sent unprompted after session start.
    ManagedAccounts,
    /// One real-time bar, correlated by request id.
    RealTimeBars,
    /// End of the contract data stream for a request id.
    ContractDataEnd,
    /// Matching symbols for a lookup, correlated by request id.
    SymbolSamples,
    /// One tick, correlated by request id.
    TickByTick,
}

impl IncomingMessages {
    /// The type a numeric message-type code names.
    pub open spec fn spec_from_code(code: int) -> IncomingMessages {
        if code == 4 {
            IncomingMessages::ErrorMessage
        } else if code == 9 {
            IncomingMessages::NextValidId
        } else if code == 10 {
            IncomingMessages::ContractData
        } else if code == 15 {
            IncomingMessages::ManagedAccounts
        } else if code == 50 {
            IncomingMessages::RealTimeBars
        } else if code == 52 {
            IncomingMessages::ContractDataEnd
        } else if code == 79 {
            IncomingMessages::SymbolSamples
        } else if code == 99 {
            IncomingMessages::TickByTick
        } else {
            IncomingMessages::NotValid
        }
    }

    pub fn from(code: i32) -> (r: IncomingMessages)
        ensures
            r == IncomingMessages::spec_from_code(code as int),
    {
        if code == 4 {
            IncomingMessages::ErrorMessage
        } else if code == 9 {
            IncomingMessages::NextValidId
        } else if code == 10 {
            IncomingMessages::ContractData
        } else if code == 15 {
            IncomingMessages::ManagedAccounts
        } else if code == 50 {
            IncomingMessages::RealTimeBars
        } else if code == 52 {
            IncomingMessages::ContractDataEnd
        } else if code == 79 {
            IncomingMessages::SymbolSamples
        } else if code == 99 {
            IncomingMessages::TickByTick
        } else {
            IncomingMessages::NotValid
        }
    }

    /// The field offset at which this type carries its correlation id, if it
    /// carries one.
    pub fn request_id_offset(&self) -> (r: Option<usize>)
        ensures
            r == spec_request_id_offset(*self),
    {
        match self {
            IncomingMessages::ContractData => Some(1),
            IncomingMessages::TickByTick => Some(1),
            IncomingMessages::SymbolSamples => Some(1),
            IncomingMessages::ContractDataEnd => Some(2),
            IncomingMessages::RealTimeBars => Some(2),
            _ => None,
        }
    }

    /// Whether a frame of this type is the last one for its correlation id.
    pub fn is_terminal(&self) -> (r: bool)
        ensures
            r == spec_is_terminal(*self),
    {
        match self {
            IncomingMessages::ContractDataEnd => true,
            IncomingMessages::SymbolSamples => true,
            _ => false,
        }
    }
}

/// The closed id-offset table: one group of types carries its id at offset 1,
/// another at offset 2; every other type carries none.
pub open spec fn spec_request_id_offset(t: IncomingMessages) -> Option<usize> {
    match t {
        IncomingMessages::ContractData => Some(1),
        IncomingMessages::TickByTick => Some(1),
        IncomingMessages::SymbolSamples => Some(1),
        IncomingMessages::ContractDataEnd => Some(2),
        IncomingMessages::RealTimeBars => Some(2),
        _ => None,
    }
}

/// The types that end the inbound stream for their id.
pub open spec fn spec_is_terminal(t: IncomingMessages) -> bool {
    match t {
        IncomingMessages::ContractDataEnd => true,
        IncomingMessages::SymbolSamples => true,
        _ => false,
    }
}

} // verus!
