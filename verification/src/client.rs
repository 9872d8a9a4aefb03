//! The session: handshake and start-of-session sequence atop the abstract
//! duplex channel, version gating, and the request/order submission contract.
use vstd::prelude::*;

use crate::codec::{RequestMessage, ResponseMessage};
use crate::correlator::TakeResult;
use crate::errors::IbError;
use crate::messages::IncomingMessages;
use crate::numbers::{i32_to_field, spec_int_str, spec_parse_i32};

verus! {

/// Lowest protocol version this client accepts from the gateway.
pub const MIN_SERVER_VERSION: i32 = 100;

/// Highest protocol version this client speaks.
pub const MAX_SERVER_VERSION: i32 = 177;

/// Above this negotiated version the start-API frame carries one extra,
/// empty optional-capabilities field.
pub const OPTIONAL_CAPABILITIES_VERSION: i32 = 119;

/// Message code of the start-API request.
pub const START_API: i32 = 71;

/// Version constant of the start-API request shape.
pub const START_API_VERSION: i32 = 2;

/// The session id this client presents in the start-API frame.
pub const DEFAULT_CLIENT_ID: i32 = 100;

/// Where the request-id counter starts.
pub const FIRST_REQUEST_ID: i32 = 9000;

/// How many already-queued global messages `connect` absorbs before it
/// reports the session ready; a bounded wait, not a fixed sleep.
pub const STARTUP_POLL_LIMIT: u32 = 64;

/// The Delivery Handle returned for a correlated request: the token under
/// which the background reader queues the replies.
pub struct ResponsePacketPromise {
    /// The request or order id the handle was registered under.
    pub correlation_id: i32,
}

/// The duplex channel to the gateway: the seam between the verified session
/// logic and the transport medium. A live implementation owns the socket,
/// the background reader and the correlation table; tests drive the session
/// with the in-memory stub.
pub trait MessageBus {
    /// The channel's own well-formedness; every operation keeps it.
    spec fn inv(&self) -> bool;

    /// Writes raw bytes with no frame envelope: only for the handshake
    /// preamble.
    fn write_raw(&mut self, data: &str) -> (r: Result<(), IbError>)
        requires
            old(self).inv(),
        ensures
            final(self).inv(),
    ;

    /// Frame-encodes and writes one outbound message, expecting no reply.
    fn write_message(&mut self, message: &RequestMessage) -> (r: Result<(), IbError>)
        requires
            old(self).inv(),
        ensures
            final(self).inv(),
    ;

    /// Registers `request_id` in the correlation table, then writes the
    /// frame; registration precedes the write, so a reply can never arrive
    /// before its destination exists.
    fn write_message_for_request(&mut self, request_id: i32, message: &RequestMessage) -> (r:
        Result<ResponsePacketPromise, IbError>)
        requires
            old(self).inv(),
        ensures
            final(self).inv(),
            r matches Ok(p) ==> p.correlation_id == request_id,
    ;

    /// Blocking read of exactly one decoded frame, bypassing the correlator:
    /// only during the handshake, before the reader starts.
    fn read_packet(&mut self) -> (r: Result<ResponseMessage, IbError>)
        requires
            old(self).inv(),
        ensures
            final(self).inv(),
    ;

    /// Starts the background reader; called once, after the handshake.
    fn process_messages(&mut self, server_version: i32) -> (r: Result<(), IbError>)
        requires
            old(self).inv(),
        ensures
            final(self).inv(),
    ;

    /// One non-blocking draw from the global destination.
    fn poll_global(&mut self) -> (r: Option<ResponseMessage>)
        requires
            old(self).inv(),
        ensures
            final(self).inv(),
    ;

    /// One non-blocking draw from the queue behind a Delivery Handle.
    fn try_take(&mut self, promise: &ResponsePacketPromise) -> (r: TakeResult)
        requires
            old(self).inv(),
        ensures
            final(self).inv(),
    ;
}

/// The request/order submission contract the domain layer consumes.
pub trait Client {
    /// The session's well-formedness; every operation keeps it.
    spec fn spec_wf(&self) -> bool;

    /// The negotiated protocol version.
    spec fn spec_server_version(&self) -> int;

    /// The process-local request-id counter.
    spec fn spec_next_request_id(&self) -> int;

    /// Advances the request-id counter by one and returns its new value, so
    /// ids are monotonically increasing.
    fn next_request_id(&mut self) -> (r: i32)
        requires
            old(self).spec_next_request_id() < i32::MAX as int,
        ensures
            final(self).spec_next_request_id() == old(self).spec_next_request_id() + 1,
            r as int == final(self).spec_next_request_id(),
            final(self).spec_server_version() == old(self).spec_server_version(),
            final(self).spec_wf() == old(self).spec_wf(),
    ;

    /// The negotiated protocol version.
    fn server_version(&self) -> (r: i32)
        ensures
            r as int == self.spec_server_version(),
    ;

    /// Sends a fire-and-forget message: no correlation id is registered.
    fn send_message(&mut self, packet: RequestMessage) -> (r: Result<(), IbError>)
        requires
            old(self).spec_wf(),
        ensures
            final(self).spec_wf(),
            final(self).spec_server_version() == old(self).spec_server_version(),
            final(self).spec_next_request_id() == old(self).spec_next_request_id(),
    ;

    /// Sends a correlated request; the returned Delivery Handle is registered
    /// under `request_id` before the frame is written.
    fn send_request(&mut self, request_id: i32, message: RequestMessage) -> (r: Result<
        ResponsePacketPromise,
        IbError,
    >)
        requires
            old(self).spec_wf(),
        ensures
            final(self).spec_wf(),
            final(self).spec_server_version() == old(self).spec_server_version(),
            final(self).spec_next_request_id() == old(self).spec_next_request_id(),
            r matches Ok(p) ==> p.correlation_id == request_id,
    ;

    /// Submits an order; identical contract, keyed by order id. Orders and
    /// requests share one correlation table, so the id ranges must not
    /// collide upstream.
    fn send_order(&mut self, order_id: i32, message: RequestMessage) -> (r: Result<
        ResponsePacketPromise,
        IbError,
    >)
        requires
            old(self).spec_wf(),
        ensures
            final(self).spec_wf(),
            final(self).spec_server_version() == old(self).spec_server_version(),
            final(self).spec_next_request_id() == old(self).spec_next_request_id(),
            r matches Ok(p) ==> p.correlation_id == order_id,
    ;

    /// Version gating: succeeds exactly when the feature version is at most
    /// the negotiated version; a failure is local and precedes any write.
    fn check_server_version(&self, version: i32, message: &str) -> (r: Result<(), IbError>)
        ensures
            version as int <= self.spec_server_version() ==> r == Ok::<(), IbError>(()),
            version as int > self.spec_server_version() ==> (r matches Err(
                IbError::Capability { required, actual, context },
            ) && required == version && actual as int == self.spec_server_version() && context@
                == message@),
    ;
}

/// The handshake preamble's version-range field: `v<min>..<max>`.
pub open spec fn spec_version_range() -> Seq<char> {
    "v"@ + spec_int_str(MIN_SERVER_VERSION as int) + ".."@ + spec_int_str(
        MAX_SERVER_VERSION as int,
    )
}

pub fn version_range_field() -> (r: String)
    ensures
        r@ == spec_version_range(),
{
    let mut s = String::from_str("v");
    let lo = i32_to_field(MIN_SERVER_VERSION);
    s.append(lo.as_str());
    s.append("..");
    let hi = i32_to_field(MAX_SERVER_VERSION);
    s.append(hi.as_str());
    s
}

/// The fields of the start-API frame: the message code, the shape version,
/// the client's session id, and -- above the optional-capabilities threshold
/// -- one extra empty field reserved for a capability string.
pub open spec fn spec_start_api_fields(server_version: int, client_id: int) -> Seq<Seq<char>> {
    let base = seq![
        spec_int_str(START_API as int),
        spec_int_str(START_API_VERSION as int),
        spec_int_str(client_id),
    ];
    if server_version > OPTIONAL_CAPABILITIES_VERSION as int {
        base.push(Seq::empty())
    } else {
        base
    }
}

pub fn start_api_message(server_version: i32, client_id: i32) -> (r: RequestMessage)
    ensures
        r@ == spec_start_api_fields(server_version as int, client_id as int),
{
    let mut prelude = RequestMessage::new();
    prelude.push_field(&START_API);
    prelude.push_field(&START_API_VERSION);
    prelude.push_field(&client_id);
    if server_version > OPTIONAL_CAPABILITIES_VERSION {
        prelude.push_field(&"");
        proof {
            reveal_strlit("");
            assert(""@ =~= Seq::<char>::empty());
        }
    }
    proof {
        assert(prelude@ =~= spec_start_api_fields(server_version as int, client_id as int));
    }
    prelude
}

/// A session over the channel `B`: negotiated version and session time,
/// the next valid order id and the managed accounts the gateway announced,
/// and the request-id counter.
pub struct IBClient<B: MessageBus> {
    /// Negotiated server version, immutable after the handshake.
    pub server_version: i32,
    /// Server session time string from the handshake reply.
    pub server_time: String,
    /// Next valid order id, announced unprompted after session start.
    pub next_valid_order_id: i32,
    /// Managed account identifiers, announced unprompted after session start.
    pub managed_accounts: String,
    /// The session id presented in the start-API frame.
    pub client_id: i32,
    /// The duplex channel the session runs over.
    pub message_bus: B,
    /// The request-id counter; advanced only through `next_request_id`.
    pub next_request_id: i32,
}

impl<B: MessageBus> IBClient<B> {
    /// The session is well-formed while its channel is.
    pub open spec fn wf(&self) -> bool {
        self.message_bus.inv()
    }

    pub open spec fn spec_client_id(&self) -> int {
        self.client_id as int
    }

    pub open spec fn spec_request_counter(&self) -> int {
        self.next_request_id as int
    }

    pub open spec fn spec_bus(&self) -> B {
        self.message_bus
    }

    /// Opens a session over the given channel: handshake, start-API, start of
    /// the background reader, then a bounded absorption of the unsolicited
    /// startup messages. Returns a ready session or the first failure.
    pub fn connect(message_bus: B) -> (r: Result<IBClient<B>, IbError>)
        requires
            message_bus.inv(),
        ensures
            r matches Ok(c) ==> c.wf() && c.spec_client_id() == DEFAULT_CLIENT_ID as int
                && c.spec_request_counter() == FIRST_REQUEST_ID as int,
    {
        let mut client = IBClient {
            server_version: 0,
            server_time: String::new(),
            next_valid_order_id: 0,
            managed_accounts: String::new(),
            client_id: DEFAULT_CLIENT_ID,
            message_bus,
            next_request_id: FIRST_REQUEST_ID,
        };

        match client.handshake() {
            Ok(()) => {},
            Err(e) => {
                return Err(e);
            },
        }
        match client.start_api() {
            Ok(()) => {},
            Err(e) => {
                return Err(e);
            },
        }
        match client.message_bus.process_messages(client.server_version) {
            Ok(()) => {},
            Err(e) => {
                return Err(e);
            },
        }
        client.absorb_startup_messages();
        Ok(client)
    }

    /// Writes the raw API marker and the supported-version-range preamble,
    /// reads the gateway's one-frame reply and adopts the negotiated version
    /// and session time from it.
    fn handshake(&mut self) -> (r: Result<(), IbError>)
        requires
            old(self).wf(),
        ensures
            final(self).wf(),
            final(self).spec_client_id() == old(self).spec_client_id(),
            final(self).spec_request_counter() == old(self).spec_request_counter(),
    {
        match self.message_bus.write_raw("API\x00") {
            Ok(()) => {},
            Err(e) => {
                return Err(e);
            },
        }

        let mut prelude = RequestMessage::new();
        let range = version_range_field();
        prelude.push_field(&range);
        match self.message_bus.write_message(&prelude) {
            Ok(()) => {},
            Err(e) => {
                return Err(e);
            },
        }

        let status = match self.message_bus.read_packet() {
            Ok(s) => s,
            Err(e) => {
                return Err(e);
            },
        };
        self.apply_handshake_reply(status)
    }

    /// Adopts the handshake reply: its first field is the negotiated version,
    /// its second the server session time. A reply without both, or whose
    /// version does not parse, fails the handshake and changes nothing.
    pub fn apply_handshake_reply(&mut self, status: ResponseMessage) -> (r: Result<(), IbError>)
        ensures
            final(self).wf() == old(self).wf(),
            final(self).spec_client_id() == old(self).spec_client_id(),
            final(self).spec_request_counter() == old(self).spec_request_counter(),
            final(self).spec_bus() == old(self).spec_bus(),
            ({
                let fs = status.spec_fields();
                if fs.len() >= 2 {
                    match spec_parse_i32(fs[0]) {
                        Some(v) => r == Ok::<(), IbError>(()) && final(self).server_version
                            == v as i32 && final(self).server_time@ == fs[1],
                        None => r == Err::<(), IbError>(IbError::Handshake) && *final(self)
                            == *old(self),
                    }
                } else {
                    r == Err::<(), IbError>(IbError::Handshake) && *final(self) == *old(self)
                }
            }),
    {
        if status.fields.len() < 2 {
            return Err(IbError::Handshake);
        }
        match crate::numbers::parse_i32(status.fields[0].as_str()) {
            Some(v) => {
                proof {
                    assert(status.spec_fields()[0] == status.fields@[0]@);
                    assert(status.spec_fields()[1] == status.fields@[1]@);
                }
                self.server_version = v;
                self.server_time = status.fields[1].clone();
                Ok(())
            },
            None => Err(IbError::Handshake),
        }
    }

    /// Writes the fixed-shape start-API frame for the negotiated version.
    fn start_api(&mut self) -> (r: Result<(), IbError>)
        requires
            old(self).wf(),
        ensures
            final(self).wf(),
            final(self).spec_client_id() == old(self).spec_client_id(),
            final(self).spec_request_counter() == old(self).spec_request_counter(),
            final(self).server_version == old(self).server_version,
    {
        let prelude = start_api_message(self.server_version, self.client_id);
        self.message_bus.write_message(&prelude)
    }

    /// Adopts one unsolicited startup message: the next-valid-order-id and
    /// managed-accounts announcements populate the session state; anything
    /// else is ignored here.
    pub fn apply_startup_message(&mut self, frame: ResponseMessage)
        ensures
            final(self).wf() == old(self).wf(),
            final(self).spec_client_id() == old(self).spec_client_id(),
            final(self).spec_request_counter() == old(self).spec_request_counter(),
            final(self).spec_bus() == old(self).spec_bus(),
            final(self).server_version == old(self).server_version,
            final(self).server_time == old(self).server_time,
            ({
                let fs = frame.spec_fields();
                let t = crate::codec::spec_message_type(fs);
                if t == IncomingMessages::NextValidId && fs.len() >= 3 && spec_parse_i32(
                    fs[2],
                ) is Some {
                    final(self).next_valid_order_id as int == spec_parse_i32(fs[2]).unwrap()
                        && final(self).managed_accounts == old(self).managed_accounts
                } else if t == IncomingMessages::ManagedAccounts && fs.len() >= 3 {
                    final(self).managed_accounts@ == fs[2] && final(self).next_valid_order_id
                        == old(self).next_valid_order_id
                } else {
                    final(self).next_valid_order_id == old(self).next_valid_order_id
                        && final(self).managed_accounts == old(self).managed_accounts
                }
            }),
    {
        let t = frame.message_type();
        match t {
            IncomingMessages::NextValidId => {
                if frame.fields.len() >= 3 {
                    proof {
                        assert(frame.spec_fields()[2] == frame.fields@[2]@);
                    }
                    match crate::numbers::parse_i32(frame.fields[2].as_str()) {
                        Some(v) => {
                            self.next_valid_order_id = v;
                        },
                        None => {},
                    }
                }
            },
            IncomingMessages::ManagedAccounts => {
                if frame.fields.len() >= 3 {
                    proof {
                        assert(frame.spec_fields()[2] == frame.fields@[2]@);
                    }
                    self.managed_accounts = frame.fields[2].clone();
                }
            },
            _ => {},
        }
    }

    /// Bounded absorption of the startup messages already delivered to the
    /// global destination; a session that received none is ready in a
    /// degraded state, not an error.
    fn absorb_startup_messages(&mut self)
        requires
            old(self).wf(),
        ensures
            final(self).wf(),
            final(self).spec_client_id() == old(self).spec_client_id(),
            final(self).spec_request_counter() == old(self).spec_request_counter(),
    {
        let mut budget: u32 = STARTUP_POLL_LIMIT;
        while budget > 0
            invariant
                self.wf(),
                self.spec_client_id() == old(self).spec_client_id(),
                self.spec_request_counter() == old(self).spec_request_counter(),
            decreases budget,
        {
            match self.message_bus.poll_global() {
                Some(frame) => {
                    self.apply_startup_message(frame);
                },
                None => {
                    return ;
                },
            }
            budget = budget - 1;
        }
    }

    /// One non-blocking draw from the queue behind a Delivery Handle.
    pub fn try_take(&mut self, promise: &ResponsePacketPromise) -> (r: TakeResult)
        requires
            old(self).wf(),
        ensures
            final(self).wf(),
    {
        self.message_bus.try_take(promise)
    }
}

impl<B: MessageBus> Client for IBClient<B> {
    open spec fn spec_wf(&self) -> bool {
        self.wf()
    }

    open spec fn spec_server_version(&self) -> int {
        self.server_version as int
    }

    open spec fn spec_next_request_id(&self) -> int {
        self.spec_request_counter()
    }

    fn next_request_id(&mut self) -> (r: i32) {
        self.next_request_id = self.next_request_id + 1;
        self.next_request_id
    }

    fn server_version(&self) -> (r: i32) {
        self.server_version
    }

    fn send_message(&mut self, packet: RequestMessage) -> (r: Result<(), IbError>) {
        self.message_bus.write_message(&packet)
    }

    fn send_request(&mut self, request_id: i32, message: RequestMessage) -> (r: Result<
        ResponsePacketPromise,
        IbError,
    >) {
        self.message_bus.write_message_for_request(request_id, &message)
    }

    fn send_order(&mut self, order_id: i32, message: RequestMessage) -> (r: Result<
        ResponsePacketPromise,
        IbError,
    >) {
        self.message_bus.write_message_for_request(order_id, &message)
    }

    fn check_server_version(&self, version: i32, message: &str) -> (r: Result<(), IbError>) {
        if version <= self.server_version {
            Ok(())
        } else {
            Err(
                IbError::Capability {
                    required: version,
                    actual: self.server_version,
                    context: String::from_str(message),
                },
            )
        }
    }
}

} // verus!
