//! An in-memory duplex channel: records what the session writes and serves
//! scripted frames, so the handshake, the correlator and the session state
//! machine can be driven without a socket.
use vstd::prelude::*;

use crate::client::{MessageBus, ResponsePacketPromise};
use crate::codec::{RequestMessage, ResponseMessage};
use crate::correlator::{
    spec_route, spec_route_outcome, Correlator, EntryModel, RouteOutcome, TakeResult,
};
use crate::errors::IbError;

verus! {

/// The scripted channel. Everything written lands in a log; `read_packet`
/// serves the scripted frames front first; inbound frames are handed to the
/// correlator through `dispatch`, standing in for the background reader.
pub struct StubMessageBus {
    /// Raw (unframed) writes, in order.
    pub raw_writes: Vec<String>,
    /// Encoded frames written, in order.
    pub framed_writes: Vec<String>,
    /// Frames `read_packet` serves, front first.
    pub to_read: Vec<ResponseMessage>,
    /// The version `process_messages` was started with, once it was.
    pub dispatch_version: Option<i32>,
    /// The correlation table the scripted reader fills.
    pub correlator: Correlator,
}

impl StubMessageBus {
    /// A fresh channel: nothing written, nothing scripted, no id registered.
    pub fn new() -> (r: StubMessageBus)
        ensures
            r.inv(),
            r.raw_writes@ == Seq::<String>::empty(),
            r.framed_writes@ == Seq::<String>::empty(),
            r.to_read@ == Seq::<ResponseMessage>::empty(),
            r.dispatch_version is None,
            r.correlator@.table == Map::<int, EntryModel>::empty(),
            r.correlator@.global == Seq::<ResponseMessage>::empty(),
            !r.correlator@.global_closed,
    {
        StubMessageBus {
            raw_writes: Vec::new(),
            framed_writes: Vec::new(),
            to_read: Vec::new(),
            dispatch_version: None,
            correlator: Correlator::new(),
        }
    }

    /// Scripts one more frame for `read_packet` to serve.
    pub fn script_frame(&mut self, frame: ResponseMessage)
        requires
            old(self).inv(),
        ensures
            final(self).inv(),
            final(self).to_read@ == old(self).to_read@.push(frame),
            final(self).correlator == old(self).correlator,
    {
        self.to_read.push(frame);
    }

    /// Hands one inbound frame to the reader's routing step.
    pub fn dispatch(&mut self, frame: ResponseMessage) -> (outcome: RouteOutcome)
        requires
            old(self).inv(),
        ensures
            final(self).inv(),
            final(self).correlator@ == spec_route(old(self).correlator@, frame),
            outcome == spec_route_outcome(old(self).correlator@, frame),
            final(self).raw_writes == old(self).raw_writes,
            final(self).framed_writes == old(self).framed_writes,
            final(self).to_read == old(self).to_read,
    {
        self.correlator.route(frame)
    }
}

impl MessageBus for StubMessageBus {
    open spec fn inv(&self) -> bool {
        self.correlator.wf()
    }

    fn write_raw(&mut self, data: &str) -> (r: Result<(), IbError>) {
        self.raw_writes.push(String::from_str(data));
        Ok(())
    }

    fn write_message(&mut self, message: &RequestMessage) -> (r: Result<(), IbError>) {
        self.framed_writes.push(message.encode());
        Ok(())
    }

    fn write_message_for_request(&mut self, request_id: i32, message: &RequestMessage) -> (r:
        Result<ResponsePacketPromise, IbError>) {
        self.correlator.register(request_id);
        self.framed_writes.push(message.encode());
        Ok(ResponsePacketPromise { correlation_id: request_id })
    }

    fn read_packet(&mut self) -> (r: Result<ResponseMessage, IbError>) {
        if self.to_read.len() == 0 {
            Err(IbError::Transport)
        } else {
            Ok(self.to_read.remove(0))
        }
    }

    fn process_messages(&mut self, server_version: i32) -> (r: Result<(), IbError>) {
        self.dispatch_version = Some(server_version);
        Ok(())
    }

    fn poll_global(&mut self) -> (r: Option<ResponseMessage>) {
        match self.correlator.take_global() {
            TakeResult::Frame(m) => Some(m),
            TakeResult::Pending => None,
            TakeResult::Closed => None,
        }
    }

    fn try_take(&mut self, promise: &ResponsePacketPromise) -> (r: TakeResult) {
        self.correlator.try_take(promise.correlation_id)
    }
}

} // verus!
