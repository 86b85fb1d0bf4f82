//! The publish path: one message per input line.

use vstd::prelude::*;
use vstd::string::{StrSliceExecFns, StringSliceAdditionalSpecFns};
use vstd::utf8::encode_utf8;
use crate::classify::{classify_spec, newline, theorem_encoded_text_is_recognised, OutcomeView};

verus! {

/// One publish call: where the message goes and what it carries.
#[derive(Debug, PartialEq, Eq)]
pub struct PublishRequest {
    /// The exchange to publish to; empty for the default exchange.
    pub exchange: String,
    /// The routing key of the message.
    pub routing_key: String,
    /// The message body.
    pub payload: Vec<u8>,
}

/// The mathematical value of a [`PublishRequest`].
pub struct PublishRequestView {
    pub exchange: Seq<char>,
    pub routing_key: Seq<char>,
    pub payload: Seq<u8>,
}

impl View for PublishRequest {
    type V = PublishRequestView;

    open spec fn view(&self) -> PublishRequestView {
        PublishRequestView {
            exchange: self.exchange@,
            routing_key: self.routing_key@,
            payload: self.payload@,
        }
    }
}

/// The destination shared by every line of one publish run.
pub struct Publisher {
    exchange: String,
    routing_key: String,
}

impl Publisher {
    /// The exchange every message is published to.
    pub closed spec fn exchange(&self) -> Seq<char> {
        self.exchange@
    }

    /// The routing key every message is published with.
    pub closed spec fn routing_key(&self) -> Seq<char> {
        self.routing_key@
    }

    /// A publisher for the given exchange and routing key.
    pub fn new(exchange: String, routing_key: String) -> (publisher: Publisher)
        ensures
            publisher.exchange() == exchange@,
            publisher.routing_key() == routing_key@,
    {
        Publisher { exchange, routing_key }
    }

    /// The publish call for one input line: the configured destination, and
    /// the line's UTF-8 bytes as the payload.
    pub fn request(&self, line: &str) -> (request: PublishRequest)
        ensures
            request@ == (PublishRequestView {
                exchange: self.exchange(),
                routing_key: self.routing_key(),
                payload: encode_utf8(line@),
            }),
    {
        PublishRequest {
            exchange: self.exchange.clone(),
            routing_key: self.routing_key.clone(),
            payload: line.as_bytes_vec(),
        }
    }
}

/// What is published for a line comes back as that line: a consumer that
/// classifies the payload of a line without a newline accepts exactly the
/// line's text.
pub proof fn theorem_published_line_is_accepted(line: Seq<char>)
    requires
        !line.contains(newline()),
    ensures
        classify_spec(encode_utf8(line)) == OutcomeView::Accept(line),
{
    theorem_encoded_text_is_recognised(line);
}

} // verus!
