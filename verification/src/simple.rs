//! The two ways of consuming: with batched acknowledgments, or with the
//! broker settling every delivery as it sends it.

use vstd::prelude::*;
use crate::classify::LINE_FEED;
use crate::config::{Config, ConfigView};

verus! {

/// How deliveries are consumed.
#[derive(Clone, Copy, Debug)]
pub enum ConsumeMode {
    /// The client acknowledges in batches, under the given settings.
    Batched(Config),
    /// The broker asks for no acknowledgment: there is no pending window and
    /// no classification, every payload is printed as it comes.
    AutoAck,
}

/// The mathematical value of a [`ConsumeMode`].
pub enum ConsumeModeView {
    Batched(ConfigView),
    AutoAck,
}

impl View for ConsumeMode {
    type V = ConsumeModeView;

    open spec fn view(&self) -> ConsumeModeView {
        match self {
            ConsumeMode::Batched(config) => ConsumeModeView::Batched(config@),
            ConsumeMode::AutoAck => ConsumeModeView::AutoAck,
        }
    }
}

impl ConsumeMode {
    /// Whether the consume session is opened without client acknowledgment.
    pub fn no_ack(&self) -> (flag: bool)
        ensures
            flag == (self@ is AutoAck),
    {
        match self {
            ConsumeMode::Batched(_) => false,
            ConsumeMode::AutoAck => true,
        }
    }

    /// The prefetch limit to set before consuming: twice the batch size in
    /// batched mode, none where nothing is acknowledged.
    pub fn prefetch(&self) -> (limit: Option<u16>)
        ensures
            limit == match self@ {
                ConsumeModeView::Batched(config) => Some((2 * config.batch_size) as u16),
                ConsumeModeView::AutoAck => None,
            },
            self@ matches ConsumeModeView::Batched(config) ==> config.wf(),
    {
        match self {
            ConsumeMode::Batched(config) => {
                proof {
                    use_type_invariant(config);
                }
                Some(config.prefetch())
            },
            ConsumeMode::AutoAck => None,
        }
    }
}

/// The output for one delivery in auto-acknowledge mode: the payload's bytes
/// as they are, ended by a line feed.
pub fn unconditional_line(payload: &[u8]) -> (line: Vec<u8>)
    ensures
        line@ == payload@.push(LINE_FEED),
{
    let mut line: Vec<u8> = Vec::with_capacity(payload.len());
    let mut i: usize = 0;
    while i < payload.len()
        invariant
            i <= payload.len(),
            line@ == payload@.take(i as int),
        decreases payload.len() - i,
    {
        line.push(payload[i]);
        assert(payload@.take(i + 1) =~= payload@.take(i as int).push(payload@[i as int]));
        i += 1;
    }
    assert(payload@.take(payload@.len() as int) =~= payload@);
    line.push(LINE_FEED);
    line
}

} // verus!
