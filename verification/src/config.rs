//! Settings of the batched acknowledgment loop.

use vstd::prelude::*;

verus! {

/// The recommended number of accepted deliveries per cumulative
/// acknowledgment.
pub const DEFAULT_BATCH_SIZE: u16 = 256;

/// The largest batch size whose doubled prefetch limit still fits the
/// sixteen bits that the protocol gives it.
pub const MAX_BATCH_SIZE: u16 = 0x7fff;

/// The default bound, in milliseconds, on one wait for the next delivery.
pub const DEFAULT_IDLE_TIMEOUT_MILLIS: u64 = 1000;

/// Why a batch size was refused.
#[derive(Clone, Copy, Debug, PartialEq, Eq, Structural)]
pub enum ConfigError {
    /// A batch of no deliveries would never flush.
    ZeroBatchSize,
    /// Twice the batch size does not fit the prefetch limit.
    BatchSizeTooLarge,
}

/// The settings fixed when the loop is built.
#[derive(Clone, Copy, Debug)]
pub struct Config {
    batch_size: u16,
    idle_timeout_millis: u64,
    newline_error_ack: bool,
    parse_error_ack: bool,
}

/// The mathematical value of a [`Config`].
pub struct ConfigView {
    pub batch_size: nat,
    pub idle_timeout_millis: nat,
    pub newline_error_ack: bool,
    pub parse_error_ack: bool,
}

impl ConfigView {
    /// The batch size is positive and its double fits the prefetch limit.
    pub open spec fn wf(self) -> bool {
        1 <= self.batch_size <= MAX_BATCH_SIZE
    }
}

impl View for Config {
    type V = ConfigView;

    closed spec fn view(&self) -> ConfigView {
        ConfigView {
            batch_size: self.batch_size as nat,
            idle_timeout_millis: self.idle_timeout_millis as nat,
            newline_error_ack: self.newline_error_ack,
            parse_error_ack: self.parse_error_ack,
        }
    }
}

impl Config {
    /// Holds of every configuration that exists at run time.
    #[verifier::type_invariant]
    pub open spec fn well_formed(&self) -> bool {
        self@.wf()
    }

    /// Builds a configuration, refusing a batch size of zero or one whose
    /// double would overflow the prefetch limit.
    pub fn new(
        batch_size: u16,
        idle_timeout_millis: u64,
        newline_error_ack: bool,
        parse_error_ack: bool,
    ) -> (made: Result<Config, ConfigError>)
        ensures
            batch_size == 0 <==> made == Err::<Config, ConfigError>(ConfigError::ZeroBatchSize),
            batch_size > MAX_BATCH_SIZE <==> made == Err::<Config, ConfigError>(
                ConfigError::BatchSizeTooLarge,
            ),
            1 <= batch_size <= MAX_BATCH_SIZE <==> made is Ok,
            made matches Ok(config) ==> config@ == (ConfigView {
                batch_size: batch_size as nat,
                idle_timeout_millis: idle_timeout_millis as nat,
                newline_error_ack,
                parse_error_ack,
            }),
    {
        if batch_size == 0 {
            Err(ConfigError::ZeroBatchSize)
        } else if batch_size > MAX_BATCH_SIZE {
            Err(ConfigError::BatchSizeTooLarge)
        } else {
            Ok(Config { batch_size, idle_timeout_millis, newline_error_ack, parse_error_ack })
        }
    }

    /// The recommended settings: batches of 256, a wait of one second, and
    /// the two acknowledge-on-error flags as given.
    pub fn with_defaults(newline_error_ack: bool, parse_error_ack: bool) -> (config: Config)
        ensures
            config@ == (ConfigView {
                batch_size: DEFAULT_BATCH_SIZE as nat,
                idle_timeout_millis: DEFAULT_IDLE_TIMEOUT_MILLIS as nat,
                newline_error_ack,
                parse_error_ack,
            }),
    {
        Config {
            batch_size: DEFAULT_BATCH_SIZE,
            idle_timeout_millis: DEFAULT_IDLE_TIMEOUT_MILLIS,
            newline_error_ack,
            parse_error_ack,
        }
    }

    /// The number of accepted deliveries that triggers a flush.
    pub fn batch_size(&self) -> (n: u16)
        ensures
            n == self@.batch_size,
            self@.wf(),
    {
        proof {
            use_type_invariant(self);
        }
        self.batch_size
    }

    /// The bound on one wait for the next delivery, in milliseconds.
    pub fn idle_timeout_millis(&self) -> (millis: u64)
        ensures
            millis == self@.idle_timeout_millis,
    {
        self.idle_timeout_millis
    }

    /// Whether a delivery whose text holds a newline is acknowledged.
    pub fn newline_error_ack(&self) -> (flag: bool)
        ensures
            flag == self@.newline_error_ack,
    {
        self.newline_error_ack
    }

    /// Whether a delivery that is not valid UTF-8 is acknowledged.
    pub fn parse_error_ack(&self) -> (flag: bool)
        ensures
            flag == self@.parse_error_ack,
    {
        self.parse_error_ack
    }

    /// The prefetch limit to set on the channel before consuming: twice the
    /// batch size, so that the broker keeps sending while a batch is
    /// assembled.
    pub fn prefetch(&self) -> (limit: u16)
        ensures
            limit == 2 * self@.batch_size,
    {
        proof {
            use_type_invariant(self);
        }
        2 * self.batch_size
    }
}

} // verus!
