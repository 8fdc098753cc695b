//! The settings of the service, as read from its environment.

use vstd::prelude::*;

verus! {

/// The variable that holds the address of the broker.
pub const BROKER_ADDR_VAR: &'static str = "FASTTQ_BROKER_ADDR";

/// The variable that holds the address of the database to read from.
pub const DATABASE_READER_VAR: &'static str = "FASTTQ_DATABASE_READER_URL";

/// The variable that holds the address of the database to write to.
pub const DATABASE_WRITER_VAR: &'static str = "FASTTQ_DATABASE_WRITER_URL";

/// The addresses that the service connects to.
#[derive(Debug, PartialEq, Eq)]
pub struct Config {
    pub broker_addr: String,
    pub db_reader_url: String,
    pub db_writer_url: String,
}

/// The setting that is missing.
#[derive(Clone, Copy, Debug, PartialEq, Eq, Structural)]
pub enum ConfigError {
    MissingBrokerAddr,
    MissingReaderUrl,
    MissingWriterUrl,
}

impl Config {
    /// The settings made of the values found for the three variables. Where
    /// several are missing, the first of them in the order broker, reader,
    /// writer is reported.
    pub fn new(
        broker_addr: Option<String>,
        db_reader_url: Option<String>,
        db_writer_url: Option<String>,
    ) -> (r: Result<Config, ConfigError>)
        ensures
            match (broker_addr, db_reader_url, db_writer_url) {
                (None, _, _) => r == Err::<Config, ConfigError>(ConfigError::MissingBrokerAddr),
                (Some(_), None, _) => r == Err::<Config, ConfigError>(ConfigError::MissingReaderUrl),
                (Some(_), Some(_), None) => r == Err::<Config, ConfigError>(
                    ConfigError::MissingWriterUrl,
                ),
                (Some(broker), Some(reader), Some(writer)) => r == Ok::<Config, ConfigError>(
                    (Config { broker_addr: broker, db_reader_url: reader, db_writer_url: writer }),
                ),
            },
    {
        let broker_addr = match broker_addr {
            Some(value) => value,
            None => {
                return Err(ConfigError::MissingBrokerAddr);
            },
        };
        let db_reader_url = match db_reader_url {
            Some(value) => value,
            None => {
                return Err(ConfigError::MissingReaderUrl);
            },
        };
        let db_writer_url = match db_writer_url {
            Some(value) => value,
            None => {
                return Err(ConfigError::MissingWriterUrl);
            },
        };
        Ok(Config { broker_addr, db_reader_url, db_writer_url })
    }
}

} // verus!
