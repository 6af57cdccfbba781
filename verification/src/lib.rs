//! Structured log records for a log-shipping pipeline.
//!
//! A [`Logger`] is bound to a service name and stamps every record it
//! produces with that name and with its default metadata. A record
//! ([`LoggerOperation`]) carries a severity, a message, the service name and
//! a key/value [`Meta`] set; records are collected, in order, in a
//! [`LoggerOperations`] batch.
//!
//! Every function is verified against a contract stated over mathematical
//! views: strings are `Seq<char>`, metadata is a `Map<Seq<char>, Seq<char>>`,
//! a batch is a `Seq` of record views.
//!
//! ### Example
//! ```
//! use substreams_sink_winston::{Logger, LoggerOperations, Meta};
//!
//! let mut log_ops: LoggerOperations = Default::default();
//! let mut logger = Logger::new("user-service");
//!
//! // Informational: informational messages
//! log_ops.push(logger.info("message"));
//!
//! // Error: error conditions
//! log_ops.push(logger.error("error message"));
//!
//! // Include metadata
//! let meta = Meta::from(vec![["key", "value"]]);
//! log_ops.push(logger.info("message").with(meta));
//! ```

pub mod batch;
pub mod decimal;
pub mod level;
pub mod logger;
pub mod meta;
pub mod operation;
pub mod pairs;

pub use batch::LoggerOperations;
pub use level::LoggingLevels;
pub use logger::{Logger, LoggerView};
pub use meta::Meta;
pub use operation::{LoggerOperation, RecordView};
