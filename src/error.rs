use vstd::prelude::*;

verus! {

/// Why a configuration was rejected before any record was read.
#[derive(Debug, Clone, Copy, PartialEq, Eq, Structural)]
pub enum ConfigError {
    /// The number of predicates differs from the number of sinks.
    MismatchedFiltersAndOutputs { predicates: usize, sinks: usize },
    /// The sink at this index does not name a `.las` or `.laz` file.
    InvalidOutputExtension { sink: usize },
    /// The source at this index is neither a file nor a directory.
    InvalidInputPath { source: usize },
    /// No source was given.
    NoSources,
    /// The batch size is zero.
    ZeroBatchSize,
}

/// The first fatal fault of a run.
#[derive(Debug, Clone, Copy, PartialEq, Eq, Structural)]
pub enum MyError {
    /// The configuration was rejected; nothing was opened.
    Configuration(ConfigError),
    /// The source at this index could not be opened or has an incompatible schema.
    SourceOpenError { source: usize },
    /// Pulling records from the source at this index failed.
    SourceReadError { source: usize },
    /// The sink at this index could not be created.
    SinkOpenError { sink: usize },
    /// Appending a record to the sink at this index failed.
    SinkWriteError { sink: usize },
    /// A shared counter could not be locked.
    LockError,
    /// The routing channel was closed while a sender still had a batch.
    ChannelSendError,
    /// A worker task terminated abnormally.
    TaskJoinError,
}

/// The description of each fault.
pub open spec fn message_text(e: MyError) -> Seq<char> {
    match e {
        MyError::Configuration(ConfigError::MismatchedFiltersAndOutputs { .. }) => "Output paths number must match the number of filter arguments"@,
        MyError::Configuration(ConfigError::InvalidOutputExtension { .. }) => "Output file must have a .las or .laz extension."@,
        MyError::Configuration(ConfigError::InvalidInputPath { .. }) => "Input path must be a file or directory."@,
        MyError::Configuration(ConfigError::NoSources) => "At least one input is needed."@,
        MyError::Configuration(ConfigError::ZeroBatchSize) => "Batch size must be positive."@,
        MyError::SourceOpenError { .. } => "failed to open an input file."@,
        MyError::SourceReadError { .. } => "failed to read from reader."@,
        MyError::SinkOpenError { .. } => "failed to create an output file."@,
        MyError::SinkWriteError { .. } => "failed to write to an output file."@,
        MyError::LockError => "failed to lock mutex."@,
        MyError::ChannelSendError => "An error occurred when sending data using mspc."@,
        MyError::TaskJoinError => "An error occurred in a thread."@,
    }
}

impl MyError {
    /// A one-line description of the fault.
    pub fn message(&self) -> (r: String)
        ensures
            r@ == message_text(*self),
    {
        let s: &str = match self {
            MyError::Configuration(ConfigError::MismatchedFiltersAndOutputs { .. }) => "Output paths number must match the number of filter arguments",
            MyError::Configuration(ConfigError::InvalidOutputExtension { .. }) => "Output file must have a .las or .laz extension.",
            MyError::Configuration(ConfigError::InvalidInputPath { .. }) => "Input path must be a file or directory.",
            MyError::Configuration(ConfigError::NoSources) => "At least one input is needed.",
            MyError::Configuration(ConfigError::ZeroBatchSize) => "Batch size must be positive.",
            MyError::SourceOpenError { .. } => "failed to open an input file.",
            MyError::SourceReadError { .. } => "failed to read from reader.",
            MyError::SinkOpenError { .. } => "failed to create an output file.",
            MyError::SinkWriteError { .. } => "failed to write to an output file.",
            MyError::LockError => "failed to lock mutex.",
            MyError::ChannelSendError => "An error occurred when sending data using mspc.",
            MyError::TaskJoinError => "An error occurred in a thread.",
        };
        String::from_str(s)
    }
}

} // verus!
