use vstd::prelude::*;

verus! {

/// Every failure the resolution and classification pipeline can report.
/// All of them are terminal: no component retries or downgrades another
/// component's failure.
#[derive(Debug, PartialEq, Eq)]
pub enum Error {
    /// Two or more persistent-storage entries matched the admin key variants
    MultipleAdminsFound,
    /// The admin storage slot held a value that is not an address
    WrongStorageType,
    /// The target address could not be parsed
    MalformedAddress,
    /// The RPC endpoint string could not be parsed
    MalformedUrl,
    /// No storage entry matched any admin key variant
    AdminNotFound,
    /// A contract-only operation was attempted on a non-contract target
    NotAContract,
    /// The instance-storage fetch failed
    InstanceStorageFailure,
    /// The persistent-storage fetch failed
    PersistentStorageFailure,
    /// The network name is not a well-known network
    InvalidNetwork,
    /// The local network configuration could not be loaded
    ConfigLoadFailure,
    /// The configuration-home environment variable is not a valid path
    XdgConfigHome(String),
    /// No home directory could be found
    HomeDirNotFound,
    /// The local network configuration does not set an RPC endpoint
    RpcUrlNotSet,
    /// The local network configuration is not valid TOML
    TomlParseFailure,
    /// Neither a contract id nor an admin address was supplied
    MissingTargetAddress,
    /// No network was supplied
    MissingNetwork,
    /// No historical-data index endpoint is known for the network
    HorizonUrlNotAvailable,
    /// Fetching data from the historical-data index failed
    HorizonDataFetchFailure,
    /// Parsing data from the historical-data index failed
    HorizonDataParseFailure,
}

impl Clone for Error {
    fn clone(&self) -> (r: Self)
        ensures
            r == *self,
    {
        match self {
            Error::MultipleAdminsFound => Error::MultipleAdminsFound,
            Error::WrongStorageType => Error::WrongStorageType,
            Error::MalformedAddress => Error::MalformedAddress,
            Error::MalformedUrl => Error::MalformedUrl,
            Error::AdminNotFound => Error::AdminNotFound,
            Error::NotAContract => Error::NotAContract,
            Error::InstanceStorageFailure => Error::InstanceStorageFailure,
            Error::PersistentStorageFailure => Error::PersistentStorageFailure,
            Error::InvalidNetwork => Error::InvalidNetwork,
            Error::ConfigLoadFailure => Error::ConfigLoadFailure,
            Error::XdgConfigHome(path) => Error::XdgConfigHome(path.clone()),
            Error::HomeDirNotFound => Error::HomeDirNotFound,
            Error::RpcUrlNotSet => Error::RpcUrlNotSet,
            Error::TomlParseFailure => Error::TomlParseFailure,
            Error::MissingTargetAddress => Error::MissingTargetAddress,
            Error::MissingNetwork => Error::MissingNetwork,
            Error::HorizonUrlNotAvailable => Error::HorizonUrlNotAvailable,
            Error::HorizonDataFetchFailure => Error::HorizonDataFetchFailure,
            Error::HorizonDataParseFailure => Error::HorizonDataParseFailure,
        }
    }
}

} // verus!
