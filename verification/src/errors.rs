//! The gateway's error taxonomy, with the stable machine codes and HTTP
//! status codes that the control API surfaces for each kind.
use vstd::prelude::*;

verus! {

/// Errors surfaced by the trading core.
#[derive(Debug)]
pub enum TradingError {
    /// Venue-reported failure of an order operation.
    ExecutionError { message: String },
    /// Policy refusal from risk checks.
    RiskLimitError { limit: String },
    /// Inconsistent or missing upstream data.
    DataError { source: String },
    /// Network or connectivity failure on the way to a venue.
    NetworkError { message: String },
    /// A payload that could not be encoded or decoded.
    SerializationError { message: String },
}

impl TradingError {
    /// The stable machine code that the control API reports for this error.
    pub fn code(&self) -> (r: &'static str)
        ensures
            self is RiskLimitError ==> r@ == "RISK_LIMIT_ERROR"@,
            self is ExecutionError ==> r@ == "EXECUTION_ERROR"@,
            self is NetworkError ==> r@ == "NETWORK_ERROR"@,
            self is DataError ==> r@ == "DATA_ERROR"@,
            self is SerializationError ==> r@ == "SERIALIZATION_ERROR"@,
    {
        match self {
            TradingError::RiskLimitError { .. } => "RISK_LIMIT_ERROR",
            TradingError::ExecutionError { .. } => "EXECUTION_ERROR",
            TradingError::NetworkError { .. } => "NETWORK_ERROR",
            TradingError::DataError { .. } => "DATA_ERROR",
            TradingError::SerializationError { .. } => "SERIALIZATION_ERROR",
        }
    }

    /// The HTTP status under which the control API surfaces this error:
    /// risk refusals are forbidden, data errors unprocessable, transport
    /// errors a bad gateway, malformed payloads a bad request, and
    /// venue-reported failures an internal error.
    pub fn http_status(&self) -> (r: u16)
        ensures
            self is RiskLimitError ==> r == 403,
            self is ExecutionError ==> r == 500,
            self is NetworkError ==> r == 502,
            self is DataError ==> r == 422,
            self is SerializationError ==> r == 400,
    {
        match self {
            TradingError::RiskLimitError { .. } => 403,
            TradingError::ExecutionError { .. } => 500,
            TradingError::NetworkError { .. } => 502,
            TradingError::DataError { .. } => 422,
            TradingError::SerializationError { .. } => 400,
        }
    }

    /// The detail text carried by the error, whatever its kind.
    pub fn detail(&self) -> (r: &String)
        ensures
            self matches TradingError::ExecutionError { message } ==> r@ == message@,
            self matches TradingError::RiskLimitError { limit } ==> r@ == limit@,
            self matches TradingError::DataError { source } ==> r@ == source@,
            self matches TradingError::NetworkError { message } ==> r@ == message@,
            self matches TradingError::SerializationError { message } ==> r@ == message@,
    {
        match self {
            TradingError::ExecutionError { message } => message,
            TradingError::RiskLimitError { limit } => limit,
            TradingError::DataError { source } => source,
            TradingError::NetworkError { message } => message,
            TradingError::SerializationError { message } => message,
        }
    }

    /// A human-readable description: the kind's prefix followed by the
    /// detail text, mirroring how the errors print.
    pub fn describe(&self) -> (r: String)
        ensures
            self matches TradingError::ExecutionError { message } ==> r@ == "Order execution failed: "@
                + message@,
            self matches TradingError::RiskLimitError { limit } ==> r@ == "Risk limit violated: "@
                + limit@,
            self matches TradingError::DataError { source } ==> r@ == "Data error: "@ + source@,
            self matches TradingError::NetworkError { message } ==> r@ == "Network error: "@
                + message@,
            self matches TradingError::SerializationError { message } ==> r@
                == "Serialization error: "@ + message@,
    {
        let prefix = match self {
            TradingError::ExecutionError { .. } => "Order execution failed: ",
            TradingError::RiskLimitError { .. } => "Risk limit violated: ",
            TradingError::DataError { .. } => "Data error: ",
            TradingError::NetworkError { .. } => "Network error: ",
            TradingError::SerializationError { .. } => "Serialization error: ",
        };
        let mut out = String::from_str(prefix);
        out.append(self.detail().as_str());
        out
    }
}

} // verus!
