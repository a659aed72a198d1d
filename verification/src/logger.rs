use vstd::prelude::*;

verus! {

/// Severity of a diagnostic line. The core only classifies; formatting
/// and the destination of the lines live with the log sink.
#[allow(non_camel_case_types)]
#[derive(Clone, Copy, Debug, PartialEq, Eq, Structural)]
pub enum LogLevel {
    FINE,
    INFO,
    ERROR,
}

impl LogLevel {
    /// The three-letter tag a log line carries for this level.
    pub fn label(&self) -> (r: &'static str)
        ensures
            *self == LogLevel::FINE ==> r@ == "FIN"@,
            *self == LogLevel::INFO ==> r@ == "NFO"@,
            *self == LogLevel::ERROR ==> r@ == "ERR"@,
    {
        match self {
            LogLevel::FINE => "FIN",
            LogLevel::INFO => "NFO",
            LogLevel::ERROR => "ERR",
        }
    }
}

} // verus!
