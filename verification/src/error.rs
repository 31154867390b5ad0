use vstd::prelude::*;

use vstd::string::StringExecFns;

verus! {

/// Errors raised by producers and handles when talking to a bus.
#[derive(Debug)]
pub enum JackfieldError {
    NotRegistered,
    ChannelClosed,
    ChannelFull,
    Custom(String),
}

impl JackfieldError {
    /// The human-readable description of the error.
    pub open spec fn spec_message(&self) -> Seq<char> {
        match self {
            JackfieldError::NotRegistered => "Endpoint not registered with a bus"@,
            JackfieldError::ChannelClosed => "Bus channel has been closed"@,
            JackfieldError::ChannelFull => "Bus channel is full"@,
            JackfieldError::Custom(m) => "Bus error: "@ + m@,
        }
    }

    /// The human-readable description of the error.
    pub fn message(&self) -> (r: String)
        ensures
            r@ == self.spec_message(),
    {
        match self {
            JackfieldError::NotRegistered => "Endpoint not registered with a bus".to_owned(),
            JackfieldError::ChannelClosed => "Bus channel has been closed".to_owned(),
            JackfieldError::ChannelFull => "Bus channel is full".to_owned(),
            JackfieldError::Custom(m) => {
                let mut s = "Bus error: ".to_owned();
                s.append(m.as_str());
                s
            },
        }
    }
}

} // verus!
