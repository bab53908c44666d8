//! Log events for the firmware's logger.
use vstd::prelude::*;

use crate::text::string_push;

verus! {

/// The severity of a log event.
#[derive(PartialEq, Eq, Structural, Debug, Clone, Copy)]
pub enum Severity {
    Debug,
    Info,
    Warning,
    Error,
    Critical,
}

impl Severity {
    /// The value the C side uses for this variant.
    pub open spec fn spec_code(self) -> i32 {
        match self {
            Severity::Debug => 1,
            Severity::Info => 2,
            Severity::Warning => 3,
            Severity::Error => 4,
            Severity::Critical => 5,
        }
    }

    pub fn code(&self) -> (r: i32)
        ensures
            r == self.spec_code(),
    {
        match self {
            Severity::Debug => 1,
            Severity::Info => 2,
            Severity::Warning => 3,
            Severity::Error => 4,
            Severity::Critical => 5,
        }
    }

    /// The variant with the C value `code`, if there is one.
    pub fn from_code(code: i32) -> (r: Option<Severity>)
        ensures
            r == Severity::from_code_spec(code),
            r matches Some(v) ==> v.spec_code() == code,
            r is None ==> forall|v: Severity| v.spec_code() != code,
    {
        if code == 1 {
            return Some(Severity::Debug);
        }
        if code == 2 {
            return Some(Severity::Info);
        }
        if code == 3 {
            return Some(Severity::Warning);
        }
        if code == 4 {
            return Some(Severity::Error);
        }
        if code == 5 {
            return Some(Severity::Critical);
        }
        proof {
            assert forall|v: Severity| v.spec_code() != code by {
                match v {
                    Severity::Debug => {},
                    Severity::Info => {},
                    Severity::Warning => {},
                    Severity::Error => {},
                    Severity::Critical => {},
                }
            }
        }
        None
    }

    /// The name of the severity.
    pub open spec fn spec_message(self) -> &'static str {
        match self {
            Severity::Debug => "Debug",
            Severity::Info => "Info",
            Severity::Warning => "Warning",
            Severity::Error => "Error",
            Severity::Critical => "Critical",
        }
    }

    pub fn message(&self) -> (r: &'static str)
        ensures
            r == self.spec_message(),
    {
        match self {
            Severity::Debug => "Debug",
            Severity::Info => "Info",
            Severity::Warning => "Warning",
            Severity::Error => "Error",
            Severity::Critical => "Critical",
        }
    }
}

impl Severity {
    /// The variant with the C value `code`, if there is one.
    pub open spec fn from_code_spec(code: i32) -> Option<Severity> {
        if code == 1 {
            Some(Severity::Debug)
        } else if code == 2 {
            Some(Severity::Info)
        } else if code == 3 {
            Some(Severity::Warning)
        } else if code == 4 {
            Some(Severity::Error)
        } else if code == 5 {
            Some(Severity::Critical)
        } else {
            None
        }
    }
}

/// Each severity has its own code: the code of a severity reads back as that severity.
pub proof fn law_severity_codes_round_trip(v: Severity)
    ensures
        Severity::from_code_spec(v.spec_code()) == Some(v),
{
    match v {
        Severity::Debug => {},
        Severity::Info => {},
        Severity::Warning => {},
        Severity::Error => {},
        Severity::Critical => {},
    }
}

/// The message as the firmware's logger takes it: followed by a nul.
pub fn c_message(msg: String) -> (r: String)
    ensures
        r@ == msg@.push('\0'),
{
    let mut m = msg;
    string_push(&mut m, '\0');
    m
}

} // verus!
