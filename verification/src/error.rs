use crate::hardware::error::HardwareError;
use crate::peripherals::display::error::DisplayError;
use vstd::prelude::*;
use vstd::string::StringExecFns;

verus! {

/// Any failure of the appliance.
#[derive(Debug, Clone, PartialEq, Eq)]
pub enum SmartknobError {
    Hardware(HardwareError),
    Display(DisplayError),
}

impl SmartknobError {
    /// The error in words.
    pub open spec fn message(self) -> Seq<char> {
        match self {
            SmartknobError::Hardware(err) => "Hardware error: "@ + err.message(),
            SmartknobError::Display(err) => "Display error: "@ + err.message(),
        }
    }

    /// The error in words.
    pub fn to_string(&self) -> (text: String)
        ensures
            text@ == self.message(),
    {
        match self {
            SmartknobError::Hardware(err) => String::from_str("Hardware error: ").concat(
                err.to_string().as_str(),
            ),
            SmartknobError::Display(err) => String::from_str("Display error: ").concat(
                err.to_string().as_str(),
            ),
        }
    }
}

impl From<HardwareError> for SmartknobError {
    fn from(err: HardwareError) -> (error: Self) {
        Self::Hardware(err)
    }
}

impl vstd::std_specs::convert::FromSpecImpl<HardwareError> for SmartknobError {
    open spec fn obeys_from_spec() -> bool {
        true
    }

    open spec fn from_spec(err: HardwareError) -> Self {
        SmartknobError::Hardware(err)
    }
}

impl From<DisplayError> for SmartknobError {
    fn from(err: DisplayError) -> (error: Self) {
        Self::Display(err)
    }
}

impl vstd::std_specs::convert::FromSpecImpl<DisplayError> for SmartknobError {
    open spec fn obeys_from_spec() -> bool {
        true
    }

    open spec fn from_spec(err: DisplayError) -> Self {
        SmartknobError::Display(err)
    }
}

} // verus!
