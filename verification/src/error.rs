use vstd::prelude::*;
use vstd::string::StringExecFns;

verus! {

/// A range of a source text.
#[derive(Debug, Clone, PartialEq)]
pub struct Span {
    pub start: usize,
    pub end: usize,
    pub source: Option<String>,
}

impl Span {
    pub fn new(start: usize, end: usize) -> (r: Span)
        ensures
            r.start == start,
            r.end == end,
            r.source is None,
    {
        Span { start, end, source: None }
    }

    pub fn with_source(start: usize, end: usize, source: String) -> (r: Span)
        ensures
            r.start == start,
            r.end == end,
            r.source == Some(source),
    {
        Span { start, end, source: Some(source) }
    }
}

/// What can go wrong in the simulator.
#[derive(Debug)]
pub enum SimulatorError {
    Compilation { message: String, span: Option<Span> },
    Hardware(String),
    Parse(String),
    Io(String),
    Test(String),
    Vm(String),
    Cpu(String),
    PinNotFound { pin: String, chip: String },
}

impl SimulatorError {
    /// The text that `message` gives for this error.
    pub open spec fn spec_message(&self) -> Seq<char> {
        match self {
            SimulatorError::Compilation { message, .. } => "Compilation error: "@ + message@,
            SimulatorError::Hardware(m) => "Hardware error: "@ + m@,
            SimulatorError::Parse(m) => "Parse error: "@ + m@,
            SimulatorError::Io(m) => "I/O error: "@ + m@,
            SimulatorError::Test(m) => "Test error: "@ + m@,
            SimulatorError::Vm(m) => "VM error: "@ + m@,
            SimulatorError::Cpu(m) => "CPU error: "@ + m@,
            SimulatorError::PinNotFound { pin, chip } => "Pin '"@ + pin@ + "' not found in chip '"@
                + chip@ + "'"@,
        }
    }

    /// The error as a line for a person to read.
    pub fn message(&self) -> (r: String)
        ensures
            r@ == self.spec_message(),
    {
        match self {
            SimulatorError::Compilation { message, .. } => {
                String::from_str("Compilation error: ").concat(message.as_str())
            },
            SimulatorError::Hardware(m) => String::from_str("Hardware error: ").concat(m.as_str()),
            SimulatorError::Parse(m) => String::from_str("Parse error: ").concat(m.as_str()),
            SimulatorError::Io(m) => String::from_str("I/O error: ").concat(m.as_str()),
            SimulatorError::Test(m) => String::from_str("Test error: ").concat(m.as_str()),
            SimulatorError::Vm(m) => String::from_str("VM error: ").concat(m.as_str()),
            SimulatorError::Cpu(m) => String::from_str("CPU error: ").concat(m.as_str()),
            SimulatorError::PinNotFound { pin, chip } => {
                String::from_str("Pin '").concat(pin.as_str()).concat("' not found in chip '").concat(
                    chip.as_str(),
                ).concat("'")
            },
        }
    }
}

} // verus!
