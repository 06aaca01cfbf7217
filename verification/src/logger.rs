use vstd::prelude::*;

verus! {

/// The switch for the interpreter's trace output: whether log lines are
/// printed. A new logger is enabled.
#[derive(Debug, Clone, Copy)]
pub struct Logger {
    enabled: bool,
}

impl Logger {
    /// Whether log lines are printed.
    pub closed spec fn on(&self) -> bool {
        self.enabled
    }

    /// A logger that prints.
    pub fn new() -> (l: Logger)
        ensures
            l.on(),
    {
        Logger { enabled: true }
    }

    /// Turns log output on.
    pub fn enable(&mut self)
        ensures
            final(self).on(),
    {
        self.enabled = true;
    }

    /// Turns log output off.
    pub fn disable(&mut self)
        ensures
            !final(self).on(),
    {
        self.enabled = false;
    }

    /// Whether log output is on.
    pub fn is_enabled(&self) -> (b: bool)
        ensures
            b == self.on(),
    {
        self.enabled
    }
}

} // verus!
