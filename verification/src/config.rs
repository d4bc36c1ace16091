use crate::decimal::{decimal, decimal_text};
use vstd::prelude::*;
use vstd::string::StringExecFns;

verus! {

/// What the factory is run for.
#[derive(Clone, Copy, Debug, PartialEq, Eq, Structural)]
pub enum Mode {
    Full,
    FactoryOnly,
    QueryOnly,
}

impl Mode {
    /// The characters of [`Mode::label`].
    pub open spec fn label_text(&self) -> Seq<char> {
        match self {
            Mode::Full => "Full"@,
            Mode::FactoryOnly => "Factory Only"@,
            Mode::QueryOnly => "Query Only"@,
        }
    }

    /// The name under which the mode is shown.
    pub fn label(&self) -> (text: &'static str)
        ensures
            text@ == self.label_text(),
    {
        match self {
            Mode::Full => "Full",
            Mode::FactoryOnly => "Factory Only",
            Mode::QueryOnly => "Query Only",
        }
    }
}

/// How the factory was started.
#[derive(Clone, Copy, Debug, PartialEq, Eq, Structural)]
pub struct Configuration {
    pub port: u32,
    pub block_time: u32,
    pub mode: Mode,
}

impl Configuration {
    /// A configuration, if the port and the seconds between two blocks are
    /// both at least one.
    pub fn new(port: u32, block_time: u32, mode: Mode) -> (made: Option<Self>)
        ensures
            port >= 1 && block_time >= 1 ==> made == Some(Configuration { port, block_time, mode }),
            !(port >= 1 && block_time >= 1) ==> made is None,
    {
        if port >= 1 && block_time >= 1 {
            Some(Configuration { port, block_time, mode })
        } else {
            None
        }
    }

    /// The rows under which the configuration is shown, each a name and a
    /// value: the port, the block time and the mode.
    pub fn display_rows(&self) -> (rows: Vec<(&'static str, String)>)
        ensures
            rows.len() == 3,
            rows[0].0@ == "Port"@ && rows[0].1@ == decimal(self.port as nat),
            rows[1].0@ == "Block Time"@ && rows[1].1@ == decimal(self.block_time as nat),
            rows[2].0@ == "Mode"@ && rows[2].1@ == self.mode.label_text(),
    {
        let mut rows: Vec<(&'static str, String)> = Vec::new();
        rows.push(("Port", decimal_text(self.port as u64)));
        rows.push(("Block Time", decimal_text(self.block_time as u64)));
        rows.push(("Mode", String::from_str(self.mode.label())));
        rows
    }
}

} // verus!
