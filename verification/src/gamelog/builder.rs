use vstd::prelude::*;
use vstd::string::StringExecFns;

verus! {

/// The colours a log line can be written in.
#[derive(PartialEq, Eq, Structural, Copy, Clone, Debug)]
pub enum LogColor {
    Yellow,
    Cyan,
    Red,
    Orange,
    Green,
    White,
    Magenta,
}

/// A run of text of one colour in a log line.
pub struct LogFragment {
    pub color: LogColor,
    pub text: String,
}

/// Builds one log line from coloured fragments.
pub struct Logger {
    pub fragments: Vec<LogFragment>,
}

/// The fragments of a line as (colour, text) pairs.
pub open spec fn fragments_view(f: Seq<LogFragment>) -> Seq<(LogColor, Seq<char>)> {
    f.map_values(|g: LogFragment| (g.color, g.text@))
}

impl Logger {
    /// The line built so far.
    pub open spec fn line(&self) -> Seq<(LogColor, Seq<char>)> {
        fragments_view(self.fragments@)
    }

    pub fn new() -> (logger: Logger)
        ensures
            logger.line() == Seq::<(LogColor, Seq<char>)>::empty(),
    {
        let logger = Logger { fragments: Vec::new() };
        assert(logger.line() =~= Seq::<(LogColor, Seq<char>)>::empty());
        logger
    }

    fn add_fragment(self, text: String, color: LogColor) -> (logger: Logger)
        ensures
            logger.line() == self.line().push((color, text@)),
    {
        let mut logger = self;
        let ghost before = logger.fragments@;
        logger.fragments.push(LogFragment { color, text });
        assert(fragments_view(logger.fragments@) =~= fragments_view(before).push((color, text@)));
        logger
    }

    pub fn yellow(self, text: &str) -> (logger: Logger)
        ensures
            logger.line() == self.line().push((LogColor::Yellow, text@)),
    {
        self.add_fragment(String::from_str(text), LogColor::Yellow)
    }

    pub fn cyan(self, text: &str) -> (logger: Logger)
        ensures
            logger.line() == self.line().push((LogColor::Cyan, text@)),
    {
        self.add_fragment(String::from_str(text), LogColor::Cyan)
    }

    pub fn red(self, text: &str) -> (logger: Logger)
        ensures
            logger.line() == self.line().push((LogColor::Red, text@)),
    {
        self.add_fragment(String::from_str(text), LogColor::Red)
    }

    pub fn orange(self, text: &str) -> (logger: Logger)
        ensures
            logger.line() == self.line().push((LogColor::Orange, text@)),
    {
        self.add_fragment(String::from_str(text), LogColor::Orange)
    }

    pub fn green(self, text: &str) -> (logger: Logger)
        ensures
            logger.line() == self.line().push((LogColor::Green, text@)),
    {
        self.add_fragment(String::from_str(text), LogColor::Green)
    }

    pub fn white(self, text: &str) -> (logger: Logger)
        ensures
            logger.line() == self.line().push((LogColor::White, text@)),
    {
        self.add_fragment(String::from_str(text), LogColor::White)
    }

    pub fn magenta(self, text: &str) -> (logger: Logger)
        ensures
            logger.line() == self.line().push((LogColor::Magenta, text@)),
    {
        self.add_fragment(String::from_str(text), LogColor::Magenta)
    }

    /// Finishes the line, handing its fragments over to be appended to the
    /// game log.
    pub fn log(self) -> (line: Vec<LogFragment>)
        ensures
            fragments_view(line@) == self.line(),
    {
        self.fragments
    }
}

} // verus!
