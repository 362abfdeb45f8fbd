use vstd::prelude::*;
use crate::error::Error;

verus! {

/// Severity of a log entry; `Error` and `Fatal` raise a blocking popup.
#[derive(Copy, Clone, PartialEq, Eq, Structural, Debug)]
pub enum Level {
    Trace,
    Debug,
    Info,
    Warn,
    Error,
    Fatal,
}

impl Level {
    /// The fixed upper-case label of this level.
    pub open spec fn spec_label(self) -> Seq<char> {
        match self {
            Level::Trace => "TRACE"@,
            Level::Debug => "DEBUG"@,
            Level::Info => "INFO"@,
            Level::Warn => "WARN"@,
            Level::Error => "ERROR"@,
            Level::Fatal => "FATAL"@,
        }
    }

    pub fn label(&self) -> (r: &'static str)
        ensures
            r@ == self.spec_label(),
    {
        match self {
            Level::Trace => "TRACE",
            Level::Debug => "DEBUG",
            Level::Info => "INFO",
            Level::Warn => "WARN",
            Level::Error => "ERROR",
            Level::Fatal => "FATAL",
        }
    }
}

/// One log entry: a severity and a message.
#[derive(Debug, Clone)]
pub struct Log {
    pub level: Level,
    pub message: String,
}

/// The mathematical content of a log entry.
pub ghost struct LogView {
    pub level: Level,
    pub message: Seq<char>,
}

impl View for Log {
    type V = LogView;

    open spec fn view(&self) -> LogView {
        LogView { level: self.level, message: self.message@ }
    }
}

impl Log {
    /// The rendered form of the entry: `[LEVEL] message`.
    pub open spec fn spec_line(self) -> Seq<char> {
        "["@ + self.level.spec_label() + "] "@ + self.message@
    }

    pub fn line(&self) -> (r: String)
        ensures
            r@ == self.spec_line(),
    {
        let mut s = String::from_str("[");
        s.append(self.level.label());
        s.append("] ");
        s.append(self.message.as_str());
        s
    }
}

/// How many entries the buffer retains; the oldest entry is dropped beyond this.
pub const LOG_SIZE: usize = 100;

/// A bounded log buffer: oldest entries first, capped at `LOG_SIZE`.
#[derive(Debug)]
pub struct LogBuffer(pub Vec<Log>);

impl LogBuffer {
    pub open spec fn view(&self) -> Seq<LogView> {
        self.0@.map(|i: int, l: Log| l@)
    }

    pub fn new() -> (r: LogBuffer)
        ensures
            r@ == Seq::<LogView>::empty(),
    {
        LogBuffer(Vec::new())
    }

    /// Appends an entry, dropping the oldest one when the buffer is full.
    pub fn write(&mut self, message: String, level: Level)
        ensures
            old(self)@.len() < LOG_SIZE ==> final(self)@ == old(self)@.push(
                LogView { level, message: message@ },
            ),
            old(self)@.len() >= LOG_SIZE ==> final(self)@ == old(self)@.drop_first().push(
                LogView { level, message: message@ },
            ),
    {
        if self.0.len() >= LOG_SIZE {
            self.0.remove(0);
            assert(self.0@.map(|i: int, l: Log| l@) =~= old(self)@.drop_first());
        }
        let ghost before = self@;
        self.0.push(Log { message, level });
        assert(self.0@.map(|i: int, l: Log| l@) =~= before.push(
            LogView { level, message: message@ },
        ));
    }

    /// The retained entries, oldest first.
    pub fn iter(&self) -> (r: &Vec<Log>)
        ensures
            r@.map(|i: int, l: Log| l@) == self@,
    {
        &self.0
    }

    pub fn write_trace(&mut self, message: String)
        ensures
            old(self)@.len() < LOG_SIZE ==> final(self)@ == old(self)@.push(
                LogView { level: Level::Trace, message: message@ },
            ),
            old(self)@.len() >= LOG_SIZE ==> final(self)@ == old(self)@.drop_first().push(
                LogView { level: Level::Trace, message: message@ },
            ),
    {
        self.write(message, Level::Trace);
    }

    pub fn write_debug(&mut self, message: String)
        ensures
            old(self)@.len() < LOG_SIZE ==> final(self)@ == old(self)@.push(
                LogView { level: Level::Debug, message: message@ },
            ),
            old(self)@.len() >= LOG_SIZE ==> final(self)@ == old(self)@.drop_first().push(
                LogView { level: Level::Debug, message: message@ },
            ),
    {
        self.write(message, Level::Debug);
    }

    pub fn write_info(&mut self, message: String)
        ensures
            old(self)@.len() < LOG_SIZE ==> final(self)@ == old(self)@.push(
                LogView { level: Level::Info, message: message@ },
            ),
            old(self)@.len() >= LOG_SIZE ==> final(self)@ == old(self)@.drop_first().push(
                LogView { level: Level::Info, message: message@ },
            ),
    {
        self.write(message, Level::Info);
    }

    pub fn write_warn(&mut self, message: String)
        ensures
            old(self)@.len() < LOG_SIZE ==> final(self)@ == old(self)@.push(
                LogView { level: Level::Warn, message: message@ },
            ),
            old(self)@.len() >= LOG_SIZE ==> final(self)@ == old(self)@.drop_first().push(
                LogView { level: Level::Warn, message: message@ },
            ),
    {
        self.write(message, Level::Warn);
    }

    pub fn write_error(&mut self, message: String)
        ensures
            old(self)@.len() < LOG_SIZE ==> final(self)@ == old(self)@.push(
                LogView { level: Level::Error, message: message@ },
            ),
            old(self)@.len() >= LOG_SIZE ==> final(self)@ == old(self)@.drop_first().push(
                LogView { level: Level::Error, message: message@ },
            ),
    {
        self.write(message, Level::Error);
    }

    pub fn write_fatal(&mut self, message: String)
        ensures
            old(self)@.len() < LOG_SIZE ==> final(self)@ == old(self)@.push(
                LogView { level: Level::Fatal, message: message@ },
            ),
            old(self)@.len() >= LOG_SIZE ==> final(self)@ == old(self)@.drop_first().push(
                LogView { level: Level::Fatal, message: message@ },
            ),
    {
        self.write(message, Level::Fatal);
    }
}

/// A request to append one entry to the log buffer.
pub struct PushLog(pub String, pub Level);

/// Marker for the subsystem that owns the log buffer and its panel.
pub struct LogPlugin;

/// An entry logged at `Error` or `Fatal` severity raises a blocking popup
/// carrying the message as its code; other severities raise none.
pub fn popup_for_log(message: &String, level: Level) -> (r: Option<Error>)
    ensures
        (level == Level::Error || level == Level::Fatal) <==> r is Some,
        r matches Some(e) ==> e.code@ == message@ && e.details is None,
{
    if level == Level::Error || level == Level::Fatal {
        Some(Error::new(message.as_str()))
    } else {
        None
    }
}

} // verus!
