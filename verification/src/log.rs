//! Log lines: what the console and the log file show for a message, and
//! when. The console line carries a clock, the message, and the level's tag
//! at the right edge of the terminal, in colour when standard output is a
//! terminal. The file line carries the tag, a time stamp and the message;
//! until the file sink is initialized its lines are kept, and written when
//! it is.

use vstd::prelude::*;
use std::time::Duration;
use crate::colour::{color_level, color_time, coloured, level_colour, BOLD, DIM, GREEN, RESET};
use crate::process::{parent_dir, parent_of};
use crate::status::LogLevel;
use crate::text::{append_chars, chars_of, opt_text, string_of, strings};
use crate::time::{clock_of, format_duration};

verus! {

/// The pattern of an ANSI colour code: escape, `[`, digits and semicolons,
/// `m`.
pub const ANSI_PATTERN: &'static str = "\\x1b\\[[0-9;]*m";

/// The form of the time stamp of a file line: day, month, year, then hour,
/// minute and second. The caller reads the clock and writes the stamp in
/// this form.
pub const TIMESTAMP_FORMAT: &'static str = "[%d-%m-%Y %H:%M:%S]";

/// The line that separates the sessions in a log file.
pub const SESSION_HEADER: &'static str = "\n────────── NEW SESSION ──────────";

/// The width that a console line is laid out for when the terminal's width
/// is not known.
pub const DEFAULT_WIDTH: u16 = 80;

/// What the regex crate makes of `text` when every match of `pattern` is
/// replaced by `rep`; `None` when it does not accept `pattern`.
pub uninterp spec fn regex_replaced(pattern: Seq<char>, text: Seq<char>, rep: Seq<char>) -> Option<
    Seq<char>,
>;

/// Compiles `pattern` with `regex::Regex::new` and replaces every match in
/// `text` with `Regex::replace_all`. The three texts alone decide the
/// result; a pattern that the crate refuses gives `None`.
#[verifier::external_body]
fn regex_replace_all(pattern: &str, text: &str, rep: &str) -> (r: Option<String>)
    ensures
        opt_text(r) == regex_replaced(pattern@, text@, rep@),
{
    match regex::Regex::new(pattern) {
        Ok(re) => Some(re.replace_all(text, rep).into_owned()),
        Err(_) => None,
    }
}

/// The number of columns of standard output, as
/// `terminal_size::terminal_size_of` finds it; `None` when standard output
/// is no terminal. Nothing is known of the number: it depends on the
/// terminal.
#[verifier::external_body]
fn stdout_columns() -> (r: Option<u16>) {
    terminal_size::terminal_size_of(std::io::stdout()).map(|size| size.0.0)
}

/// `s` without its ANSI colour codes.
pub open spec fn ansi_stripped(s: Seq<char>) -> Seq<char> {
    match regex_replaced(ANSI_PATTERN@, s, Seq::empty()) {
        Some(t) => t,
        None => s,
    }
}

/// What is left of a replacement: the text that came back, or the text as
/// it was when the pattern was refused.
pub fn stripped_or(s: &str, replaced: Option<String>) -> (r: String)
    ensures
        r@ == match replaced {
            Some(t) => t@,
            None => s@,
        },
{
    match replaced {
        Some(t) => t,
        None => s.to_owned(),
    }
}

/// `s` without its ANSI colour codes.
pub fn strip_ansi_codes(s: &str) -> (r: String)
    ensures
        r@ == ansi_stripped(s@),
{
    let empty = String::new();
    stripped_or(s, regex_replace_all(ANSI_PATTERN, s, empty.as_str()))
}

/// `n` spaces.
pub open spec fn spaces(n: nat) -> Seq<char> {
    Seq::new(n, |i: int| ' ')
}

/// `s` in the middle of `width` columns; of an odd number of spaces the
/// greater half stands after `s`.
pub open spec fn centred(s: Seq<char>, width: nat) -> Seq<char> {
    if s.len() >= width {
        s
    } else {
        let pad = (width - s.len()) as nat;
        spaces(pad / 2) + s + spaces((pad - pad / 2) as nat)
    }
}

/// The tag of a level as a line shows it: in brackets, centred in four
/// columns.
pub open spec fn padded_tag(level: LogLevel) -> Seq<char> {
    "[ "@ + centred(level.tag(), 4) + " ]"@
}

/// Appends `n` spaces.
fn push_spaces(v: &mut Vec<char>, n: usize)
    ensures
        final(v)@ == old(v)@ + spaces(n as nat),
{
    let mut i: usize = 0;
    proof {
        assert(v@ =~= old(v)@ + spaces(0));
    }
    while i < n
        invariant
            i <= n,
            v@ == old(v)@ + spaces(i as nat),
        decreases n - i,
    {
        v.push(' ');
        proof {
            assert(v@ =~= old(v)@ + spaces((i + 1) as nat));
        }
        i += 1;
    }
}

/// The tag of a level as a line shows it.
pub fn padded_level(level: LogLevel) -> (r: String)
    ensures
        r@ == padded_tag(level),
{
    let tag = chars_of(level.as_str());
    let mut v = chars_of("[ ");
    if tag.len() >= 4 {
        append_chars(&mut v, &tag);
    } else {
        let pad = 4 - tag.len();
        push_spaces(&mut v, pad / 2);
        append_chars(&mut v, &tag);
        push_spaces(&mut v, pad - pad / 2);
    }
    append_chars(&mut v, &chars_of(" ]"));
    proof {
        assert(v@ =~= padded_tag(level));
    }
    string_of(&v)
}

/// The space between the message and the tag of a console line of `width`
/// columns, where `base` and `tag` columns are taken: what is left of the
/// width, or one column when nothing is left.
pub open spec fn padding(width: nat, base: nat, tag: nat) -> nat {
    if width > base + tag {
        (width - base - tag) as nat
    } else {
        1
    }
}

/// How console lines are laid out: for how many columns, and whether in
/// colour.
#[derive(Debug, Clone, Copy, PartialEq, Eq, Structural)]
pub struct Layout {
    pub width: u16,
    pub colour: bool,
}

/// The layout for a standard output of `columns` columns: in colour and for
/// that width when standard output is a terminal, without colour and for 80
/// columns when it is none.
pub open spec fn layout_for(columns: Option<u16>) -> Layout {
    match columns {
        Some(w) => Layout { width: w, colour: true },
        None => Layout { width: DEFAULT_WIDTH, colour: false },
    }
}

/// The layout for a standard output of `columns` columns.
pub fn console_layout(columns: Option<u16>) -> (r: Layout)
    ensures
        r == layout_for(columns),
{
    match columns {
        Some(w) => Layout { width: w, colour: true },
        None => Layout { width: DEFAULT_WIDTH, colour: false },
    }
}

/// `text` in the colour `code` where there is colour, and as it stands
/// where there is none.
pub open spec fn tinted(colour: bool, code: Seq<char>, text: Seq<char>) -> Seq<char> {
    if colour {
        coloured(code, text)
    } else {
        text
    }
}

/// The console line for a message: the clock, dimmed; the message; and the
/// tag in the colour of its level, with as many spaces between message and
/// tag as bring the tag to the right edge of `width` columns. Colour codes
/// take no column, and there are none where there is no colour.
pub open spec fn console_line(
    level: LogLevel,
    message: Seq<char>,
    clock: Seq<char>,
    width: nat,
    colour: bool,
) -> Seq<char> {
    let base = tinted(colour, DIM@, clock) + " "@ + message;
    let tag = tinted(colour, level_colour(level), padded_tag(level));
    base + spaces(padding(width, ansi_stripped(base).len(), ansi_stripped(tag).len())) + tag
}

/// The console line for a message in the layout `layout`.
pub open spec fn laid_out(level: LogLevel, message: Seq<char>, clock: Seq<char>, layout: Layout) -> Seq<
    char,
> {
    console_line(level, message, clock, layout.width as nat, layout.colour)
}

/// The console line for a message, for `width` columns.
pub fn format_console_line(
    level: LogLevel,
    message: &str,
    clock: &str,
    width: usize,
    colour: bool,
) -> (r: String)
    ensures
        r@ == console_line(level, message@, clock@, width as nat, colour),
{
    let level_raw = padded_level(level);
    let time_str = if colour {
        color_time(clock)
    } else {
        clock.to_owned()
    };
    let level_str = if colour {
        color_level(level, level_raw.as_str())
    } else {
        level_raw
    };
    let mut base = chars_of(time_str.as_str());
    append_chars(&mut base, &chars_of(" "));
    append_chars(&mut base, &chars_of(message));
    let base_text = string_of(&base);
    let base_len = chars_of(strip_ansi_codes(base_text.as_str()).as_str()).len();
    let level_len = chars_of(strip_ansi_codes(level_str.as_str()).as_str()).len();
    let pad = if width > base_len && width - base_len > level_len {
        width - base_len - level_len
    } else {
        1
    };
    let mut line = base;
    push_spaces(&mut line, pad);
    append_chars(&mut line, &chars_of(level_str.as_str()));
    string_of(&line)
}

/// The banner: the message, in bold green where there is colour, and an
/// empty line after it.
pub open spec fn banner_line(message: Seq<char>, colour: bool) -> Seq<char> {
    if colour {
        BOLD@ + GREEN@ + message + RESET@ + "\n"@
    } else {
        message + "\n"@
    }
}

/// The banner for a message.
pub fn banner_text(message: &str, colour: bool) -> (r: String)
    ensures
        r@ == banner_line(message@, colour),
{
    let mut v: Vec<char> = Vec::new();
    if colour {
        append_chars(&mut v, &chars_of(BOLD));
        append_chars(&mut v, &chars_of(GREEN));
        append_chars(&mut v, &chars_of(message));
        append_chars(&mut v, &chars_of(RESET));
    } else {
        append_chars(&mut v, &chars_of(message));
    }
    append_chars(&mut v, &chars_of("\n"));
    proof {
        assert(v@ =~= banner_line(message@, colour));
    }
    string_of(&v)
}

/// A sink for messages with an optional duration.
pub trait Logger {
    fn log(&mut self, level: LogLevel, message: &str, duration: Option<Duration>);
}

/// A sink that shows messages on the console.
pub trait ConsoleLogger {
    fn message(&mut self, level: LogLevel, message: &str, duration: Duration);

    fn banner(&mut self, message: &str);
}

/// The console sink.
pub struct ConsoleLoggerImpl {
    pub min_level: LogLevel,
    pub start_time: std::time::Instant,
}

impl ConsoleLoggerImpl {
    /// A console sink that shows the messages of at least `min_level`.
    pub fn new(min_level: LogLevel) -> (r: ConsoleLoggerImpl)
        ensures
            r.min_level == min_level,
    {
        ConsoleLoggerImpl { min_level, start_time: std::time::Instant::now() }
    }

    /// The console line for a message, laid out for standard output as it
    /// is now: in colour and for its width when it is a terminal, without
    /// colour and for 80 columns when it is none.
    pub fn format_console(&self, level: LogLevel, message: &str, duration: Duration) -> (r:
        String)
        ensures
            exists|columns: Option<u16>|
                r@ == laid_out(level, message@, clock_of(duration), #[trigger] layout_for(columns)),
    {
        let clock = format_duration(duration);
        let columns = stdout_columns();
        let layout = console_layout(columns);
        let r = format_console_line(
            level,
            message,
            clock.as_str(),
            layout.width as usize,
            layout.colour,
        );
        proof {
            assert(r@ == laid_out(level, message@, clock@, layout_for(columns)));
        }
        r
    }

    /// The banner for a message, in colour when standard output is a
    /// terminal.
    pub fn banner(&self, message: &str) -> (r: String)
        ensures
            exists|columns: Option<u16>|
                r@ == banner_line(message@, (#[trigger] layout_for(columns)).colour),
    {
        let columns = stdout_columns();
        let r = banner_text(message, console_layout(columns).colour);
        proof {
            assert(r@ == banner_line(message@, layout_for(columns).colour));
        }
        r
    }

    /// The line to print for a message: none for a message below the sink's
    /// minimum level.
    pub fn render(&self, level: LogLevel, message: &str, duration: Duration) -> (r: Option<
        String,
    >)
        ensures
            r is Some <==> level.rank() >= self.min_level.rank(),
            r matches Some(line) ==> exists|columns: Option<u16>|
                line@ == laid_out(
                    level,
                    message@,
                    clock_of(duration),
                    #[trigger] layout_for(columns),
                ),
    {
        if level.at_least(self.min_level) {
            Some(self.format_console(level, message, duration))
        } else {
            None
        }
    }
}

/// The file line for a message: tag, time stamp, message.
pub open spec fn file_line(level: LogLevel, message: Seq<char>, stamp: Seq<char>) -> Seq<char> {
    padded_tag(level) + " "@ + stamp + " "@ + message
}

/// The file line for a message with the time stamp `stamp`.
pub fn format_file_line(level: LogLevel, message: &str, stamp: &str) -> (r: String)
    ensures
        r@ == file_line(level, message@, stamp@),
{
    let tag = padded_level(level);
    let mut v = chars_of(tag.as_str());
    append_chars(&mut v, &chars_of(" "));
    append_chars(&mut v, &chars_of(stamp));
    append_chars(&mut v, &chars_of(" "));
    append_chars(&mut v, &chars_of(message));
    string_of(&v)
}

/// What is to be done with the line of a message.
#[derive(Debug, Clone)]
pub enum LogWrite {
    /// Nothing: the message is below the sink's minimum level.
    Dropped,
    /// Nothing yet: the line is kept until the sink is initialized.
    Buffered,
    /// Append the line to the log file and flush it.
    Append(String),
}

/// What initializing the file sink asks for.
#[derive(Debug, Clone)]
pub struct InitPlan {
    /// The directory to create, with those above it, if it does not exist.
    pub parent: Option<String>,
    /// Whether to write the session header: the file holds earlier lines.
    pub session_header: bool,
    /// The lines kept so far, to append in this order.
    pub lines: Vec<String>,
}

/// The file sink.
pub struct FileLoggerImpl {
    pub min_level: LogLevel,
    pub file_path: String,
    pub has_initialized: bool,
    pub buffer: Vec<String>,
}

/// The mathematical content of a [`FileLoggerImpl`].
pub struct FileLog {
    pub min_level: LogLevel,
    pub file_path: Seq<char>,
    pub has_initialized: bool,
    pub buffer: Seq<Seq<char>>,
}

impl View for FileLoggerImpl {
    type V = FileLog;

    open spec fn view(&self) -> FileLog {
        FileLog {
            min_level: self.min_level,
            file_path: self.file_path@,
            has_initialized: self.has_initialized,
            buffer: strings(self.buffer@),
        }
    }
}

/// The sink after a message: a line that is shown but cannot be written
/// yet is kept; nothing else changes the sink.
pub open spec fn recorded(log: FileLog, level: LogLevel, message: Seq<char>, stamp: Seq<char>) -> FileLog {
    if level.rank() >= log.min_level.rank() && !log.has_initialized {
        FileLog { buffer: log.buffer.push(file_line(level, message, stamp)), ..log }
    } else {
        log
    }
}

/// What a message asks for, given the sink before it.
pub open spec fn write_of(
    log: FileLog,
    level: LogLevel,
    message: Seq<char>,
    stamp: Seq<char>,
    w: LogWrite,
) -> bool {
    if level.rank() < log.min_level.rank() {
        w is Dropped
    } else if !log.has_initialized {
        w is Buffered
    } else {
        w matches LogWrite::Append(line) && line@ == file_line(level, message, stamp)
    }
}

/// A file sink takes the messages that it shows to be handed to the file.
/// The caller stamps each message with the local time, in the form
/// `TIMESTAMP_FORMAT`.
pub trait FileLogger {
    fn log(&mut self, level: LogLevel, message: &str, stamp: &str) -> LogWrite;

    fn initialize(&mut self, file_has_content: bool) -> Option<InitPlan>;
}

impl FileLoggerImpl {
    /// A file sink for the file at `file_path` that shows the messages of at
    /// least `min_level`. It is not initialized and keeps no line.
    pub fn new(min_level: LogLevel, file_path: String) -> (r: FileLoggerImpl)
        ensures
            r@ == (FileLog {
                min_level,
                file_path: file_path@,
                has_initialized: false,
                buffer: Seq::empty(),
            }),
    {
        let r = FileLoggerImpl { min_level, file_path, has_initialized: false, buffer: Vec::new() };
        proof {
            assert(strings(r.buffer@) =~= Seq::<Seq<char>>::empty());
        }
        r
    }

    /// Takes a message with its time stamp.
    pub fn record(&mut self, level: LogLevel, message: &str, stamp: &str) -> (w: LogWrite)
        ensures
            final(self)@ == recorded(old(self)@, level, message@, stamp@),
            write_of(old(self)@, level, message@, stamp@, w),
    {
        if !level.at_least(self.min_level) {
            return LogWrite::Dropped;
        }
        let line = format_file_line(level, message, stamp);
        if self.has_initialized {
            LogWrite::Append(line)
        } else {
            let ghost before = strings(self.buffer@);
            self.buffer.push(line);
            proof {
                assert(strings(self.buffer@) =~= before.push(line@));
            }
            LogWrite::Buffered
        }
    }

    /// Initializes the sink. `file_has_content` says whether the log file
    /// exists and is not empty. The first call hands out what is to be
    /// written: the session header if the file has content, then the lines
    /// kept so far. Every later call asks for nothing.
    pub fn start(&mut self, file_has_content: bool) -> (r: Option<InitPlan>)
        ensures
            old(self)@.has_initialized <==> r is None,
            old(self)@.has_initialized ==> final(self)@ == old(self)@,
            r matches Some(plan) ==> {
                &&& opt_text(plan.parent) == parent_dir(old(self)@.file_path)
                &&& plan.session_header == file_has_content
                &&& strings(plan.lines@) == old(self)@.buffer
                &&& final(self)@ == (FileLog {
                    has_initialized: true,
                    buffer: Seq::empty(),
                    ..old(self)@
                })
            },
    {
        if self.has_initialized {
            return None;
        }
        let mut lines: Vec<String> = Vec::new();
        core::mem::swap(&mut self.buffer, &mut lines);
        self.has_initialized = true;
        proof {
            assert(strings(self.buffer@) =~= Seq::<Seq<char>>::empty());
        }
        Some(
            InitPlan {
                parent: parent_of(self.file_path.as_str()),
                session_header: file_has_content,
                lines,
            },
        )
    }
}

impl FileLogger for FileLoggerImpl {
    /// Takes a message with its time stamp: see [`FileLoggerImpl::record`].
    fn log(&mut self, level: LogLevel, message: &str, stamp: &str) -> (w: LogWrite)
        ensures
            final(self)@ == recorded(old(self)@, level, message@, stamp@),
            write_of(old(self)@, level, message@, stamp@, w),
    {
        self.record(level, message, stamp)
    }

    /// Initializes the sink: see [`FileLoggerImpl::start`].
    fn initialize(&mut self, file_has_content: bool) -> (r: Option<InitPlan>)
        ensures
            old(self)@.has_initialized <==> r is None,
            old(self)@.has_initialized ==> final(self)@ == old(self)@,
            r matches Some(plan) ==> {
                &&& opt_text(plan.parent) == parent_dir(old(self)@.file_path)
                &&& plan.session_header == file_has_content
                &&& strings(plan.lines@) == old(self)@.buffer
                &&& final(self)@ == (FileLog {
                    has_initialized: true,
                    buffer: Seq::empty(),
                    ..old(self)@
                })
            },
    {
        self.start(file_has_content)
    }
}

} // verus!
