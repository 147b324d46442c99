//! The command line.
//!
//! Options are read from left to right; one that is given twice counts as given last. An
//! option that takes a value takes the argument after it, whatever that is. A request for
//! help or for the version ends the reading at once. A pair is written as two values with a
//! comma between them, such as a window size of `800,600`. A number is written in decimal,
//! with nothing around it but an optional plus sign in front.

use vstd::prelude::*;
use vstd::string::StringExecFns;
use vstd::string::StringSliceAdditionalSpecFns;
use vstd::utf8::{encode_utf8, encode_utf8_decode_utf8};

verus! {

/// Why a string is not a number.
#[derive(Clone, Copy, Debug, PartialEq, Eq, Structural)]
pub enum IntError {
    /// There is nothing to read.
    Empty,
    /// Something other than a digit stands where a digit is needed.
    InvalidDigit,
    /// The number is larger than the largest that can be held.
    PosOverflow,
}

/// Why a string is not a pair of numbers.
#[derive(Clone, Copy, Debug, PartialEq, Eq, Structural)]
pub enum KeyValError {
    /// There is no comma.
    NoComma,
    /// What stands before the comma, or else what stands after it, is not a number.
    Int(IntError),
}

/// Whether `b` is an ASCII digit.
pub open spec fn spec_is_digit(b: u8) -> bool {
    0x30 <= b <= 0x39
}

/// The number that the digits `bytes` add to `acc`, read from the left; or the error at the
/// first byte that is no digit or takes the number over `max`.
pub open spec fn spec_parse_digits(bytes: Seq<u8>, acc: nat, max: nat) -> Result<nat, IntError>
    decreases bytes.len(),
{
    if bytes.len() == 0 {
        Ok(acc)
    } else if !spec_is_digit(bytes[0]) {
        Err(IntError::InvalidDigit)
    } else if acc * 10 + (bytes[0] - 0x30) > max {
        Err(IntError::PosOverflow)
    } else {
        spec_parse_digits(bytes.drop_first(), (acc * 10 + (bytes[0] - 0x30)) as nat, max)
    }
}

/// The number up to `max` that `bytes` spell: digits, with at most a plus sign before them.
pub open spec fn spec_parse_number(bytes: Seq<u8>, max: nat) -> Result<nat, IntError> {
    if bytes.len() == 0 {
        Err(IntError::Empty)
    } else if bytes[0] == 0x2B {
        if bytes.len() == 1 {
            Err(IntError::InvalidDigit)
        } else {
            spec_parse_digits(bytes.drop_first(), 0, max)
        }
    } else {
        spec_parse_digits(bytes, 0, max)
    }
}

/// The 32-bit number that `bytes` spell.
pub open spec fn spec_parse_u32(bytes: Seq<u8>) -> Result<u32, IntError> {
    match spec_parse_number(bytes, u32::MAX as nat) {
        Ok(n) => Ok(n as u32),
        Err(e) => Err(e),
    }
}

/// The 16-bit number that `bytes` spell.
pub open spec fn spec_parse_u16(bytes: Seq<u8>) -> Result<u16, IntError> {
    match spec_parse_number(bytes, u16::MAX as nat) {
        Ok(n) => Ok(n as u16),
        Err(e) => Err(e),
    }
}

/// Where the first comma of `bytes` stands, if there is one.
pub open spec fn spec_first_comma(bytes: Seq<u8>) -> Option<int> {
    if exists|i: int| 0 <= i < bytes.len() && bytes[i] == 0x2C {
        Some(choose|i: int| spec_is_first_comma(bytes, i))
    } else {
        None
    }
}

/// Whether a comma stands at `i` in `bytes`, and none before it.
pub open spec fn spec_is_first_comma(bytes: Seq<u8>, i: int) -> bool {
    &&& 0 <= i < bytes.len()
    &&& bytes[i] == 0x2C
    &&& forall|j: int| 0 <= j < i ==> bytes[j] != 0x2C
}

/// The pair that `bytes` spell: a number, the first comma, and a number. Where both numbers
/// are wrong, the error is that of the first.
pub open spec fn spec_parse_key_val(bytes: Seq<u8>) -> Result<(u32, u32), KeyValError> {
    match spec_first_comma(bytes) {
        None => Err(KeyValError::NoComma),
        Some(at) => match spec_parse_u32(bytes.subrange(0, at)) {
            Err(e) => Err(KeyValError::Int(e)),
            Ok(key) => match spec_parse_u32(bytes.subrange(at + 1, bytes.len() as int)) {
                Err(e) => Err(KeyValError::Int(e)),
                Ok(val) => Ok((key, val)),
            },
        },
    }
}

/// There is at most one first comma.
proof fn lemma_first_comma_unique(bytes: Seq<u8>, i: int, j: int)
    requires
        spec_is_first_comma(bytes, i),
        spec_is_first_comma(bytes, j),
    ensures
        i == j,
{
    if i < j {
        assert(bytes[i] != 0x2C);
    }
    if j < i {
        assert(bytes[j] != 0x2C);
    }
}

/// A comma that has none before it is the first comma.
proof fn lemma_first_comma_found(bytes: Seq<u8>, i: int)
    requires
        spec_is_first_comma(bytes, i),
    ensures
        spec_first_comma(bytes) == Some(i),
{
    let chosen = choose|k: int| spec_is_first_comma(bytes, k);
    lemma_first_comma_unique(bytes, i, chosen);
}

/// Reading digits from the left can go on from any point with what has been read so far.
proof fn lemma_parse_digits_step(bytes: Seq<u8>, from: int, acc: nat, max: nat)
    requires
        0 <= from < bytes.len(),
    ensures
        spec_parse_digits(bytes.subrange(from, bytes.len() as int), acc, max) == if !spec_is_digit(
            bytes[from],
        ) {
            Err(IntError::InvalidDigit)
        } else if acc * 10 + (bytes[from] - 0x30) > max {
            Err(IntError::PosOverflow)
        } else {
            spec_parse_digits(
                bytes.subrange(from + 1, bytes.len() as int),
                (acc * 10 + (bytes[from] - 0x30)) as nat,
                max,
            )
        },
{
    let rest = bytes.subrange(from, bytes.len() as int);
    assert(rest[0] == bytes[from]);
    assert(rest.drop_first() =~= bytes.subrange(from + 1, bytes.len() as int));
}

/// What a number read into 32 bits says of the number that the bytes spell.
spec fn spec_read_as(r: Result<u32, IntError>, spelled: Result<nat, IntError>) -> bool {
    match r {
        Ok(v) => spelled == Ok::<nat, IntError>(v as nat),
        Err(e) => spelled == Err::<nat, IntError>(e),
    }
}

/// Reads the digits of `bytes` from `from` on, as a number up to `max`.
fn parse_digits(bytes: &[u8], from: usize, max: u32) -> (r: Result<u32, IntError>)
    requires
        from <= bytes@.len(),
    ensures
        spec_read_as(
            r,
            spec_parse_digits(bytes@.subrange(from as int, bytes@.len() as int), 0, max as nat),
        ),
{
    let len = bytes.len();
    let mut acc: u32 = 0;
    let mut i: usize = from;
    while i < len
        invariant
            len == bytes@.len(),
            from <= i <= len,
            acc <= max,
            spec_parse_digits(bytes@.subrange(from as int, len as int), 0, max as nat)
                == spec_parse_digits(bytes@.subrange(i as int, len as int), acc as nat, max as nat),
        decreases len - i,
    {
        let b = bytes[i];
        proof {
            lemma_parse_digits_step(bytes@, i as int, acc as nat, max as nat);
        }
        if b < 0x30 || b > 0x39 {
            return Err(IntError::InvalidDigit);
        }
        let digit: u32 = (b - 0x30) as u32;
        if digit > max || acc > (max - digit) / 10 {
            return Err(IntError::PosOverflow);
        }
        acc = acc * 10 + digit;
        i += 1;
    }
    Ok(acc)
}

/// Reads the bytes of `bytes` from `from` up to `to` as a number up to `max`.
fn parse_number_between(bytes: &[u8], from: usize, to: usize, max: u32) -> (r: Result<
    u32,
    IntError,
>)
    requires
        from <= to <= bytes@.len(),
    ensures
        spec_read_as(r, spec_parse_number(bytes@.subrange(from as int, to as int), max as nat)),
{
    let part = vstd::slice::slice_subrange(bytes, from, to);
    if part.len() == 0 {
        return Err(IntError::Empty);
    }
    if part[0] == 0x2B {
        if part.len() == 1 {
            return Err(IntError::InvalidDigit);
        }
        assert(part@.drop_first() =~= part@.subrange(1, part@.len() as int));
        parse_digits(part, 1, max)
    } else {
        assert(part@ =~= part@.subrange(0, part@.len() as int));
        parse_digits(part, 0, max)
    }
}

/// The number that `s` spells, in 32 bits.
pub fn parse_u32(s: &str) -> (r: Result<u32, IntError>)
    ensures
        r == spec_parse_u32(s.spec_bytes()),
{
    let bytes = s.as_bytes();
    assert(bytes@ =~= bytes@.subrange(0, bytes@.len() as int));
    parse_number_between(bytes, 0, bytes.len(), u32::MAX)
}

/// The number that `s` spells, in 16 bits.
pub fn parse_u16(s: &str) -> (r: Result<u16, IntError>)
    ensures
        r == spec_parse_u16(s.spec_bytes()),
{
    let bytes = s.as_bytes();
    assert(bytes@ =~= bytes@.subrange(0, bytes@.len() as int));
    match parse_number_between(bytes, 0, bytes.len(), 0xFFFF) {
        Ok(v) => Ok(v as u16),
        Err(e) => Err(e),
    }
}

/// The pair of numbers that `s` spells.
pub fn parse_key_val(s: &str) -> (r: Result<(u32, u32), KeyValError>)
    ensures
        r == spec_parse_key_val(s.spec_bytes()),
{
    let bytes = s.as_bytes();
    let len = bytes.len();
    let mut at: usize = 0;
    while at < len && bytes[at] != 0x2C
        invariant
            len == bytes@.len(),
            at <= len,
            forall|j: int| 0 <= j < at ==> bytes@[j] != 0x2C,
        decreases len - at,
    {
        at += 1;
    }
    if at == len {
        return Err(KeyValError::NoComma);
    }
    proof {
        lemma_first_comma_found(bytes@, at as int);
    }
    let key = match parse_number_between(bytes, 0, at, u32::MAX) {
        Ok(key) => key,
        Err(e) => {
            return Err(KeyValError::Int(e));
        },
    };
    match parse_number_between(bytes, at + 1, len, u32::MAX) {
        Ok(val) => Ok((key, val)),
        Err(e) => Err(KeyValError::Int(e)),
    }
}

impl IntError {
    /// The words for the error.
    pub open spec fn spec_message(self) -> Seq<char> {
        match self {
            IntError::Empty => "cannot parse integer from empty string"@,
            IntError::InvalidDigit => "invalid digit found in string"@,
            IntError::PosOverflow => "number too large to fit in target type"@,
        }
    }

    /// The words for the error.
    pub fn message(&self) -> (m: String)
        ensures
            m@ == self.spec_message(),
    {
        match self {
            IntError::Empty => String::from_str("cannot parse integer from empty string"),
            IntError::InvalidDigit => String::from_str("invalid digit found in string"),
            IntError::PosOverflow => String::from_str("number too large to fit in target type"),
        }
    }
}

impl KeyValError {
    /// The words for the error, where `s` is the string that was read.
    pub open spec fn spec_message(self, s: Seq<char>) -> Seq<char> {
        match self {
            KeyValError::NoComma => "no `,` found in `"@ + s + "`"@,
            KeyValError::Int(e) => e.spec_message(),
        }
    }

    /// The words for the error, where `s` is the string that was read.
    pub fn message(&self, s: &str) -> (m: String)
        ensures
            m@ == self.spec_message(s@),
    {
        match self {
            KeyValError::NoComma => {
                let mut m = String::from_str("no `,` found in `");
                m.append(s);
                m.append("`");
                m
            },
            KeyValError::Int(e) => e.message(),
        }
    }
}

/// Whether `a` and `b` are the same text.
pub fn same_text(a: &str, b: &str) -> (r: bool)
    ensures
        r <==> a@ == b@,
{
    let x = a.as_bytes();
    let y = b.as_bytes();
    proof {
        encode_utf8_decode_utf8(a@);
        encode_utf8_decode_utf8(b@);
    }
    if x.len() != y.len() {
        return false;
    }
    let mut i: usize = 0;
    while i < x.len()
        invariant
            x@.len() == y@.len(),
            i <= x@.len(),
            x@ == encode_utf8(a@),
            y@ == encode_utf8(b@),
            forall|k: int| 0 <= k < i ==> x@[k] == y@[k],
        decreases x@.len() - i,
    {
        if x[i] != y[i] {
            return false;
        }
        i += 1;
    }
    assert(x@ =~= y@);
    true
}

/// The truth value that `s` spells, where it spells one.
pub open spec fn spec_parse_bool(s: Seq<char>) -> Option<bool> {
    if s == "true"@ {
        Some(true)
    } else if s == "false"@ {
        Some(false)
    } else {
        None
    }
}

/// The truth value that `s` spells: `true` or `false`, and nothing else.
pub fn parse_bool(s: &str) -> (r: Option<bool>)
    ensures
        r == spec_parse_bool(s@),
{
    if same_text(s, "true") {
        Some(true)
    } else if same_text(s, "false") {
        Some(false)
    } else {
        None
    }
}

/// An option that takes a value.
#[derive(Clone, Copy, Debug, PartialEq, Eq, Structural)]
pub enum Flag {
    WindowSize,
    Port,
    Vsync,
    SettingDir,
    SettingFile,
}

/// What the command line asks for, beyond what the settings file says.
#[derive(Clone, Debug, PartialEq, Eq)]
pub struct Args {
    /// The size of the window, as width and height.
    pub window_size: Option<(u32, u32)>,
    /// The port to listen on.
    pub port: Option<u16>,
    /// Whether frames wait for the display.
    pub vsync: Option<bool>,
    /// The directory of the settings file.
    pub setting_dir: Option<String>,
    /// The name of the settings file.
    pub setting_file: String,
    /// Whether to run in debug mode.
    pub debug: bool,
}

/// The arguments as plain values.
pub struct ArgsView {
    pub window_size: Option<(u32, u32)>,
    pub port: Option<u16>,
    pub vsync: Option<bool>,
    pub setting_dir: Option<Seq<char>>,
    pub setting_file: Seq<char>,
    pub debug: bool,
}

impl View for Args {
    type V = ArgsView;

    open spec fn view(&self) -> ArgsView {
        ArgsView {
            window_size: self.window_size,
            port: self.port,
            vsync: self.vsync,
            setting_dir: match self.setting_dir {
                Some(dir) => Some(dir@),
                None => None,
            },
            setting_file: self.setting_file@,
            debug: self.debug,
        }
    }
}

/// What the program is to do.
#[derive(Clone, Debug, PartialEq, Eq)]
pub enum Command {
    /// Run the simulator.
    Run(Args),
    /// Print how the program is used.
    Help,
    /// Print the version.
    Version,
}

/// A command as plain values.
pub enum CommandView {
    Run(ArgsView),
    Help,
    Version,
}

impl View for Command {
    type V = CommandView;

    open spec fn view(&self) -> CommandView {
        match self {
            Command::Run(args) => CommandView::Run(args@),
            Command::Help => CommandView::Help,
            Command::Version => CommandView::Version,
        }
    }
}

/// Why the command line cannot be read.
#[derive(Clone, Debug, PartialEq, Eq)]
pub enum ArgError {
    /// An option that takes a value is the last argument.
    MissingValue(Flag),
    /// The window size is not a pair of numbers.
    WindowSize { error: KeyValError, value: String },
    /// The port is not a number that fits a port.
    Port(IntError),
    /// The value for vsync is neither `true` nor `false`.
    Vsync,
    /// The argument is no option.
    Unknown(String),
}

/// An error as plain values.
pub enum ArgErrorView {
    MissingValue(Flag),
    WindowSize { error: KeyValError, value: Seq<char> },
    Port(IntError),
    Vsync,
    Unknown(Seq<char>),
}

impl View for ArgError {
    type V = ArgErrorView;

    open spec fn view(&self) -> ArgErrorView {
        match self {
            ArgError::MissingValue(flag) => ArgErrorView::MissingValue(*flag),
            ArgError::WindowSize { error, value } => ArgErrorView::WindowSize {
                error: *error,
                value: value@,
            },
            ArgError::Port(e) => ArgErrorView::Port(*e),
            ArgError::Vsync => ArgErrorView::Vsync,
            ArgError::Unknown(arg) => ArgErrorView::Unknown(arg@),
        }
    }
}

/// What is asked for when the command line is empty.
pub open spec fn spec_defaults() -> ArgsView {
    ArgsView {
        window_size: None,
        port: None,
        vsync: None,
        setting_dir: None,
        setting_file: "settings.json"@,
        debug: false,
    }
}

/// The option that `arg` names, where it names one that takes a value.
pub open spec fn spec_flag(arg: Seq<char>) -> Option<Flag> {
    if arg == "-w"@ || arg == "--window_size"@ {
        Some(Flag::WindowSize)
    } else if arg == "-p"@ || arg == "--port"@ {
        Some(Flag::Port)
    } else if arg == "-v"@ || arg == "--vsync"@ {
        Some(Flag::Vsync)
    } else if arg == "--setting_dir"@ {
        Some(Flag::SettingDir)
    } else if arg == "-s"@ || arg == "--setting_file"@ {
        Some(Flag::SettingFile)
    } else {
        None
    }
}

/// What is asked for once `value` has been given to the option `flag`.
pub open spec fn spec_with_value(acc: ArgsView, flag: Flag, value: Seq<char>) -> Result<
    ArgsView,
    ArgErrorView,
> {
    match flag {
        Flag::WindowSize => match spec_parse_key_val(encode_utf8(value)) {
            Ok(size) => Ok(ArgsView { window_size: Some(size), ..acc }),
            Err(error) => Err(ArgErrorView::WindowSize { error, value }),
        },
        Flag::Port => match spec_parse_u16(encode_utf8(value)) {
            Ok(port) => Ok(ArgsView { port: Some(port), ..acc }),
            Err(e) => Err(ArgErrorView::Port(e)),
        },
        Flag::Vsync => match spec_parse_bool(value) {
            Some(vsync) => Ok(ArgsView { vsync: Some(vsync), ..acc }),
            None => Err(ArgErrorView::Vsync),
        },
        Flag::SettingDir => Ok(ArgsView { setting_dir: Some(value), ..acc }),
        Flag::SettingFile => Ok(ArgsView { setting_file: value, ..acc }),
    }
}

/// What the arguments from `i` on ask for, on top of `acc`.
pub open spec fn spec_parse_from(args: Seq<Seq<char>>, i: int, acc: ArgsView) -> Result<
    CommandView,
    ArgErrorView,
>
    decreases args.len() - i,
{
    if i < 0 || i >= args.len() {
        Ok(CommandView::Run(acc))
    } else {
        match spec_flag(args[i]) {
            Some(flag) => if i + 1 >= args.len() {
                Err(ArgErrorView::MissingValue(flag))
            } else {
                match spec_with_value(acc, flag, args[i + 1]) {
                    Ok(next) => spec_parse_from(args, i + 2, next),
                    Err(e) => Err(e),
                }
            },
            None => if args[i] == "-d"@ || args[i] == "--debug"@ {
                spec_parse_from(args, i + 1, ArgsView { debug: true, ..acc })
            } else if args[i] == "-h"@ || args[i] == "--help"@ {
                Ok(CommandView::Help)
            } else if args[i] == "--version"@ {
                Ok(CommandView::Version)
            } else {
                Err(ArgErrorView::Unknown(args[i]))
            },
        }
    }
}

/// What the arguments ask for.
pub open spec fn spec_parse_args(args: Seq<Seq<char>>) -> Result<CommandView, ArgErrorView> {
    spec_parse_from(args, 0, spec_defaults())
}

/// The texts of `args`.
pub open spec fn spec_texts(args: Seq<String>) -> Seq<Seq<char>> {
    Seq::new(args.len(), |i: int| args[i]@)
}

/// What a result says in plain values.
pub open spec fn spec_outcome(r: Result<Command, ArgError>) -> Result<CommandView, ArgErrorView> {
    match r {
        Ok(command) => Ok(command@),
        Err(e) => Err(e@),
    }
}

/// The option that `arg` names, where it names one that takes a value.
fn flag_of(arg: &str) -> (r: Option<Flag>)
    ensures
        r == spec_flag(arg@),
{
    if same_text(arg, "-w") || same_text(arg, "--window_size") {
        Some(Flag::WindowSize)
    } else if same_text(arg, "-p") || same_text(arg, "--port") {
        Some(Flag::Port)
    } else if same_text(arg, "-v") || same_text(arg, "--vsync") {
        Some(Flag::Vsync)
    } else if same_text(arg, "--setting_dir") {
        Some(Flag::SettingDir)
    } else if same_text(arg, "-s") || same_text(arg, "--setting_file") {
        Some(Flag::SettingFile)
    } else {
        None
    }
}

impl Args {
    /// What is asked for when the command line is empty.
    pub fn defaults() -> (r: Args)
        ensures
            r@ == spec_defaults(),
    {
        Args {
            window_size: None,
            port: None,
            vsync: None,
            setting_dir: None,
            setting_file: String::from_str("settings.json"),
            debug: false,
        }
    }

    /// Gives `value` to the option `flag`.
    fn with_value(self, flag: Flag, value: &String) -> (r: Result<Args, ArgError>)
        ensures
            match r {
                Ok(next) => spec_with_value(self@, flag, value@) == Ok::<ArgsView, ArgErrorView>(
                    next@,
                ),
                Err(e) => spec_with_value(self@, flag, value@) == Err::<ArgsView, ArgErrorView>(
                    e@,
                ),
            },
    {
        let mut next = self;
        match flag {
            Flag::WindowSize => match parse_key_val(value.as_str()) {
                Ok(size) => {
                    next.window_size = Some(size);
                    Ok(next)
                },
                Err(error) => Err(ArgError::WindowSize { error, value: value.clone() }),
            },
            Flag::Port => match parse_u16(value.as_str()) {
                Ok(port) => {
                    next.port = Some(port);
                    Ok(next)
                },
                Err(e) => Err(ArgError::Port(e)),
            },
            Flag::Vsync => match parse_bool(value.as_str()) {
                Some(vsync) => {
                    next.vsync = Some(vsync);
                    Ok(next)
                },
                None => Err(ArgError::Vsync),
            },
            Flag::SettingDir => {
                next.setting_dir = Some(value.clone());
                Ok(next)
            },
            Flag::SettingFile => {
                next.setting_file = value.clone();
                Ok(next)
            },
        }
    }

    /// Reads the arguments that follow the name of the program.
    pub fn parse(args: &Vec<String>) -> (r: Result<Command, ArgError>)
        ensures
            spec_outcome(r) == spec_parse_args(spec_texts(args@)),
    {
        let ghost texts = spec_texts(args@);
        let mut acc = Args::defaults();
        let mut i: usize = 0;
        while i < args.len()
            invariant
                i <= args@.len(),
                texts == spec_texts(args@),
                spec_parse_args(texts) == spec_parse_from(texts, i as int, acc@),
            decreases args@.len() - i,
        {
            let arg = &args[i];
            assert(texts[i as int] == arg@);
            match flag_of(arg.as_str()) {
                Some(flag) => {
                    if i + 1 >= args.len() {
                        return Err(ArgError::MissingValue(flag));
                    }
                    let value = &args[i + 1];
                    assert(texts[i + 1] == value@);
                    match acc.with_value(flag, value) {
                        Ok(next) => {
                            acc = next;
                        },
                        Err(e) => {
                            return Err(e);
                        },
                    }
                    i += 2;
                },
                None => {
                    if same_text(arg.as_str(), "-d") || same_text(arg.as_str(), "--debug") {
                        acc.debug = true;
                        i += 1;
                    } else if same_text(arg.as_str(), "-h") || same_text(arg.as_str(), "--help") {
                        return Ok(Command::Help);
                    } else if same_text(arg.as_str(), "--version") {
                        return Ok(Command::Version);
                    } else {
                        return Err(ArgError::Unknown(arg.clone()));
                    }
                },
            }
        }
        Ok(Command::Run(acc))
    }
}

impl Flag {
    /// The words that say that the option lacks its value.
    pub open spec fn spec_message(self) -> Seq<char> {
        match self {
            Flag::WindowSize => "--window_size requires a value (Width,Height)"@,
            Flag::Port => "--port requires a value"@,
            Flag::Vsync => "--vsync requires a value"@,
            Flag::SettingDir => "--setting_dir requires a value"@,
            Flag::SettingFile => "--setting_file requires a value"@,
        }
    }

    /// The words that say that the option lacks its value.
    pub fn message(&self) -> (m: String)
        ensures
            m@ == self.spec_message(),
    {
        match self {
            Flag::WindowSize => String::from_str("--window_size requires a value (Width,Height)"),
            Flag::Port => String::from_str("--port requires a value"),
            Flag::Vsync => String::from_str("--vsync requires a value"),
            Flag::SettingDir => String::from_str("--setting_dir requires a value"),
            Flag::SettingFile => String::from_str("--setting_file requires a value"),
        }
    }
}

impl ArgErrorView {
    /// The words for the error.
    pub open spec fn spec_message(self) -> Seq<char> {
        match self {
            ArgErrorView::MissingValue(flag) => flag.spec_message(),
            ArgErrorView::WindowSize { error, value } => error.spec_message(value),
            ArgErrorView::Port(e) => e.spec_message(),
            ArgErrorView::Vsync => "provided string was not `true` or `false`"@,
            ArgErrorView::Unknown(arg) => "Unknown argument: "@ + arg,
        }
    }
}

impl ArgError {
    /// The words for the error.
    pub fn message(&self) -> (m: String)
        ensures
            m@ == self@.spec_message(),
    {
        match self {
            ArgError::MissingValue(flag) => flag.message(),
            ArgError::WindowSize { error, value } => error.message(value.as_str()),
            ArgError::Port(e) => e.message(),
            ArgError::Vsync => String::from_str("provided string was not `true` or `false`"),
            ArgError::Unknown(arg) => {
                let mut m = String::from_str("Unknown argument: ");
                m.append(arg.as_str());
                m
            },
        }
    }
}

} // verus!
