//! The command line: which command to run, and with what.

use vstd::prelude::*;
use crate::pairing::DEFAULT_PHONE_PORT;
use crate::text::{decimal, push_decimal};
use crate::json::string_eq;

verus! {

// ---------------------------------------------------------------------------------------
// Unsigned integers, as `str::parse` reads them.

/// Why text is not an unsigned integer (the kinds `core::num::IntErrorKind` names).
#[derive(Debug, Clone, Copy, PartialEq, Eq, Structural)]
pub enum IntError {
    Empty,
    InvalidDigit,
    PosOverflow,
}

/// The message for `e`.
pub open spec fn int_error_text(e: IntError) -> Seq<char> {
    match e {
        IntError::Empty => "cannot parse integer from empty string"@,
        IntError::InvalidDigit => "invalid digit found in string"@,
        IntError::PosOverflow => "number too large to fit in target type"@,
    }
}

impl IntError {
    /// The text `ParseIntError` displays for this kind.
    pub fn message(&self) -> (r: String)
        ensures
            r@ == int_error_text(*self),
    {
        let text = match self {
            IntError::Empty => "cannot parse integer from empty string",
            IntError::InvalidDigit => "invalid digit found in string",
            IntError::PosOverflow => "number too large to fit in target type",
        };
        text.to_owned()
    }
}

pub open spec fn is_digit(c: char) -> bool {
    '0' <= c && c <= '9'
}

pub open spec fn digit_value(c: char) -> int {
    c as int - '0' as int
}

/// Reads the digits `s` onto `acc`, left to right, failing at the first character that is
/// not a digit or the first digit that takes the value above `max`.
pub open spec fn parse_digits(s: Seq<char>, acc: int, max: int) -> Result<int, IntError>
    decreases s.len(),
{
    if s.len() == 0 {
        Ok(acc)
    } else if !is_digit(s[0]) {
        Err(IntError::InvalidDigit)
    } else if acc * 10 + digit_value(s[0]) > max {
        Err(IntError::PosOverflow)
    } else {
        parse_digits(s.skip(1), acc * 10 + digit_value(s[0]), max)
    }
}

/// An unsigned integer no larger than `max`: an optional `+`, then decimal digits.
pub open spec fn parse_unsigned(s: Seq<char>, max: int) -> Result<int, IntError> {
    if s.len() == 0 {
        Err(IntError::Empty)
    } else if s[0] == '+' {
        if s.len() == 1 {
            Err(IntError::InvalidDigit)
        } else {
            parse_digits(s.skip(1), 0, max)
        }
    } else {
        parse_digits(s, 0, max)
    }
}

fn chars_of(s: &str) -> (r: Vec<char>)
    ensures
        r@ == s@,
{
    let mut out: Vec<char> = Vec::new();
    for c in it: s.chars()
        invariant
            it.seq() == s@,
            out@ == s@.take(it.index() as int),
    {
        out.push(c);
        assert(s@.take(it.index() + 1) =~= s@.take(it.index() as int).push(c));
    }
    assert(s@.take(s@.len() as int) =~= s@);
    out
}

/// Parses an unsigned integer no larger than `max`, as `str::parse` does for an unsigned
/// type whose largest value is `max`.
pub fn parse_unsigned_max(text: &str, max: u64) -> (r: Result<u64, IntError>)
    ensures
        match parse_unsigned(text@, max as int) {
            Ok(v) => (r matches Ok(n) && n as int == v),
            Err(e) => r == Err::<u64, IntError>(e),
        },
        r matches Ok(v) ==> v <= max,
{
    let chars = chars_of(text);
    if chars.len() == 0 {
        return Err(IntError::Empty);
    }
    let mut i: usize = 0;
    if chars[0] == '+' {
        if chars.len() == 1 {
            return Err(IntError::InvalidDigit);
        }
        i = 1;
    }
    let ghost start = i as int;
    assert(chars@.skip(0) =~= chars@);
    assert(parse_unsigned(text@, max as int) == parse_digits(chars@.skip(start), 0, max as int));
    let mut acc: u64 = 0;
    while i < chars.len()
        invariant
            chars@ == text@,
            parse_unsigned(text@, max as int) == parse_digits(chars@.skip(start), 0, max as int),
            start <= i <= chars@.len(),
            acc <= max,
            parse_digits(chars@.skip(start), 0, max as int) == parse_digits(chars@.skip(i as int), acc as int, max as int),
        decreases chars@.len() - i,
    {
        let c = chars[i];
        assert(chars@.skip(i as int)[0] == c);
        assert(chars@.skip(i as int).skip(1) =~= chars@.skip(i + 1));
        if !('0' <= c && c <= '9') {
            return Err(IntError::InvalidDigit);
        }
        let d = (c as u32 - '0' as u32) as u128;
        assert(d == digit_value(c));
        let next: u128 = acc as u128 * 10 + d;
        assert(next == acc * 10 + digit_value(c));
        if next > max as u128 {
            return Err(IntError::PosOverflow);
        }
        acc = next as u64;
        i = i + 1;
    }
    assert(chars@.skip(i as int) =~= Seq::<char>::empty());
    Ok(acc)
}

// ---------------------------------------------------------------------------------------
// The daemon's command line.

pub const DEFAULT_TIMEOUT_SECS: u64 = 45;

/// What to run. A device directory left unset is the user's default, which the program
/// finds in its environment.
pub enum Command {
    Serve { devices: Option<String>, socket: String, port: u16, timeout_secs: u64 },
    Import { devices: Option<String>, pubkey: String, name: String, model: String },
    Probe { socket: String, action: String, detail: String },
    SelfTest,
    Uhid,
}

/// Why the command line was refused.
pub enum ArgsError {
    NeedsValue,
    PortNotNumber(IntError),
    TimeoutNotSeconds(IntError),
    UnknownArgument(String),
    ImportNeedsPubkey,
    /// No command, or one this program does not know: the usage text is the answer.
    Usage,
}

/// The default PAM socket.
pub open spec fn default_socket() -> Seq<char> {
    "/run/kpasskey/pam.sock"@
}

/// The usage text.
pub open spec fn usage_text() -> Seq<char> {
    "usage:\n  kpk-spike serve [--devices <dir>] [--socket <path>] [--port <n>] [--timeout <s>]\n  kpk-spike probe [--socket <path>] [--action <a>] [--detail <d>]\n  kpk-spike self-test\n  kpk-spike uhid            (needs root: /dev/uhid)\n  kpk-spike import --pubkey <pem> --action <name> --detail <model>\n\ndefaults: --socket "@
        + default_socket() + " --port "@ + decimal(DEFAULT_PHONE_PORT as nat)
}

/// The usage text.
pub fn usage() -> (r: String)
    ensures
        r@ == usage_text(),
{
    let mut text = "usage:\n  kpk-spike serve [--devices <dir>] [--socket <path>] [--port <n>] [--timeout <s>]\n  kpk-spike probe [--socket <path>] [--action <a>] [--detail <d>]\n  kpk-spike self-test\n  kpk-spike uhid            (needs root: /dev/uhid)\n  kpk-spike import --pubkey <pem> --action <name> --detail <model>\n\ndefaults: --socket ".to_owned();
    text.append("/run/kpasskey/pam.sock");
    text.append(" --port ");
    push_decimal(&mut text, DEFAULT_PHONE_PORT as u64);
    text
}

/// The message for `e`.
pub open spec fn args_error_text(e: ArgsError) -> Seq<char> {
    match e {
        ArgsError::NeedsValue => "flag needs a value"@,
        ArgsError::PortNotNumber(cause) => "--port must be a number: "@ + int_error_text(cause),
        ArgsError::TimeoutNotSeconds(cause) => "--timeout must be seconds: "@ + int_error_text(cause),
        ArgsError::UnknownArgument(other) => "unknown argument "@ + other@ + "\n\n"@ + usage_text(),
        ArgsError::ImportNeedsPubkey => "import needs --pubkey"@,
        ArgsError::Usage => usage_text(),
    }
}

impl ArgsError {
    /// The message the program reports.
    pub fn message(&self) -> (r: String)
        ensures
            r@ == args_error_text(*self),
    {
        match self {
            ArgsError::NeedsValue => "flag needs a value".to_owned(),
            ArgsError::PortNotNumber(e) => {
                let mut text = "--port must be a number: ".to_owned();
                let cause = e.message();
                text.append(cause.as_str());
                text
            },
            ArgsError::TimeoutNotSeconds(e) => {
                let mut text = "--timeout must be seconds: ".to_owned();
                let cause = e.message();
                text.append(cause.as_str());
                text
            },
            ArgsError::UnknownArgument(other) => {
                let mut text = "unknown argument ".to_owned();
                text.append(other.as_str());
                text.append("\n\n");
                let usage = usage();
                text.append(usage.as_str());
                text
            },
            ArgsError::ImportNeedsPubkey => "import needs --pubkey".to_owned(),
            ArgsError::Usage => usage(),
        }
    }
}

/// The settings the flags have given so far.
pub struct Flags {
    pub pubkey: Option<Seq<char>>,
    pub socket: Seq<char>,
    pub port: u16,
    pub timeout_secs: u64,
    pub action: Seq<char>,
    pub detail: Seq<char>,
    pub devices: Option<Seq<char>>,
}

/// The settings before any flag.
pub open spec fn default_flags() -> Flags {
    Flags {
        pubkey: None,
        socket: default_socket(),
        port: DEFAULT_PHONE_PORT,
        timeout_secs: DEFAULT_TIMEOUT_SECS,
        action: "polkit"@,
        detail: "manual probe"@,
        devices: None,
    }
}

/// Why flags were refused, with texts as sequences.
pub enum FlagError {
    NeedsValue,
    PortNotNumber(IntError),
    TimeoutNotSeconds(IntError),
    UnknownArgument(Seq<char>),
}

/// Reads the flags `rest` in order onto `flags`. Each flag but an unknown one takes the next
/// argument as its value; a later flag overrides an earlier one.
pub open spec fn read_flags(rest: Seq<Seq<char>>, flags: Flags) -> Result<Flags, FlagError>
    decreases rest.len(),
{
    if rest.len() == 0 {
        Ok(flags)
    } else {
        let flag = rest[0];
        if flag != "--pubkey"@ && flag != "--socket"@ && flag != "--port"@ && flag != "--timeout"@ && flag
            != "--action"@ && flag != "--detail"@ && flag != "--devices"@ {
            Err(FlagError::UnknownArgument(flag))
        } else if rest.len() < 2 {
            Err(FlagError::NeedsValue)
        } else {
            let value = rest[1];
            let next = if flag == "--pubkey"@ {
                Ok(Flags { pubkey: Some(value), ..flags })
            } else if flag == "--socket"@ {
                Ok(Flags { socket: value, ..flags })
            } else if flag == "--port"@ {
                match parse_unsigned(value, u16::MAX as int) {
                    Ok(port) => Ok(Flags { port: port as u16, ..flags }),
                    Err(e) => Err(FlagError::PortNotNumber(e)),
                }
            } else if flag == "--timeout"@ {
                match parse_unsigned(value, u64::MAX as int) {
                    Ok(secs) => Ok(Flags { timeout_secs: secs as u64, ..flags }),
                    Err(e) => Err(FlagError::TimeoutNotSeconds(e)),
                }
            } else if flag == "--action"@ {
                Ok(Flags { action: value, ..flags })
            } else if flag == "--detail"@ {
                Ok(Flags { detail: value, ..flags })
            } else {
                Ok(Flags { devices: Some(value), ..flags })
            };
            match next {
                Ok(f) => read_flags(rest.skip(2), f),
                Err(e) => Err(e),
            }
        }
    }
}

/// Reading flags onto `flags` sets the socket to the value after the last `--socket` among
/// the flag positions (the even ones), and leaves it as it was when there is none.
proof fn lemma_read_flags_socket(rest: Seq<Seq<char>>, flags: Flags, i: int)
    requires
        read_flags(rest, flags) is Ok,
    ensures
        (forall|j: int| 0 <= j < rest.len() && j % 2 == 0 ==> #[trigger] rest[j] != "--socket"@)
            ==> read_flags(rest, flags)->Ok_0.socket == flags.socket,
        0 <= i && i + 1 < rest.len() && i % 2 == 0 && rest[i] == "--socket"@ && (forall|j: int|
            i < j < rest.len() && j % 2 == 0 ==> #[trigger] rest[j] != "--socket"@) ==> read_flags(rest, flags)->Ok_0.socket
            == rest[i + 1],
    decreases rest.len(),
{
    if rest.len() > 0 && rest.len() >= 2 {
        reveal_strlit("--pubkey");
        reveal_strlit("--socket");
        assert("--pubkey"@ != "--socket"@) by {
            assert("--pubkey"@[2] != "--socket"@[2]);
        }
        let flag = rest[0];
        let value = rest[1];
        let next = if flag == "--socket"@ { Flags { socket: value, ..flags } } else { flags };
        let tail = rest.skip(2);
        assert forall|j: int| 0 <= j < tail.len() implies #[trigger] tail[j] == rest[j + 2] by {}
        let step = if flag == "--pubkey"@ {
            Ok::<Flags, FlagError>(Flags { pubkey: Some(value), ..flags })
        } else if flag == "--socket"@ {
            Ok(Flags { socket: value, ..flags })
        } else if flag == "--port"@ {
            match parse_unsigned(value, u16::MAX as int) {
                Ok(port) => Ok(Flags { port: port as u16, ..flags }),
                Err(e) => Err(FlagError::PortNotNumber(e)),
            }
        } else if flag == "--timeout"@ {
            match parse_unsigned(value, u64::MAX as int) {
                Ok(secs) => Ok(Flags { timeout_secs: secs as u64, ..flags }),
                Err(e) => Err(FlagError::TimeoutNotSeconds(e)),
            }
        } else if flag == "--action"@ {
            Ok(Flags { action: value, ..flags })
        } else if flag == "--detail"@ {
            Ok(Flags { detail: value, ..flags })
        } else {
            Ok(Flags { devices: Some(value), ..flags })
        };
        if let Ok(f) = step {
            assert(f.socket == next.socket);
            lemma_read_flags_socket(tail, f, i - 2);
            if (forall|j: int| 0 <= j < rest.len() && j % 2 == 0 ==> #[trigger] rest[j] != "--socket"@) {
                assert(rest[0] != "--socket"@);
                assert forall|j: int| 0 <= j < tail.len() && j % 2 == 0 implies #[trigger] tail[j] != "--socket"@ by {
                    assert(rest[j + 2] != "--socket"@);
                }
            }
            if 0 <= i && i + 1 < rest.len() && i % 2 == 0 && rest[i] == "--socket"@ && (forall|j: int|
                i < j < rest.len() && j % 2 == 0 ==> #[trigger] rest[j] != "--socket"@) {
                if i == 0 {
                    assert forall|j: int| 0 <= j < tail.len() && j % 2 == 0 implies #[trigger] tail[j] != "--socket"@ by {
                        assert(rest[j + 2] != "--socket"@);
                    }
                } else {
                    assert(tail[i - 2] == rest[i]);
                    assert forall|j: int| i - 2 < j < tail.len() && j % 2 == 0 implies #[trigger] tail[j] != "--socket"@ by {
                        assert(rest[j + 2] != "--socket"@);
                    }
                }
            }
        }
    }
}

/// `--socket v` sets the socket of `serve` and `probe`: when the arguments after the
/// command hold `--socket` at a flag position with no later `--socket`, the command's
/// socket is the value that follows it; with no `--socket` at all it is the default.
pub proof fn lemma_socket_flag_sets_the_socket(args: Seq<Seq<char>>, i: int)
    requires
        args.len() >= 1,
    ensures
        1 <= i && i + 1 < args.len() && (i - 1) % 2 == 0 && args[i] == "--socket"@ && (forall|j: int|
            i < j < args.len() && (j - 1) % 2 == 0 ==> #[trigger] args[j] != "--socket"@) ==> {
            &&& (parse_args_spec(args) matches ParsedView::Run(CommandView::Serve { socket, .. }) ==> socket == args[i + 1])
            &&& (parse_args_spec(args) matches ParsedView::Run(CommandView::Probe { socket, .. }) ==> socket == args[i + 1])
        },
        (forall|j: int| 1 <= j < args.len() && (j - 1) % 2 == 0 ==> #[trigger] args[j] != "--socket"@) ==> {
            &&& (parse_args_spec(args) matches ParsedView::Run(CommandView::Serve { socket, .. }) ==> socket == default_socket())
            &&& (parse_args_spec(args) matches ParsedView::Run(CommandView::Probe { socket, .. }) ==> socket == default_socket())
        },
{
    let rest = args.skip(1);
    assert forall|j: int| 0 <= j < rest.len() implies #[trigger] rest[j] == args[j + 1] by {}
    if read_flags(rest, default_flags()) is Ok {
        lemma_read_flags_socket(rest, default_flags(), i - 1);
        if (forall|j: int| 1 <= j < args.len() && (j - 1) % 2 == 0 ==> #[trigger] args[j] != "--socket"@) {
            assert forall|j: int| 0 <= j < rest.len() && j % 2 == 0 implies #[trigger] rest[j] != "--socket"@ by {
                assert(args[j + 1] != "--socket"@);
            }
        }
        if 1 <= i && i + 1 < args.len() && (i - 1) % 2 == 0 && args[i] == "--socket"@ && (forall|j: int|
            i < j < args.len() && (j - 1) % 2 == 0 ==> #[trigger] args[j] != "--socket"@) {
            assert(rest[i - 1] == args[i]);
            assert forall|j: int| i - 1 < j < rest.len() && j % 2 == 0 implies #[trigger] rest[j] != "--socket"@ by {
                assert(args[j + 1] != "--socket"@);
            }
        }
    }
}

/// A command, with texts as sequences.
pub enum CommandView {
    Serve { devices: Option<Seq<char>>, socket: Seq<char>, port: u16, timeout_secs: u64 },
    Import { devices: Option<Seq<char>>, pubkey: Seq<char>, name: Seq<char>, model: Seq<char> },
    Probe { socket: Seq<char>, action: Seq<char>, detail: Seq<char> },
    SelfTest,
    Uhid,
}

/// The outcome of a command line, with texts as sequences.
pub enum ParsedView {
    Run(CommandView),
    Refused(FlagError),
    ImportNeedsPubkey,
    Usage,
}

/// What the arguments (after the program's name) ask for: the first names the command,
/// the rest are flags. `import` takes its name from `--action` and its model from
/// `--detail`.
pub open spec fn parse_args_spec(args: Seq<Seq<char>>) -> ParsedView {
    let verb = if args.len() == 0 { Seq::<char>::empty() } else { args[0] };
    let rest = if args.len() == 0 { Seq::<Seq<char>>::empty() } else { args.skip(1) };
    match read_flags(rest, default_flags()) {
        Err(e) => ParsedView::Refused(e),
        Ok(f) => if verb == "serve"@ {
            ParsedView::Run(
                CommandView::Serve { devices: f.devices, socket: f.socket, port: f.port, timeout_secs: f.timeout_secs },
            )
        } else if verb == "import"@ {
            match f.pubkey {
                None => ParsedView::ImportNeedsPubkey,
                Some(pubkey) => ParsedView::Run(
                    CommandView::Import { devices: f.devices, pubkey, name: f.action, model: f.detail },
                ),
            }
        } else if verb == "probe"@ {
            ParsedView::Run(CommandView::Probe { socket: f.socket, action: f.action, detail: f.detail })
        } else if verb == "self-test"@ {
            ParsedView::Run(CommandView::SelfTest)
        } else if verb == "uhid"@ {
            ParsedView::Run(CommandView::Uhid)
        } else {
            ParsedView::Usage
        },
    }
}

pub open spec fn text_view(t: Option<String>) -> Option<Seq<char>> {
    match t {
        Some(s) => Some(s@),
        None => None,
    }
}

pub open spec fn command_view(c: Command) -> CommandView {
    match c {
        Command::Serve { devices, socket, port, timeout_secs } => CommandView::Serve {
            devices: text_view(devices),
            socket: socket@,
            port,
            timeout_secs,
        },
        Command::Import { devices, pubkey, name, model } => CommandView::Import {
            devices: text_view(devices),
            pubkey: pubkey@,
            name: name@,
            model: model@,
        },
        Command::Probe { socket, action, detail } => CommandView::Probe {
            socket: socket@,
            action: action@,
            detail: detail@,
        },
        Command::SelfTest => CommandView::SelfTest,
        Command::Uhid => CommandView::Uhid,
    }
}

pub open spec fn parsed_view(r: Result<Command, ArgsError>) -> ParsedView {
    match r {
        Ok(c) => ParsedView::Run(command_view(c)),
        Err(ArgsError::NeedsValue) => ParsedView::Refused(FlagError::NeedsValue),
        Err(ArgsError::PortNotNumber(e)) => ParsedView::Refused(FlagError::PortNotNumber(e)),
        Err(ArgsError::TimeoutNotSeconds(e)) => ParsedView::Refused(FlagError::TimeoutNotSeconds(e)),
        Err(ArgsError::UnknownArgument(a)) => ParsedView::Refused(FlagError::UnknownArgument(a@)),
        Err(ArgsError::ImportNeedsPubkey) => ParsedView::ImportNeedsPubkey,
        Err(ArgsError::Usage) => ParsedView::Usage,
    }
}

pub open spec fn args_view(args: Seq<String>) -> Seq<Seq<char>> {
    args.map_values(|a: String| a@)
}

/// The settings as the program holds them.
struct Settings {
    pubkey: Option<String>,
    socket: String,
    port: u16,
    timeout_secs: u64,
    action: String,
    detail: String,
    devices: Option<String>,
}

spec fn settings_view(s: Settings) -> Flags {
    Flags {
        pubkey: text_view(s.pubkey),
        socket: s.socket@,
        port: s.port,
        timeout_secs: s.timeout_secs,
        action: s.action@,
        detail: s.detail@,
        devices: text_view(s.devices),
    }
}

/// Reads the command line (the arguments after the program's name).
pub fn parse_args(args: &Vec<String>) -> (r: Result<Command, ArgsError>)
    ensures
        parsed_view(r) == parse_args_spec(args_view(args@)),
{
    let ghost view = args_view(args@);
    if args.len() == 0 {
        proof {
            reveal_strlit("serve");
            reveal_strlit("import");
            reveal_strlit("probe");
            reveal_strlit("self-test");
            reveal_strlit("uhid");
            assert(view.len() == 0);
            assert("serve"@.len() == 5);
            assert("import"@.len() == 6);
            assert("probe"@.len() == 5);
            assert("self-test"@.len() == 9);
            assert("uhid"@.len() == 4);
        }
        return Err(ArgsError::Usage);
    }
    let verb = args[0].clone();
    assert(view[0] == verb@);
    let mut s = Settings {
        pubkey: None,
        socket: "/run/kpasskey/pam.sock".to_owned(),
        port: DEFAULT_PHONE_PORT,
        timeout_secs: DEFAULT_TIMEOUT_SECS,
        action: "polkit".to_owned(),
        detail: "manual probe".to_owned(),
        devices: None,
    };
    let ghost rest = view.skip(1);
    let mut i: usize = 1;
    assert(settings_view(s) == default_flags());
    while i < args.len()
        invariant
            1 <= i <= args@.len(),
            view == args_view(args@),
            view.len() == args@.len(),
            rest == view.skip(1),
            verb@ == view[0],
            read_flags(rest, default_flags()) == read_flags(view.skip(i as int), settings_view(s)),
        decreases args@.len() - i,
    {
        let flag = &args[i];
        let ghost here = view.skip(i as int);
        let ghost before = settings_view(s);
        assert(here[0] == flag@);
        let has_value = i + 1 < args.len();
        if !(string_eq(flag, "--pubkey") || string_eq(flag, "--socket") || string_eq(flag, "--port")
            || string_eq(flag, "--timeout") || string_eq(flag, "--action") || string_eq(flag, "--detail")
            || string_eq(flag, "--devices")) {
            return Err(ArgsError::UnknownArgument(flag.clone()));
        }
        if !has_value {
            return Err(ArgsError::NeedsValue);
        }
        let value = args[i + 1].clone();
        assert(here[1] == value@);
        assert(here.skip(2) =~= view.skip(i + 2));
        if string_eq(flag, "--pubkey") {
            s.pubkey = Some(value);
        } else if string_eq(flag, "--socket") {
            s.socket = value;
        } else if string_eq(flag, "--port") {
            match parse_unsigned_max(value.as_str(), 65535) {
                Ok(port) => {
                    s.port = port as u16;
                },
                Err(e) => return Err(ArgsError::PortNotNumber(e)),
            }
        } else if string_eq(flag, "--timeout") {
            match parse_unsigned_max(value.as_str(), u64::MAX) {
                Ok(secs) => {
                    s.timeout_secs = secs;
                },
                Err(e) => return Err(ArgsError::TimeoutNotSeconds(e)),
            }
        } else if string_eq(flag, "--action") {
            s.action = value;
        } else if string_eq(flag, "--detail") {
            s.detail = value;
        } else {
            s.devices = Some(value);
        }
        assert(read_flags(here, before) == read_flags(here.skip(2), settings_view(s)));
        i = i + 2;
    }
    assert(view.skip(i as int) =~= Seq::<Seq<char>>::empty());
    let Settings { pubkey, socket, port, timeout_secs, action, detail, devices } = s;
    if string_eq(&verb, "serve") {
        Ok(Command::Serve { devices, socket, port, timeout_secs })
    } else if string_eq(&verb, "import") {
        match pubkey {
            None => Err(ArgsError::ImportNeedsPubkey),
            Some(pubkey) => Ok(Command::Import { devices, pubkey, name: action, model: detail }),
        }
    } else if string_eq(&verb, "probe") {
        Ok(Command::Probe { socket, action, detail })
    } else if string_eq(&verb, "self-test") {
        Ok(Command::SelfTest)
    } else if string_eq(&verb, "uhid") {
        Ok(Command::Uhid)
    } else {
        Err(ArgsError::Usage)
    }
}

} // verus!
