//! The client's settings: where to connect and the secret to present.
use vstd::prelude::*;

use std::num::ParseIntError;

use crate::text::{decimal, parse_u16, parse_unsigned, push_decimal};

verus! {

/// Where the client connects, and the secret it presents.
#[derive(Debug, Clone)]
pub struct Config {
    pub host: String,
    pub port: u16,
    pub secret: String,
}

/// The host that the client connects to unless told otherwise.
pub fn default_host() -> (s: String)
    ensures
        s@ == "127.0.0.1"@,
{
    String::from_str("127.0.0.1")
}

/// The port that the client connects to unless told otherwise.
pub fn default_port() -> (p: u16)
    ensures
        p == 6000,
{
    6000
}

/// The secret, empty unless given.
pub fn default_string() -> (s: String)
    ensures
        s@ == ""@,
{
    String::from_str("")
}

impl Default for Config {
    fn default() -> (c: Self)
        ensures
            c.host@ == "127.0.0.1"@,
            c.port == 6000,
            c.secret@ == ""@,
    {
        Config { host: default_host(), port: default_port(), secret: default_string() }
    }
}

/// What the command-line options ask for: settings, with the settings file
/// to read (`./config.toml` unless another is named), or the help text.
#[derive(Debug)]
pub enum ArgsOutcome {
    Run { config: Config, config_file: Option<String> },
    Help,
}

/// Why the command-line options were refused.
#[derive(Debug)]
pub enum ArgsError {
    /// An option lacks its value; the message names the option.
    Missing(String),
    /// The port is not a number that fits in 16 bits.
    Port(ParseIntError),
}

/// The outcome of reading the options, as views.
pub enum ArgsScan {
    Done { host: Seq<char>, port: u16, secret: Seq<char>, file: Option<Seq<char>> },
    Help,
    Missing(Seq<char>),
    BadPort,
}

/// Reads the options from position `i` on, given the settings so far.
/// `-c`/`--config`, `-h`/`--host`, `-p`/`--port` and `-s`/`--secret` take the
/// next word as their value; `--help` stops the reading; any other word is
/// passed over.
pub open spec fn scan_args(
    args: Seq<String>,
    i: int,
    host: Seq<char>,
    port: u16,
    secret: Seq<char>,
    file: Option<Seq<char>>,
) -> ArgsScan
    decreases args.len() - i,
{
    if i < 0 || i >= args.len() {
        ArgsScan::Done { host, port, secret, file }
    } else {
        let a = args[i]@;
        if a == "-c"@ || a == "--config"@ {
            if i + 1 < args.len() {
                scan_args(args, i + 2, host, port, secret, Some(args[i + 1]@))
            } else {
                ArgsScan::Missing("Missing config file path after -c/--config"@)
            }
        } else if a == "-h"@ || a == "--host"@ {
            if i + 1 < args.len() {
                scan_args(args, i + 2, args[i + 1]@, port, secret, file)
            } else {
                ArgsScan::Missing("Missing host after -h/--host"@)
            }
        } else if a == "-p"@ || a == "--port"@ {
            if i + 1 < args.len() {
                match parse_unsigned(args[i + 1]@, u16::MAX as nat) {
                    Some(p) => scan_args(args, i + 2, host, p as u16, secret, file),
                    None => ArgsScan::BadPort,
                }
            } else {
                ArgsScan::Missing("Missing port after -p/--port"@)
            }
        } else if a == "-s"@ || a == "--secret"@ {
            if i + 1 < args.len() {
                scan_args(args, i + 2, host, port, args[i + 1]@, file)
            } else {
                ArgsScan::Missing("Missing secret after -s/--secret"@)
            }
        } else if a == "--help"@ {
            ArgsScan::Help
        } else {
            scan_args(args, i + 1, host, port, secret, file)
        }
    }
}

/// The long and the short spelling of the same option.
pub open spec fn same_option(long: Seq<char>, short: Seq<char>) -> bool {
    ||| long == "--config"@ && short == "-c"@
    ||| long == "--host"@ && short == "-h"@
    ||| long == "--port"@ && short == "-p"@
    ||| long == "--secret"@ && short == "-s"@
}

/// The reading from position `i` on looks at no word before `i`.
proof fn lemma_scan_from(
    a: Seq<String>,
    b: Seq<String>,
    i: int,
    host: Seq<char>,
    port: u16,
    secret: Seq<char>,
    file: Option<Seq<char>>,
)
    requires
        a.len() == b.len(),
        i >= 0,
        forall|j: int| i <= j < a.len() ==> #[trigger] a[j] == b[j],
    ensures
        scan_args(a, i, host, port, secret, file) == scan_args(b, i, host, port, secret, file),
    decreases a.len() - i,
{
    if i < a.len() {
        let w = a[i]@;
        if i + 1 < a.len() {
            assert(a[i + 1] == b[i + 1]);
            match parse_unsigned(a[i + 1]@, u16::MAX as nat) {
                Some(p) => lemma_scan_from(a, b, i + 2, host, p as u16, secret, file),
                None => {},
            }
            lemma_scan_from(a, b, i + 2, a[i + 1]@, port, secret, file);
            lemma_scan_from(a, b, i + 2, host, port, a[i + 1]@, file);
            lemma_scan_from(a, b, i + 2, host, port, secret, Some(a[i + 1]@));
        }
        lemma_scan_from(a, b, i + 1, host, port, secret, file);
    }
}

/// The option words are all different.
proof fn lemma_option_words_differ()
    ensures
        "-c"@ != "--config"@
            && "-c"@ != "-h"@
            && "-c"@ != "--host"@
            && "-c"@ != "-p"@
            && "-c"@ != "--port"@
            && "-c"@ != "-s"@
            && "-c"@ != "--secret"@
            && "-c"@ != "--help"@,
        "--config"@ != "-h"@
            && "--config"@ != "--host"@
            && "--config"@ != "-p"@
            && "--config"@ != "--port"@
            && "--config"@ != "-s"@
            && "--config"@ != "--secret"@
            && "--config"@ != "--help"@,
        "-h"@ != "--host"@
            && "-h"@ != "-p"@
            && "-h"@ != "--port"@
            && "-h"@ != "-s"@
            && "-h"@ != "--secret"@
            && "-h"@ != "--help"@,
        "--host"@ != "-p"@
            && "--host"@ != "--port"@
            && "--host"@ != "-s"@
            && "--host"@ != "--secret"@
            && "--host"@ != "--help"@,
        "-p"@ != "--port"@
            && "-p"@ != "-s"@
            && "-p"@ != "--secret"@
            && "-p"@ != "--help"@,
        "--port"@ != "-s"@
            && "--port"@ != "--secret"@
            && "--port"@ != "--help"@,
        "-s"@ != "--secret"@
            && "-s"@ != "--help"@,
        "--secret"@ != "--help"@,
{
    reveal_strlit("-c");
    reveal_strlit("--config");
    reveal_strlit("-h");
    reveal_strlit("--host");
    reveal_strlit("-p");
    reveal_strlit("--port");
    reveal_strlit("-s");
    reveal_strlit("--secret");
    reveal_strlit("--help");
    assert("-c"@[1] != "-h"@[1] && "-c"@[1] != "-p"@[1] && "-c"@[1] != "-s"@[1]);
    assert("-h"@[1] != "-p"@[1] && "-h"@[1] != "-s"@[1] && "-p"@[1] != "-s"@[1]);
    assert("--host"@[2] != "--port"@[2] && "--host"@[3] != "--help"@[3] && "--port"@[2] != "--help"@[2]);
    assert("--config"@[2] != "--secret"@[2]);
}

/// Each option may be spelt long or short: putting the short spelling in
/// place of the long one, anywhere in the options, changes nothing that is
/// read.
pub proof fn law_long_option_as_short(
    args: Seq<String>,
    i: int,
    short: String,
    host: Seq<char>,
    port: u16,
    secret: Seq<char>,
    file: Option<Seq<char>>,
)
    requires
        0 <= i < args.len(),
        same_option(args[i]@, short@),
    ensures
        scan_args(args, i, host, port, secret, file) == scan_args(
            args.update(i, short),
            i,
            host,
            port,
            secret,
            file,
        ),
{
    lemma_option_words_differ();
    let b = args.update(i, short);
    assert(b[i]@ == short@);
    if i + 1 < args.len() {
        assert(b[i + 1] == args[i + 1]);
        match parse_unsigned(args[i + 1]@, u16::MAX as nat) {
            Some(p) => lemma_scan_from(args, b, i + 2, host, p as u16, secret, file),
            None => {},
        }
        lemma_scan_from(args, b, i + 2, args[i + 1]@, port, secret, file);
        lemma_scan_from(args, b, i + 2, host, port, args[i + 1]@, file);
        lemma_scan_from(args, b, i + 2, host, port, secret, Some(args[i + 1]@));
    }
}

/// `--secret` and `-s` take the next word as the secret; the options after
/// it are read on from there.
pub proof fn law_secret_option(
    args: Seq<String>,
    i: int,
    host: Seq<char>,
    port: u16,
    secret: Seq<char>,
    file: Option<Seq<char>>,
)
    requires
        0 <= i,
        i + 1 < args.len(),
        args[i]@ == "--secret"@ || args[i]@ == "-s"@,
    ensures
        scan_args(args, i, host, port, secret, file) == scan_args(
            args,
            i + 2,
            host,
            port,
            args[i + 1]@,
            file,
        ),
{
    lemma_option_words_differ();
}

/// What `parse_args` answers, given the outcome of the reading.
pub open spec fn args_answer(scan: ArgsScan, r: Result<ArgsOutcome, ArgsError>) -> bool {
    match scan {
        ArgsScan::Done { host, port, secret, file } => match r {
            Ok(ArgsOutcome::Run { config, config_file }) => {
                &&& config.host@ == host
                &&& config.port == port
                &&& config.secret@ == secret
                &&& match config_file {
                    Some(f) => file == Some(f@),
                    None => file is None,
                }
            },
            _ => false,
        },
        ArgsScan::Help => r matches Ok(ArgsOutcome::Help),
        ArgsScan::Missing(m) => r matches Err(ArgsError::Missing(msg)) && msg@ == m,
        ArgsScan::BadPort => r matches Err(ArgsError::Port(_)),
    }
}

fn is_word(s: &String, w: &str) -> (b: bool)
    ensures
        b == (s@ == w@),
{
    *s == String::from_str(w)
}

/// Reads the command-line options `args`, whose first word is the program's
/// name, starting from the default settings and the default settings file
/// `./config.toml`.
pub fn parse_args(args: &Vec<String>) -> (r: Result<ArgsOutcome, ArgsError>)
    ensures
        args_answer(scan_args(args@, 1, "127.0.0.1"@, 6000, ""@, Some("./config.toml"@)), r),
{
    let mut config = Config::default();
    let mut config_file: Option<String> = Some(String::from_str("./config.toml"));
    let mut i: usize = 1;
    let ghost start = scan_args(args@, 1, "127.0.0.1"@, 6000, ""@, Some("./config.toml"@));
    while i < args.len()
        invariant
            1 <= i,
            start == scan_args(args@, 1, "127.0.0.1"@, 6000, ""@, Some("./config.toml"@)),
            start == scan_args(
                args@,
                i as int,
                config.host@,
                config.port,
                config.secret@,
                match config_file {
                    Some(f) => Some(f@),
                    None => None,
                },
            ),
        decreases args@.len() - i,
    {
        let a = &args[i];
        let has_value = i + 1 < args.len();
        proof {
            assert(a@ == args@[i as int]@);
            assert(start == scan_args(args@, i as int, config.host@, config.port, config.secret@, match config_file {
                Some(f) => Some(f@),
                None => None,
            }));
        }
        if is_word(a, "-c") || is_word(a, "--config") {
            if has_value {
                config_file = Some(args[i + 1].clone());
                i = i + 2;
            } else {
                return Err(ArgsError::Missing(String::from_str("Missing config file path after -c/--config")));
            }
        } else if is_word(a, "-h") || is_word(a, "--host") {
            if has_value {
                config.host = args[i + 1].clone();
                i = i + 2;
            } else {
                return Err(ArgsError::Missing(String::from_str("Missing host after -h/--host")));
            }
        } else if is_word(a, "-p") || is_word(a, "--port") {
            if has_value {
                match parse_u16(args[i + 1].as_str()) {
                    Ok(p) => {
                        config.port = p;
                        i = i + 2;
                    },
                    Err(e) => {
                        return Err(ArgsError::Port(e));
                    },
                }
            } else {
                return Err(ArgsError::Missing(String::from_str("Missing port after -p/--port")));
            }
        } else if is_word(a, "-s") || is_word(a, "--secret") {
            if has_value {
                config.secret = args[i + 1].clone();
                i = i + 2;
            } else {
                return Err(ArgsError::Missing(String::from_str("Missing secret after -s/--secret")));
            }
        } else if is_word(a, "--help") {
            return Ok(ArgsOutcome::Help);
        } else {
            i = i + 1;
        }
    }
    Ok(ArgsOutcome::Run { config, config_file })
}

impl Config {
    /// Takes from the settings file each setting that the options left at its
    /// default.
    pub fn merge_file(&mut self, file: Config)
        ensures
            final(self).host@ == (if old(self).host@ == "127.0.0.1"@ {
                file.host@
            } else {
                old(self).host@
            }),
            final(self).port == (if old(self).port == 6000 {
                file.port
            } else {
                old(self).port
            }),
            final(self).secret@ == (if old(self).secret@ == ""@ {
                file.secret@
            } else {
                old(self).secret@
            }),
    {
        if self.host == default_host() {
            self.host = file.host;
        }
        if self.port == default_port() {
            self.port = file.port;
        }
        if self.secret == default_string() {
            self.secret = file.secret;
        }
    }

    /// Applies the settings given by the environment (`AKV_HOST`, `AKV_PORT`,
    /// `AKV_SECRET`), each when present.
    pub fn parse_env_var(&mut self, host: Option<String>, port: Option<String>, secret: Option<String>)
        requires
            port matches Some(p) ==> parse_unsigned(p@, u16::MAX as nat) is Some,
        ensures
            final(self).host == (match host {
                Some(h) => h,
                None => old(self).host,
            }),
            final(self).port == (match port {
                Some(p) => parse_unsigned(p@, u16::MAX as nat)->0 as u16,
                None => old(self).port,
            }),
            final(self).secret == (match secret {
                Some(s) => s,
                None => old(self).secret,
            }),
    {
        if let Some(h) = host {
            self.host = h;
        }
        if let Some(p) = port {
            match parse_u16(p.as_str()) {
                Ok(v) => {
                    self.port = v;
                },
                Err(_) => {},
            }
        }
        if let Some(s) = secret {
            self.secret = s;
        }
    }

    /// The address to connect to: the host, a colon and the port in decimal.
    pub fn get_address(&self) -> (a: String)
        ensures
            a@ == self.host@ + ":"@ + decimal(self.port as nat),
    {
        let mut a = self.host.clone();
        a.append(":");
        push_decimal(&mut a, self.port as u64);
        a
    }
}

} // verus!
