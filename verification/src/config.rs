//! The run configuration and its reading from command-line tokens.

use crate::text::{decimal_value, has_leading_dash, parse_decimal, same_text, starts_with_dash};
use vstd::prelude::*;

verus! {

/// Why a list of command-line tokens is not a configuration.
#[derive(Clone, Copy, Debug, PartialEq, Eq, Structural)]
pub enum ConfigError {
    /// The token after `-w` / `--window` is not a 32-bit unsigned number.
    InvalidWindow,
    /// The token after `-p` / `--pid` is not a 32-bit unsigned number.
    InvalidPid,
    /// The token after `-l` / `--layout` is not an unsigned number that fits
    /// the machine word.
    InvalidLayout,
}

/// What the command line asks for.
#[derive(Clone, Debug)]
pub struct Config {
    /// Print the usage text and stop.
    pub help: bool,
    /// Apply to every matching window, not only to the first.
    pub all_windows: bool,
    /// The layout group to translate into; 0 is the active one.
    pub layout: usize,
    /// An explicit window id.
    pub wid: Option<u32>,
    /// A `class.instance` pair to match.
    pub class: Option<String>,
    /// The id of the owning process to match.
    pub pid: Option<u32>,
    /// A window name to match.
    pub name: Option<String>,
}

/// The mathematical content of a [`Config`].
pub struct ConfigView {
    pub help: bool,
    pub all_windows: bool,
    pub layout: usize,
    pub wid: Option<u32>,
    pub class: Option<Seq<char>>,
    pub pid: Option<u32>,
    pub name: Option<Seq<char>>,
}

/// The characters of an optional text.
pub open spec fn text_of(s: Option<String>) -> Option<Seq<char>> {
    match s {
        Some(s) => Some(s@),
        None => None,
    }
}

impl View for Config {
    type V = ConfigView;

    open spec fn view(&self) -> ConfigView {
        ConfigView {
            help: self.help,
            all_windows: self.all_windows,
            layout: self.layout,
            wid: self.wid,
            class: text_of(self.class),
            pid: self.pid,
            name: text_of(self.name),
        }
    }
}

/// The configuration of an empty command line: nothing selected, layout 0.
pub open spec fn initial_config() -> ConfigView {
    ConfigView {
        help: false,
        all_windows: false,
        layout: 0,
        wid: None,
        class: None,
        pid: None,
        name: None,
    }
}

/// The characters of each token.
pub open spec fn token_texts(tokens: Seq<String>) -> Seq<Seq<char>> {
    Seq::new(tokens.len(), |i: int| tokens[i]@)
}

/// Whether `token` is the short or the long spelling of an option.
pub open spec fn is_option(token: Seq<char>, short: Seq<char>, long: Seq<char>) -> bool {
    token == short || token == long
}

/// The value that the option at position `i` takes: the next token, unless
/// there is none or it starts with `-`.
pub open spec fn value_after(tokens: Seq<Seq<char>>, i: int) -> Option<Seq<char>> {
    if i + 1 < tokens.len() && !has_leading_dash(tokens[i + 1]) {
        Some(tokens[i + 1])
    } else {
        None
    }
}

/// The configuration after the token at position `i` has been read.
///
/// A token that is no option name changes nothing, and so does an option
/// that lacks its value. A value is not consumed: it is read again as a
/// token of its own.
pub open spec fn after_token(cfg: ConfigView, tokens: Seq<Seq<char>>, i: int) -> Result<
    ConfigView,
    ConfigError,
> {
    let token = tokens[i];
    let value = value_after(tokens, i);
    if is_option(token, "-w"@, "--window"@) {
        match value {
            Some(v) => match decimal_value(v, u32::MAX as nat) {
                Some(n) => Ok(ConfigView { wid: Some(n as u32), ..cfg }),
                None => Err(ConfigError::InvalidWindow),
            },
            None => Ok(cfg),
        }
    } else if is_option(token, "-c"@, "--class"@) {
        match value {
            Some(v) => Ok(ConfigView { class: Some(v), ..cfg }),
            None => Ok(cfg),
        }
    } else if is_option(token, "-p"@, "--pid"@) {
        match value {
            Some(v) => match decimal_value(v, u32::MAX as nat) {
                Some(n) => Ok(ConfigView { pid: Some(n as u32), ..cfg }),
                None => Err(ConfigError::InvalidPid),
            },
            None => Ok(cfg),
        }
    } else if is_option(token, "-n"@, "--name"@) {
        match value {
            Some(v) => Ok(ConfigView { name: Some(v), ..cfg }),
            None => Ok(cfg),
        }
    } else if is_option(token, "-h"@, "--help"@) {
        Ok(ConfigView { help: true, ..cfg })
    } else if is_option(token, "-l"@, "--layout"@) {
        match value {
            Some(v) => match decimal_value(v, usize::MAX as nat) {
                Some(n) => Ok(ConfigView { layout: n as usize, ..cfg }),
                None => Err(ConfigError::InvalidLayout),
            },
            None => Ok(cfg),
        }
    } else if is_option(token, "-a"@, "--all"@) {
        Ok(ConfigView { all_windows: true, ..cfg })
    } else {
        Ok(cfg)
    }
}

/// The configuration after the first `n` tokens have been read in order,
/// or the error of the first token that could not be read.
pub open spec fn after_tokens(tokens: Seq<Seq<char>>, n: nat) -> Result<ConfigView, ConfigError>
    decreases n,
{
    if n == 0 {
        Ok(initial_config())
    } else {
        match after_tokens(tokens, (n - 1) as nat) {
            Ok(cfg) => after_token(cfg, tokens, n - 1),
            Err(e) => Err(e),
        }
    }
}

/// The configuration that a command line stands for.
pub open spec fn parsed(tokens: Seq<Seq<char>>) -> Result<ConfigView, ConfigError> {
    after_tokens(tokens, tokens.len())
}

impl Default for Config {
    /// Nothing selected, layout 0.
    fn default() -> (cfg: Config)
        ensures
            cfg@ == initial_config(),
    {
        Config {
            help: false,
            all_windows: false,
            layout: 0,
            wid: None,
            class: None,
            pid: None,
            name: None,
        }
    }
}

/// Whether a token spells an option, short or long.
fn names_option(token: &str, short: &str, long: &str) -> (named: bool)
    ensures
        named == is_option(token@, short@, long@),
{
    same_text(token, short) || same_text(token, long)
}

/// The value of the option at position `i`, if the next token is one.
fn option_value(input: &Vec<String>, i: usize) -> (value: Option<&String>)
    requires
        i < input.len(),
    ensures
        value_after(token_texts(input@), i as int) == match value {
            Some(v) => Some(v@),
            None => None,
        },
{
    if i + 1 < input.len() && !starts_with_dash(input[i + 1].as_str()) {
        Some(&input[i + 1])
    } else {
        None
    }
}

impl Config {
    /// Reads the configuration off the command-line tokens, left to right.
    ///
    /// Each token is looked at on its own. An option that takes a value
    /// reads the token after it, unless that token starts with `-`; the
    /// value stays in the list and is looked at as a token in its turn.
    /// Later options override earlier ones. The first number that cannot be
    /// read ends the reading with its error.
    pub fn from_args(input: Vec<String>) -> (result: Result<Config, ConfigError>)
        ensures
            match result {
                Ok(cfg) => parsed(token_texts(input@)) == Ok::<ConfigView, ConfigError>(cfg@),
                Err(e) => parsed(token_texts(input@)) == Err::<ConfigView, ConfigError>(e),
            },
    {
        let mut ret = Config::default();
        let mut i: usize = 0;
        while i < input.len()
            invariant
                i <= input.len(),
                after_tokens(token_texts(input@), i as nat) == Ok::<ConfigView, ConfigError>(ret@),
            decreases input.len() - i,
        {
            let ghost tokens = token_texts(input@);
            let ghost before = ret@;
            let token: &str = input[i].as_str();
            let value = option_value(&input, i);
            assert(tokens[i as int] == token@);
            if names_option(token, "-w", "--window") {
                if let Some(next) = value {
                    match parse_decimal(next.as_str(), u32::MAX as u64) {
                        Some(n) => {
                            ret = ret.with_wid(n as u32);
                        },
                        None => {
                            assert(after_tokens(tokens, (i + 1) as nat) == Err::<
                                ConfigView,
                                ConfigError,
                            >(ConfigError::InvalidWindow));
                            proof {
                                lemma_error_stays(tokens, (i + 1) as nat, tokens.len());
                            }
                            return Err(ConfigError::InvalidWindow);
                        },
                    }
                }
            } else if names_option(token, "-c", "--class") {
                if let Some(next) = value {
                    ret = ret.with_class(next.clone());
                }
            } else if names_option(token, "-p", "--pid") {
                if let Some(next) = value {
                    match parse_decimal(next.as_str(), u32::MAX as u64) {
                        Some(n) => {
                            ret = ret.with_pid(n as u32);
                        },
                        None => {
                            assert(after_tokens(tokens, (i + 1) as nat) == Err::<
                                ConfigView,
                                ConfigError,
                            >(ConfigError::InvalidPid));
                            proof {
                                lemma_error_stays(tokens, (i + 1) as nat, tokens.len());
                            }
                            return Err(ConfigError::InvalidPid);
                        },
                    }
                }
            } else if names_option(token, "-n", "--name") {
                if let Some(next) = value {
                    ret = ret.with_name(next.clone());
                }
            } else if names_option(token, "-h", "--help") {
                ret = ret.with_help();
            } else if names_option(token, "-l", "--layout") {
                if let Some(next) = value {
                    match parse_decimal(next.as_str(), usize::MAX as u64) {
                        Some(n) => {
                            ret = ret.with_layout(n as usize);
                        },
                        None => {
                            assert(after_tokens(tokens, (i + 1) as nat) == Err::<
                                ConfigView,
                                ConfigError,
                            >(ConfigError::InvalidLayout));
                            proof {
                                lemma_error_stays(tokens, (i + 1) as nat, tokens.len());
                            }
                            return Err(ConfigError::InvalidLayout);
                        },
                    }
                }
            } else if names_option(token, "-a", "--all") {
                ret = ret.with_all_windows();
            }
            assert(after_token(before, tokens, i as int) == Ok::<ConfigView, ConfigError>(ret@));
            i += 1;
        }
        Ok(ret)
    }

    /// The same configuration with the explicit window id set.
    pub fn with_wid(self, wid: u32) -> (cfg: Config)
        ensures
            cfg@ == (ConfigView { wid: Some(wid), ..self@ }),
    {
        let mut cfg = self;
        cfg.wid = Some(wid);
        cfg
    }

    /// The same configuration with the `class.instance` pair set.
    pub fn with_class(self, class: String) -> (cfg: Config)
        ensures
            cfg@ == (ConfigView { class: Some(class@), ..self@ }),
    {
        let mut cfg = self;
        cfg.class = Some(class);
        cfg
    }

    /// The same configuration with the owning process id set.
    pub fn with_pid(self, pid: u32) -> (cfg: Config)
        ensures
            cfg@ == (ConfigView { pid: Some(pid), ..self@ }),
    {
        let mut cfg = self;
        cfg.pid = Some(pid);
        cfg
    }

    /// The same configuration with the window name set.
    pub fn with_name(self, name: String) -> (cfg: Config)
        ensures
            cfg@ == (ConfigView { name: Some(name@), ..self@ }),
    {
        let mut cfg = self;
        cfg.name = Some(name);
        cfg
    }

    /// The same configuration, asking for the help text.
    pub fn with_help(self) -> (cfg: Config)
        ensures
            cfg@ == (ConfigView { help: true, ..self@ }),
    {
        let mut cfg = self;
        cfg.help = true;
        cfg
    }

    /// The same configuration with the layout group set.
    pub fn with_layout(self, layout: usize) -> (cfg: Config)
        ensures
            cfg@ == (ConfigView { layout: layout, ..self@ }),
    {
        let mut cfg = self;
        cfg.layout = layout;
        cfg
    }

    /// The same configuration, applying to every matching window.
    pub fn with_all_windows(self) -> (cfg: Config)
        ensures
            cfg@ == (ConfigView { all_windows: true, ..self@ }),
    {
        let mut cfg = self;
        cfg.all_windows = true;
        cfg
    }
}

/// Once a token has failed, reading more tokens keeps the error.
proof fn lemma_error_stays(tokens: Seq<Seq<char>>, n: nat, m: nat)
    requires
        n <= m,
        after_tokens(tokens, n) is Err,
    ensures
        after_tokens(tokens, m) == after_tokens(tokens, n),
    decreases m - n,
{
    if n < m {
        lemma_error_stays(tokens, n, (m - 1) as nat);
    }
}

/// The help text.
pub open spec fn usage_text() -> Seq<char> {
    USAGE@
}

pub const USAGE: &'static str = "mmk(mimic)
  use a different keyboard layout for a given window.

  options:
    -h | --help                    \tprints this help message
    -l | --layout                  \tspecify which layout to use, starts from 0
        default: 0, meaning use the current layout
    -w | --window <wid>            \ttry to run on a window with the given x11 id
        default: [needs to be specified]
    -c | --class <class>.<instance>\ttry to run on a window with the given x11 window class and instance
        default: [needs to be specified]
    -p | --pid <pid>               \ttry to run on a client with the given process id
        default: [needs to be specified]
    -n | --name <name>             \ttry to run on a window with a given WM_NAME or _NET_WM_NAME property
    -a | --all                     \ttry to run on all windows matching the specified criteria
  how to use:
    1. set up two layouts you want to use using setxkbmap:
        $ setxkbmap -layout dvorak,us
    2. run with something specified
        $ mmk --layout 1 --name MyWindow
    3. the window should now receive the mimiced layout keys
";

/// The help text that `-h` prints.
pub fn usage() -> (text: &'static str)
    ensures
        text@ == usage_text(),
{
    USAGE
}

} // verus!
