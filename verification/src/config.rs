//! The settings of the tool, output formats, and where settings files are
//! looked for.

use vstd::prelude::*;
use vstd::utf8::is_ascii_chars;
use crate::text::{ascii_lower, chars_of, lowercase, string_of, to_lowercase};
use crate::scanner::same_text;

verus! {

broadcast use vstd::string::group_string_axioms;

/// How listings are rendered.
#[derive(Debug, Clone, Copy, PartialEq, Eq, Structural)]
pub enum OutputFormat {
    Table,
    Json,
    Yaml,
    Csv,
}

/// A range of ports, both ends included.
#[derive(Debug, Clone, Copy, PartialEq, Eq, Structural)]
pub struct PortRange {
    pub start: u16,
    pub end: u16,
}

/// The settings of the tool.
#[derive(Debug, Clone, Copy, PartialEq, Eq, Structural)]
pub struct Config {
    /// Default output format.
    pub default_format: OutputFormat,
    /// Scan timeout, in seconds.
    pub scan_timeout: u64,
    /// Number of worker threads.
    pub concurrent_threads: usize,
    /// Whether to print details.
    pub verbose: bool,
    /// Whether to show process information.
    pub show_process_info: bool,
    /// Range in which ports are allocated.
    pub port_range: PortRange,
    /// Default reservation time, in seconds.
    pub default_reserve_duration: u64,
}

/// The settings used when no settings file is found.
pub open spec fn default_config() -> Config {
    Config {
        default_format: OutputFormat::Table,
        scan_timeout: 30,
        concurrent_threads: 4,
        verbose: false,
        show_process_info: true,
        port_range: PortRange { start: 8000, end: 9000 },
        default_reserve_duration: 3600,
    }
}

impl Default for Config {
    fn default() -> (r: Self)
        ensures
            r == default_config(),
    {
        Config {
            default_format: OutputFormat::Table,
            scan_timeout: 30,
            concurrent_threads: 4,
            verbose: false,
            show_process_info: true,
            port_range: PortRange { start: 8000, end: 9000 },
            default_reserve_duration: 3600,
        }
    }
}

/// Why a setting was refused.
#[derive(Debug, PartialEq, Eq)]
pub enum ConfigError {
    /// The text names no output format.
    InvalidOutputFormat(String),
}

/// The name under which a format is shown.
pub open spec fn format_name(f: OutputFormat) -> Seq<char> {
    match f {
        OutputFormat::Table => "table"@,
        OutputFormat::Json => "json"@,
        OutputFormat::Yaml => "yaml"@,
        OutputFormat::Csv => "csv"@,
    }
}

/// The format that a (lower-cased) name selects: `table`, `json`, `yaml`
/// or `yml`, `csv`.
pub open spec fn format_named(lower: Seq<char>) -> Option<OutputFormat> {
    if lower == "table"@ {
        Some(OutputFormat::Table)
    } else if lower == "json"@ {
        Some(OutputFormat::Json)
    } else if lower == "yaml"@ || lower == "yml"@ {
        Some(OutputFormat::Yaml)
    } else if lower == "csv"@ {
        Some(OutputFormat::Csv)
    } else {
        None
    }
}

impl OutputFormat {
    /// The name of the format (what it displays as).
    pub fn to_string(&self) -> (r: String)
        ensures
            r@ == format_name(*self),
    {
        match self {
            OutputFormat::Table => "table".to_owned(),
            OutputFormat::Json => "json".to_owned(),
            OutputFormat::Yaml => "yaml".to_owned(),
            OutputFormat::Csv => "csv".to_owned(),
        }
    }

    /// The format named by `s`, compared lower-cased; an error carrying the
    /// text otherwise. An ASCII text is lower-cased letter by letter.
    pub fn from_str(s: &str) -> (r: Result<OutputFormat, ConfigError>)
        ensures
            match format_named(lowercase(s@)) {
                Some(f) => r == Ok::<OutputFormat, ConfigError>(f),
                None => r matches Err(ConfigError::InvalidOutputFormat(t)) && t@ == s@,
            },
            is_ascii_chars(s@) ==> match format_named(ascii_lower(s@)) {
                Some(f) => r == Ok::<OutputFormat, ConfigError>(f),
                None => r is Err,
            },
    {
        let lower = to_lowercase(s);
        let l = lower.as_str();
        if same_text(l, "table") {
            Ok(OutputFormat::Table)
        } else if same_text(l, "json") {
            Ok(OutputFormat::Json)
        } else if same_text(l, "yaml") || same_text(l, "yml") {
            Ok(OutputFormat::Yaml)
        } else if same_text(l, "csv") {
            Ok(OutputFormat::Csv)
        } else {
            Err(ConfigError::InvalidOutputFormat(s.to_owned()))
        }
    }
}

// ---------------------------------------------------------------------------
// Settings files
// ---------------------------------------------------------------------------

/// Where settings are looked for, in order.
pub open spec fn config_paths() -> Seq<Seq<char>> {
    seq!["./port-checker.toml"@, "~/.config/port-checker/config.toml"@, "~/.port-checker.toml"@]
}

/// The places where a settings file is looked for, in order.
pub fn config_search_paths() -> (r: Vec<String>)
    ensures
        r@.map_values(|s: String| s@) == config_paths(),
{
    let mut v: Vec<String> = Vec::new();
    v.push("./port-checker.toml".to_owned());
    v.push("~/.config/port-checker/config.toml".to_owned());
    v.push("~/.port-checker.toml".to_owned());
    assert(v@.map_values(|s: String| s@) =~= config_paths());
    v
}

/// The place where the default settings file is written.
pub fn default_config_path() -> (r: String)
    ensures
        r@ == config_paths()[1],
{
    "~/.config/port-checker/config.toml".to_owned()
}

/// The position of the first candidate that exists.
pub open spec fn first_existing(exists: Seq<bool>) -> Option<nat>
    decreases exists.len(),
{
    if exists.len() == 0 {
        None
    } else if exists[0] {
        Some(0)
    } else {
        match first_existing(exists.drop_first()) {
            Some(k) => Some(k + 1),
            None => None,
        }
    }
}

/// Which settings file is loaded, given which candidates exist: the first
/// one that does; `None` means the defaults apply.
pub fn choose_config_path(exists: &[bool]) -> (r: Option<usize>)
    ensures
        match r {
            Some(k) => first_existing(exists@) == Some(k as nat),
            None => first_existing(exists@) is None,
        },
{
    let n = exists.len();
    let mut i: usize = 0;
    while i < n
        invariant
            n == exists@.len(),
            i <= n,
            forall|j: int| 0 <= j < i ==> !exists@[j],
        decreases n - i,
    {
        if exists[i] {
            proof {
                lemma_first_existing(exists@, i as int);
            }
            return Some(i);
        }
        i += 1;
    }
    proof {
        lemma_first_existing_none(exists@);
    }
    None
}

proof fn lemma_first_existing(e: Seq<bool>, i: int)
    requires
        0 <= i < e.len(),
        e[i],
        forall|j: int| 0 <= j < i ==> !e[j],
    ensures
        first_existing(e) == Some(i as nat),
    decreases i,
{
    if i > 0 {
        assert forall|j: int| 0 <= j < i - 1 implies !e.drop_first()[j] by {
            assert(e.drop_first()[j] == e[j + 1]);
        }
        lemma_first_existing(e.drop_first(), i - 1);
    }
}

proof fn lemma_first_existing_none(e: Seq<bool>)
    requires
        forall|j: int| 0 <= j < e.len() ==> !e[j],
    ensures
        first_existing(e) is None,
    decreases e.len(),
{
    if e.len() > 0 {
        assert forall|j: int| 0 <= j < e.len() - 1 implies !e.drop_first()[j] by {
            assert(e.drop_first()[j] == e[j + 1]);
        }
        lemma_first_existing_none(e.drop_first());
    }
}

/// `home` joined with `rest` as a path: `rest` alone when it is absolute,
/// else the two with one `/` between them.
pub open spec fn join_path(home: Seq<char>, rest: Seq<char>) -> Seq<char> {
    if rest.len() > 0 && rest[0] == '/' {
        rest
    } else if home.len() == 0 || home.last() == '/' {
        home + rest
    } else {
        home + seq!['/'] + rest
    }
}

/// A settings path with a leading `~` replaced by the home directory: the
/// home joined with what follows the first two characters. Without a
/// leading `~`, or without a known home, the path is kept.
pub open spec fn expanded_path(path: Seq<char>, home: Option<Seq<char>>) -> Seq<char> {
    if path.len() > 0 && path[0] == '~' {
        match home {
            Some(h) => join_path(h, path.skip(2)),
            None => path,
        }
    } else {
        path
    }
}

/// Expands a leading `~` of `path` with the home directory (see
/// `expanded_path`).
pub fn expand_path(path: &str, home: Option<&str>) -> (r: String)
    requires
        path@.len() > 0 && path@[0] == '~' && home is Some ==> path@.len() >= 2 && (path@[1] as u32)
            < 0x80,
    ensures
        r@ == expanded_path(path@, crate::report::opt_str_view(home)),
{
    let p = chars_of(path);
    if p.len() > 0 && p[0] == '~' {
        match home {
            Some(h) => {
                let hc = chars_of(h);
                let rest = crate::text::sub_chars(p.as_slice(), 2, p.len());
                assert(rest@ == p@.skip(2));
                if rest.len() > 0 && rest[0] == '/' {
                    return string_of(rest.as_slice());
                }
                let mut v = crate::text::sub_chars(hc.as_slice(), 0, hc.len());
                assert(hc@.subrange(0, hc@.len() as int) == hc@);
                if !(hc.len() == 0 || hc[hc.len() - 1] == '/') {
                    v.push('/');
                }
                crate::scanner::push_all(&mut v, rest.as_slice());
                string_of(v.as_slice())
            },
            None => path.to_owned(),
        }
    } else {
        path.to_owned()
    }
}

} // verus!
