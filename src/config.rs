//! The monitor configuration: ordered monitored roots, with their labels and
//! ignore rules, and the settings read at startup.
use vstd::prelude::*;
use crate::utils::{chars_of, contains_text, has_substring, match_path, path_matches, same_text};

verus! {

/// The version written into every configuration.
pub const VERSION: &'static str = "0.1";

/// Index returned by `Config::get_index` when no monitored root matches.
pub const NOT_FOUND: usize = usize::MAX;

/// The configuration file looked for when no other candidate exists.
pub const CONFIG_PATH: &'static str = "/etc/ifim/config.yml";

/// One monitored root: its path, an optional label and the substrings whose
/// presence in a file name suppresses records for this root.
#[derive(Clone, Debug, PartialEq, Eq)]
pub struct MonitoredPath {
    pub path: String,
    pub label: Option<String>,
    pub ignore: Vec<String>,
}

/// The startup configuration. `monitor` is ordered: the position of an entry
/// is its identity and its priority.
#[derive(Clone, Debug, PartialEq, Eq)]
pub struct Config {
    pub version: String,
    pub path: String,
    pub events_file: String,
    pub monitor: Vec<MonitoredPath>,
    pub log_file: String,
    pub log_level: String,
    pub system: String,
}

/// Why a configuration could not be assembled.
#[derive(Clone, Copy, Debug, PartialEq, Eq, Structural)]
pub enum ConfigError {
    /// The mandatory log file setting is absent.
    MissingLogFile,
}

/// Verbosity of the diagnostic log.
#[derive(Clone, Copy, Debug, PartialEq, Eq, Structural)]
pub enum LogLevel {
    Error,
    Warn,
    Info,
    Debug,
}

/// The text of a label, empty when there is none.
pub open spec fn label_text(label: Option<String>) -> Seq<char> {
    match label {
        Some(l) => l@,
        None => Seq::<char>::empty(),
    }
}

/// Whether any ignore substring of `entry` occurs in `filename`.
pub open spec fn ignored_by(entry: MonitoredPath, filename: Seq<char>) -> bool {
    exists|k: int| 0 <= k < entry.ignore@.len() && has_substring(filename, #[trigger] entry.ignore@[k]@)
}

/// Whether a raw path is given relative to the watch root.
pub open spec fn is_relative_path(p: Seq<char>) -> bool {
    ||| (p.len() >= 2 && p[0] == '.' && p[1] == '/')
    ||| p == seq!['.']
    ||| !p.contains('/')
}

/// The path actually matched: the working directory when one is given and the
/// raw path is relative, else the raw path.
pub open spec fn match_target(raw: Seq<char>, cwd: Seq<char>) -> Seq<char> {
    if cwd.len() > 0 && is_relative_path(raw) {
        cwd
    } else {
        raw
    }
}

/// The first position among `entries` whose path `target` matches.
pub open spec fn first_match(target: Seq<char>, entries: Seq<MonitoredPath>) -> Option<int>
    decreases entries.len(),
{
    if entries.len() == 0 {
        None
    } else {
        match first_match(target, entries.drop_last()) {
            Some(i) => Some(i),
            None => if path_matches(target, entries.last().path@) {
                Some(entries.len() - 1)
            } else {
                None
            },
        }
    }
}

/// The index that resolution reports for `target`.
pub open spec fn resolved_index(target: Seq<char>, entries: Seq<MonitoredPath>) -> usize {
    match first_match(target, entries) {
        Some(i) => i as usize,
        None => NOT_FOUND,
    }
}

/// The level named by a configuration value, if it names one.
pub open spec fn level_of(s: Seq<char>) -> Option<LogLevel> {
    if s == "debug"@ || s == "Debug"@ || s == "DEBUG"@ || s == "D"@ || s == "d"@ {
        Some(LogLevel::Debug)
    } else if s == "info"@ || s == "Info"@ || s == "INFO"@ || s == "I"@ || s == "i"@ {
        Some(LogLevel::Info)
    } else if s == "error"@ || s == "Error"@ || s == "ERROR"@ || s == "E"@ || s == "e"@ {
        Some(LogLevel::Error)
    } else if s == "warning"@ || s == "Warning"@ || s == "WARNING"@ || s == "W"@ || s == "w"@
        || s == "warn"@ || s == "Warn"@ || s == "WARN"@ {
        Some(LogLevel::Warn)
    } else {
        None
    }
}

/// The configuration file chosen when the candidate with index `i` exists
/// exactly when `exists[i]` is true (a missing flag counts as false).
pub open spec fn chosen_config_path(exists: Seq<bool>) -> Seq<char> {
    if exists.len() > 0 && exists[0] {
        "./config/config.yml"@
    } else if exists.len() > 1 && exists[1] {
        "./config.yml"@
    } else if exists.len() > 2 && exists[2] {
        "./../../config/config.yml"@
    } else {
        CONFIG_PATH@
    }
}

/// Whether `p` starts with `./`, is `.`, or holds no `/`.
pub fn is_relative(p: &str) -> (r: bool)
    ensures
        r == is_relative_path(p@),
{
    let c = chars_of(p);
    let starts = c.len() >= 2 && c[0] == '.' && c[1] == '/';
    let dot = c.len() == 1 && c[0] == '.';
    proof {
        if dot {
            assert(p@ =~= seq!['.']);
        }
        if p@ == seq!['.'] {
            assert(p@.len() == 1 && p@[0] == '.');
        }
    }
    let mut has_sep = false;
    let mut i: usize = 0;
    while i < c.len()
        invariant
            c@ == p@,
            i <= c.len(),
            has_sep == exists|j: int| 0 <= j < i && c@[j] == '/',
        decreases c.len() - i,
    {
        if c[i] == '/' {
            has_sep = true;
        }
        i = i + 1;
    }
    starts || dot || !has_sep
}

/// The level named by `s`, if any.
pub fn level_from_name(s: &str) -> (r: Option<LogLevel>)
    ensures
        r == level_of(s@),
{
    if same_text(s, "debug") || same_text(s, "Debug") || same_text(s, "DEBUG") || same_text(s, "D")
        || same_text(s, "d") {
        Some(LogLevel::Debug)
    } else if same_text(s, "info") || same_text(s, "Info") || same_text(s, "INFO") || same_text(
        s,
        "I",
    ) || same_text(s, "i") {
        Some(LogLevel::Info)
    } else if same_text(s, "error") || same_text(s, "Error") || same_text(s, "ERROR") || same_text(
        s,
        "E",
    ) || same_text(s, "e") {
        Some(LogLevel::Error)
    } else if same_text(s, "warning") || same_text(s, "Warning") || same_text(s, "WARNING")
        || same_text(s, "W") || same_text(s, "w") || same_text(s, "warn") || same_text(s, "Warn")
        || same_text(s, "WARN") {
        Some(LogLevel::Warn)
    } else {
        None
    }
}

/// The index of the first entry of `array` whose path matches `raw_path`
/// (or `cwd`, when it is given and `raw_path` is relative), or `NOT_FOUND`.
pub fn find_index(raw_path: &str, cwd: &str, array: &Vec<MonitoredPath>) -> (r: usize)
    ensures
        r == resolved_index(match_target(raw_path@, cwd@), array@),
{
    let use_cwd = !cwd.is_empty() && is_relative(raw_path);
    let target = if use_cwd {
        cwd
    } else {
        raw_path
    };
    assert(target@ == match_target(raw_path@, cwd@));
    let mut i: usize = 0;
    while i < array.len()
        invariant
            target@ == match_target(raw_path@, cwd@),
            i <= array.len(),
            first_match(target@, array@.subrange(0, i as int)) is None,
        decreases array.len() - i,
    {
        let ghost next = array@.subrange(0, i as int + 1);
        assert(next.drop_last() =~= array@.subrange(0, i as int));
        if match_path(target, array[i].path.as_str()) {
            assert(next.last() == array@[i as int]);
            assert(first_match(target@, next) == Some(i as int));
            proof {
                lemma_first_match_extends(target@, array@, i as int + 1);
            }
            return i;
        }
        i = i + 1;
    }
    proof {
        lemma_first_match_extends(target@, array@, array@.len() as int);
        assert(array@.subrange(0, array@.len() as int) =~= array@);
    }
    NOT_FOUND
}

/// Whether `filename` contains any ignore substring of `entry`.
pub fn ignored_in(entry: &MonitoredPath, filename: &str) -> (r: bool)
    ensures
        r == ignored_by(*entry, filename@),
{
    let ignore = &entry.ignore;
    let mut k: usize = 0;
    while k < ignore.len()
        invariant
            ignore@ == entry.ignore@,
            k <= ignore.len(),
            forall|j: int| 0 <= j < k ==> !has_substring(filename@, #[trigger] ignore@[j]@),
        decreases ignore.len() - k,
    {
        if contains_text(filename, ignore[k].as_str()) {
            return true;
        }
        k = k + 1;
    }
    false
}

/// Picks the configuration file: the first candidate that exists among
/// `./config/config.yml`, `./config.yml` and `./../../config/config.yml`,
/// in that order, else the system-wide path. `exists[i]` tells whether the
/// candidate with index `i` exists.
pub fn get_config_path(exists: &Vec<bool>) -> (r: String)
    ensures
        r@ == chosen_config_path(exists@),
{
    if exists.len() > 0 && exists[0] {
        "./config/config.yml".to_owned()
    } else if exists.len() > 1 && exists[1] {
        "./config.yml".to_owned()
    } else if exists.len() > 2 && exists[2] {
        "./../../config/config.yml".to_owned()
    } else {
        CONFIG_PATH.to_owned()
    }
}

impl Config {
    /// Assembles the configuration from the values read from the configuration
    /// file. An absent events file becomes `Not_used` and an absent log level
    /// `info`; an absent log file is an error.
    pub fn new(
        system: &str,
        path: String,
        events_file: Option<String>,
        monitor: Vec<MonitoredPath>,
        log_file: Option<String>,
        log_level: Option<String>,
    ) -> (r: Result<Config, ConfigError>)
        ensures
            log_file is None <==> r == Err::<Config, ConfigError>(ConfigError::MissingLogFile),
            r is Ok ==> {
                let c = r->Ok_0;
                &&& c.version@ == VERSION@
                &&& c.path == path
                &&& c.events_file@ == match events_file {
                    Some(e) => e@,
                    None => "Not_used"@,
                }
                &&& c.monitor == monitor
                &&& c.log_file == log_file->0
                &&& c.log_level@ == match log_level {
                    Some(l) => l@,
                    None => "info"@,
                }
                &&& c.system@ == system@
            },
    {
        let log_file = match log_file {
            Some(f) => f,
            None => return Err(ConfigError::MissingLogFile),
        };
        let events_file = match events_file {
            Some(e) => e,
            None => "Not_used".to_owned(),
        };
        let log_level = match log_level {
            Some(l) => l,
            None => "info".to_owned(),
        };
        Ok(Config {
            version: VERSION.to_owned(),
            path,
            events_file,
            monitor,
            log_file,
            log_level,
            system: system.to_owned(),
        })
    }

    /// The configured log level; a value that names no level gives `Info`.
    pub fn get_level_filter(&self) -> (r: LogLevel)
        ensures
            r == match level_of(self.log_level@) {
                Some(l) => l,
                None => LogLevel::Info,
            },
    {
        match level_from_name(self.log_level.as_str()) {
            Some(l) => l,
            None => LogLevel::Info,
        }
    }

    /// The index of the first entry of `array` whose path matches `raw_path`
    /// (or `cwd`, when it is given and `raw_path` is relative), or `NOT_FOUND`.
    pub fn get_index(&self, raw_path: &str, cwd: &str, array: Vec<MonitoredPath>) -> (r: usize)
        ensures
            r == resolved_index(match_target(raw_path@, cwd@), array@),
    {
        find_index(raw_path, cwd, &array)
    }

    /// The label of entry `index`, or the empty text when it has none.
    pub fn get_label(&self, index: usize) -> (r: String)
        requires
            index < self.monitor.len(),
        ensures
            r@ == label_text(self.monitor@[index as int].label),
    {
        match &self.monitor[index].label {
            Some(l) => l.clone(),
            None => String::new(),
        }
    }

    /// Whether `filename` contains any ignore substring of entry `index` of `array`.
    pub fn match_ignore(&self, index: usize, filename: &str, array: Vec<MonitoredPath>) -> (r: bool)
        requires
            index < array.len(),
        ensures
            r == ignored_by(array@[index as int], filename@),
    {
        ignored_in(&array[index], filename)
    }
}

/// `first_match` over a prefix of length `n` agrees with `first_match` over
/// the whole sequence once it has found something, and a miss over every
/// prefix is a miss over the whole.
proof fn lemma_first_match_extends(target: Seq<char>, entries: Seq<MonitoredPath>, n: int)
    requires
        0 <= n <= entries.len(),
    ensures
        first_match(target, entries.subrange(0, n)) is Some ==> first_match(target, entries)
            == first_match(target, entries.subrange(0, n)),
    decreases entries.len() - n,
{
    if n < entries.len() {
        let next = entries.subrange(0, n + 1);
        assert(next.drop_last() =~= entries.subrange(0, n));
        lemma_first_match_extends(target, entries, n + 1);
    } else {
        assert(entries.subrange(0, n) =~= entries);
    }
}

/// Whether entry `j` of `entries` has a path that `target` matches.
pub open spec fn matches_at(target: Seq<char>, entries: Seq<MonitoredPath>, j: int) -> bool {
    path_matches(target, entries[j].path@)
}

/// Resolution picks the lowest matching index: `first_match` is `Some(i)`
/// exactly when entry `i` matches and no earlier entry does, and `None`
/// exactly when no entry matches.
pub proof fn lemma_resolve_is_lowest_match(target: Seq<char>, entries: Seq<MonitoredPath>)
    ensures
        first_match(target, entries) is None <==> forall|j: int|
            0 <= j < entries.len() ==> !#[trigger] matches_at(target, entries, j),
        first_match(target, entries) is Some ==> {
            let i = first_match(target, entries)->0;
            &&& 0 <= i < entries.len()
            &&& matches_at(target, entries, i)
            &&& forall|j: int| 0 <= j < i ==> !#[trigger] matches_at(target, entries, j)
        },
    decreases entries.len(),
{
    if entries.len() > 0 {
        let head = entries.drop_last();
        let n = entries.len() - 1;
        lemma_resolve_is_lowest_match(target, head);
        assert forall|j: int| 0 <= j < n implies #[trigger] matches_at(target, head, j)
            == matches_at(target, entries, j) by {
            assert(head[j] == entries[j]);
        }
        assert(entries.last() == entries[n]);
        assert(matches_at(target, entries, n) == path_matches(target, entries.last().path@));
        match first_match(target, head) {
            Some(i) => {
                assert(first_match(target, entries) == Some(i));
                assert(matches_at(target, head, i));
                assert(matches_at(target, entries, i));
                assert forall|j: int| 0 <= j < i implies !#[trigger] matches_at(target, entries, j) by {
                    assert(!matches_at(target, head, j));
                }
            },
            None => {
                assert forall|j: int| 0 <= j < n implies !#[trigger] matches_at(target, entries, j) by {
                    assert(!matches_at(target, head, j));
                }
                if matches_at(target, entries, n) {
                    assert(first_match(target, entries) == Some(n));
                } else {
                    assert(first_match(target, entries) is None);
                    assert forall|j: int| 0 <= j < entries.len() implies !#[trigger] matches_at(
                        target,
                        entries,
                        j,
                    ) by {
                        if j < n {
                            assert(!matches_at(target, head, j));
                        }
                    }
                }
            },
        }
    }
}

} // verus!
