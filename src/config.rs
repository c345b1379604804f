//! Settings of a run: the project configuration file and the command line.
use vstd::prelude::*;
use crate::script::RunnerConfig;
use crate::engine::{match_pattern, regex_compiles, regex_finds};
use crate::text::join2;

verus! {

/// Command-line arguments.
pub struct OcdArgs {
    /// The path to the folder of the project.
    pub folder_path: String,
    /// The Java path to the main class.
    pub main_class: String,
    /// The path to the folder holding the interaction files.
    pub interactions_path: String,
    /// A pattern for the names of interaction files.
    pub pattern: Option<String>,
    /// Whether to run interactions concurrently.
    pub threads: Option<bool>,
}

/// The project configuration file.
pub struct OcdConfig {
    pub class_path: String,
    pub main_class: String,
    pub interaction: OcdInteractionConfig,
    pub runner: OcdRunnerConfig,
}

/// Where the interaction files are.
pub struct OcdInteractionConfig {
    pub path: String,
    /// A pattern for the names of interaction files.
    pub pattern: Option<String>,
}

/// How interactions are run.
pub struct OcdRunnerConfig {
    /// Interactions in flight at once; 0 runs them one at a time.
    pub thread_count: Option<u64>,
    /// Longest wait for a line of output, in milliseconds.
    pub timeout: Option<u64>,
}

impl Default for OcdRunnerConfig {
    fn default() -> (r: Self)
        ensures
            r.thread_count is None,
            r.timeout is None,
    {
        OcdRunnerConfig { thread_count: None, timeout: None }
    }
}

/// The wait for a line of output when the configuration names none.
pub const DEFAULT_TIMEOUT_MILLIS: u64 = 1000;

/// Relies on `Duration::from_millis`, which never fails.
pub assume_specification[ std::time::Duration::from_millis ](millis: u64) -> std::time::Duration;

impl OcdRunnerConfig {
    /// Interactions in flight at once, sequential by default.
    pub fn thread_count_or_default(&self) -> (r: u64)
        ensures
            r == match self.thread_count {
                Some(n) => n,
                None => 0,
            },
    {
        match self.thread_count {
            Some(n) => n,
            None => 0,
        }
    }

    /// The read timeout in milliseconds, one second by default.
    pub fn timeout_or_default(&self) -> (r: u64)
        ensures
            r == match self.timeout {
                Some(t) => t,
                None => DEFAULT_TIMEOUT_MILLIS,
            },
    {
        match self.timeout {
            Some(t) => t,
            None => DEFAULT_TIMEOUT_MILLIS,
        }
    }
}

/// The patterns for interaction file names: the configured one, or any
/// `.txt` file.
pub open spec fn file_patterns_spec(pattern: Option<Seq<char>>) -> Seq<Seq<char>> {
    match pattern {
        Some(p) => seq![p],
        None => seq![".*\\.txt"@],
    }
}

impl OcdInteractionConfig {
    pub fn file_patterns(&self) -> (r: Vec<String>)
        ensures
            r@.map_values(|s: String| s@) == file_patterns_spec(
                match self.pattern {
                    Some(p) => Some(p@),
                    None => None,
                },
            ),
    {
        let mut r: Vec<String> = Vec::new();
        match &self.pattern {
            Some(p) => r.push(p.clone()),
            None => r.push(String::from_str(".*\\.txt")),
        }
        assert(r@.map_values(|s: String| s@) =~= seq![r@[0]@]);
        r
    }
}

impl OcdConfig {
    /// Launches `java` on the main class, with `class_path` (the configured
    /// class path made absolute) as its class path.
    pub fn runner_config(&self, class_path: String) -> (r: RunnerConfig)
        ensures
            r.command@ == "java"@,
            r.arguments@.len() == 3,
            r.arguments@[0]@ == "-classpath"@,
            r.arguments@[1]@ == class_path@,
            r.arguments@[2]@ == self.main_class@,
    {
        let millis = self.runner.timeout_or_default();
        let mut arguments: Vec<String> = Vec::new();
        arguments.push(String::from_str("-classpath"));
        arguments.push(class_path);
        arguments.push(self.main_class.clone());
        RunnerConfig {
            command: String::from_str("java"),
            arguments,
            timeout: std::time::Duration::from_millis(millis),
        }
    }
}

/// The alternatives joined with `|`.
pub open spec fn alternatives(patterns: Seq<Seq<char>>) -> Seq<char>
    decreases patterns.len(),
{
    if patterns.len() == 0 {
        Seq::empty()
    } else if patterns.len() == 1 {
        patterns[0]
    } else {
        alternatives(patterns.drop_last()) + "|"@ + patterns.last()
    }
}

/// One pattern that matches a whole file name when any of `patterns` does.
pub open spec fn file_pattern_spec(patterns: Seq<Seq<char>>) -> Seq<char> {
    "^("@ + alternatives(patterns) + ")$"@
}

pub fn file_pattern(patterns: &Vec<String>) -> (r: String)
    ensures
        r@ == file_pattern_spec(patterns@.map_values(|s: String| s@)),
{
    let ghost all = patterns@.map_values(|s: String| s@);
    let mut joined = String::new();
    let mut i: usize = 0;
    while i < patterns.len()
        invariant
            i <= patterns@.len(),
            all == patterns@.map_values(|s: String| s@),
            joined@ == alternatives(all.subrange(0, i as int)),
        decreases patterns@.len() - i,
    {
        assert(all.subrange(0, i + 1).drop_last() =~= all.subrange(0, i as int));
        if i > 0 {
            joined.append("|");
        } else {
            assert(all.subrange(0, 0) =~= Seq::<Seq<char>>::empty());
            assert(Seq::<char>::empty() + patterns@[0]@ =~= patterns@[0]@);
        }
        joined.append(patterns[i].as_str());
        i = i + 1;
    }
    assert(all.subrange(0, patterns@.len() as int) =~= all);
    let head = join2("^(", joined.as_str());
    join2(head.as_str(), ")$")
}

/// Whether a file name is that of an interaction file; `None` when the
/// patterns do not form a valid regular expression.
pub fn is_interaction_file(patterns: &Vec<String>, file_name: &str) -> (r: Option<bool>)
    ensures
        ({
            let p = file_pattern_spec(patterns@.map_values(|s: String| s@));
            if regex_compiles(p) {
                r == Some(regex_finds(p, file_name@))
            } else {
                r is None
            }
        }),
{
    let pattern = file_pattern(patterns);
    match_pattern(pattern.as_str(), file_name)
}

} // verus!
