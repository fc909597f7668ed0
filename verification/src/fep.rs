use vstd::prelude::*;
use crate::cli::{ParsedArgs, lemma_option_lookup_finds_first, option_lookup};
use crate::config::Config;
use crate::dirs::{WorkingDirectory, assume_working_directory, is_working_directory_for};
use crate::text::{copy_strings, join_with_spaces, joined, parse_u64, parse_u64_spec, str_equals, texts};

verus! {

/// The timeout a run uses, in seconds (`None` for no timeout), and whether a `--timeout` flag
/// was given without a usable value (the caller then warns that it is ignored).
#[derive(Clone, Copy, Debug, PartialEq, Eq)]
pub struct TimeoutChoice {
    pub secs: Option<u64>,
    pub invalid_flag: bool,
}

/// The seconds a `--timeout` flag gives: its first value read as a `u64`.
pub open spec fn flag_timeout(values: Seq<String>) -> Option<u64> {
    if values.len() > 0 { parse_u64_spec(values[0]@) } else { None }
}

/// The seconds a configured timeout gives: a negative one gives none.
pub open spec fn config_timeout(time_out: Option<i32>) -> Option<u64> {
    match time_out {
        Some(t) => if t >= 0 { Some(t as u64) } else { None },
        None => None,
    }
}

/// The timeout of a run: an explicit `--timeout` flag always wins over the configured value
/// and is never blended with it, even when its value cannot be read.
pub open spec fn resolved_timeout(options: Seq<(String, Vec<String>)>, time_out: Option<i32>) -> TimeoutChoice {
    match option_lookup(options, "timeout"@) {
        Some(values) => TimeoutChoice { secs: flag_timeout(values), invalid_flag: flag_timeout(values) is None },
        None => TimeoutChoice { secs: config_timeout(time_out), invalid_flag: false },
    }
}

/// Picks the timeout of a `fep` run from the command line and the configuration.
pub fn resolve_timeout(instance: &ParsedArgs, config: &Config) -> (r: TimeoutChoice)
    ensures
        r == resolved_timeout(instance.options@, config.time_out),
{
    if let Some(values) = instance.option_values("timeout") {
        let secs = if values.len() > 0 { parse_u64(values[0].as_str()) } else { None };
        return TimeoutChoice { secs, invalid_flag: secs.is_none() };
    }
    let secs = match config.time_out {
        Some(t) => if t >= 0 { Some(t as u64) } else { None },
        None => None,
    };
    TimeoutChoice { secs, invalid_flag: false }
}

/// `fep` shows its usage instead of running: no command was given, or the whole command is
/// the single word `-h`.
pub open spec fn usage_requested(payload: Seq<String>) -> bool {
    payload.len() == 0 || (payload.len() == 1 && payload[0]@ == "-h"@)
}

/// Whether `fep` should show its usage instead of running anything.
pub fn fep_usage_requested(payload: &Vec<String>) -> (r: bool)
    ensures
        r == usage_requested(payload@),
{
    payload.len() == 0 || (payload.len() == 1 && str_equals(payload[0].as_str(), "-h"))
}

/// What `rat fep` does with a parsed command line and the configuration.
#[derive(Debug)]
pub enum FepPlan {
    /// Print the usage line and stop.
    Usage,
    /// Run `command` in every subdirectory of the working directory that the filters keep.
    Run(FepRun),
}

/// The settings of a `fep` run.
#[derive(Debug)]
pub struct FepRun {
    pub working_directory: WorkingDirectory,
    pub ignored: Option<Vec<String>>,
    pub skip: Option<Vec<String>>,
    pub only: Option<Vec<String>>,
    pub command: String,
    pub sustain: bool,
    pub timeout: TimeoutChoice,
}

/// The contents of an optional list of strings.
pub open spec fn opt_strings(o: Option<Vec<String>>) -> Option<Seq<String>> {
    match o {
        Some(v) => Some(v@),
        None => None,
    }
}

/// The text of an optional string.
pub open spec fn opt_text(o: Option<String>) -> Option<Seq<char>> {
    match o {
        Some(s) => Some(s@),
        None => None,
    }
}

/// The settings of a run are those that the command line and the configuration give.
pub open spec fn run_matches(run: FepRun, instance: ParsedArgs, config: Config) -> bool {
    &&& is_working_directory_for(
        run.working_directory,
        option_lookup(instance.options@, "local"@) is Some,
        opt_text(config.default_folder),
    )
    &&& opt_strings(run.ignored) == opt_strings(config.ignored_folders)
    &&& opt_strings(run.skip) == option_lookup(instance.options@, "skip"@)
    &&& opt_strings(run.only) == option_lookup(instance.options@, "only"@)
    &&& run.command@ == joined(texts(instance.payload@), " "@)
    &&& run.sustain == (option_lookup(instance.options@, "sustain"@) is Some)
    &&& run.timeout == resolved_timeout(instance.options@, config.time_out)
}

fn copy_opt_strings(o: Option<&Vec<String>>) -> (r: Option<Vec<String>>)
    ensures
        opt_strings(r) == match o {
            Some(v) => Some(v@),
            None => None::<Seq<String>>,
        },
{
    match o {
        Some(v) => Some(copy_strings(v)),
        None => None,
    }
}

/// Decides what `rat fep` does: show its usage when no command (or only a request for help)
/// was given, else run the joined payload in the chosen working directory with the filters,
/// `--sustain` flag and timeout that the command line and configuration give.
pub fn plan_fep(instance: &ParsedArgs, config: &Config) -> (r: FepPlan)
    ensures
        usage_requested(instance.payload@) <==> r is Usage,
        r matches FepPlan::Run(run) ==> run_matches(run, *instance, *config),
{
    if fep_usage_requested(&instance.payload) {
        return FepPlan::Usage;
    }
    let local_flag = instance.has_option("local");
    let default_folder: Option<&str> = match &config.default_folder {
        Some(f) => Some(f.as_str()),
        None => None,
    };
    let working_directory = assume_working_directory(local_flag, default_folder);
    let ignored = copy_opt_strings(config.ignored_folders.as_ref());
    let skip = copy_opt_strings(instance.option_values("skip"));
    let only = copy_opt_strings(instance.option_values("only"));
    let command = join_with_spaces(&instance.payload);
    let sustain = instance.has_option("sustain");
    let timeout = resolve_timeout(instance, config);
    FepPlan::Run(FepRun { working_directory, ignored, skip, only, command, sustain, timeout })
}

/// An explicit `--timeout` flag wins over the configuration: with the flag given, the
/// configured timeout makes no difference.
pub proof fn lemma_timeout_flag_wins(options: Seq<(String, Vec<String>)>, a: Option<i32>, b: Option<i32>)
    requires
        option_lookup(options, "timeout"@) is Some,
    ensures
        resolved_timeout(options, a) == resolved_timeout(options, b),
{
}

/// A `--timeout` flag whose value cannot be read gives no timeout (and a warning), and never
/// falls back to the configured value.
pub proof fn lemma_invalid_flag_gives_no_timeout(options: Seq<(String, Vec<String>)>, time_out: Option<i32>)
    requires
        option_lookup(options, "timeout"@) is Some,
        flag_timeout(option_lookup(options, "timeout"@)->0) is None,
    ensures
        resolved_timeout(options, time_out).secs is None,
        resolved_timeout(options, time_out).invalid_flag,
{
}

/// `fep` shows its usage only for an empty command or the lone word `-h`: a command of two or
/// more words always runs, and so does any other single word.
pub proof fn lemma_usage_only_for_empty_or_lone_dash_h(payload: Seq<String>)
    ensures
        payload.len() == 0 ==> usage_requested(payload),
        payload.len() == 1 && payload[0]@ == "-h"@ ==> usage_requested(payload),
        payload.len() == 1 && payload[0]@ != "-h"@ ==> !usage_requested(payload),
        payload.len() >= 2 ==> !usage_requested(payload),
{
}

/// Without a `--timeout` flag the configured timeout is used, whatever other options are
/// given: a non-negative one as that many seconds, otherwise none, and never with a warning.
pub proof fn lemma_config_timeout_used_without_flag(options: Seq<(String, Vec<String>)>, time_out: Option<i32>)
    requires
        option_lookup(options, "timeout"@) is None,
    ensures
        time_out matches Some(t) ==> (t >= 0 ==> resolved_timeout(options, time_out).secs == Some(t as u64)),
        time_out matches Some(t) ==> (t < 0 ==> resolved_timeout(options, time_out).secs is None),
        time_out is None ==> resolved_timeout(options, time_out).secs is None,
        !resolved_timeout(options, time_out).invalid_flag,
{
}

/// Options other than `--timeout` never change the timeout: two command lines without the flag
/// resolve to the same timeout under the same configuration.
pub proof fn lemma_other_options_do_not_change_timeout(
    a: Seq<(String, Vec<String>)>,
    b: Seq<(String, Vec<String>)>,
    time_out: Option<i32>,
)
    requires
        option_lookup(a, "timeout"@) is None,
        option_lookup(b, "timeout"@) is None,
    ensures
        resolved_timeout(a, time_out) == resolved_timeout(b, time_out),
{
}

/// A planned run follows the command line: `--local` anywhere on it means the current
/// directory, `--sustain` anywhere on it turns sustain on (and only then), `--skip` and
/// `--only` hand over the values given with them, and a one-word command is that word.
pub proof fn lemma_run_follows_command_line(run: FepRun, instance: ParsedArgs, config: Config)
    requires
        run_matches(run, instance, config),
    ensures
        (exists|i: int| 0 <= i < instance.options@.len() && #[trigger] instance.options@[i].0@ == "local"@)
            ==> run.working_directory == WorkingDirectory::Current,
        run.sustain <==> exists|i: int| 0 <= i < instance.options@.len() && #[trigger] instance.options@[i].0@ == "sustain"@,
        run.skip is None <==> forall|i: int| 0 <= i < instance.options@.len() ==> #[trigger] instance.options@[i].0@ != "skip"@,
        run.only is None <==> forall|i: int| 0 <= i < instance.options@.len() ==> #[trigger] instance.options@[i].0@ != "only"@,
        instance.payload@.len() == 1 ==> run.command@ == instance.payload@[0]@,
{
    lemma_option_lookup_finds_first(instance.options@, "local"@);
    lemma_option_lookup_finds_first(instance.options@, "sustain"@);
    lemma_option_lookup_finds_first(instance.options@, "skip"@);
    lemma_option_lookup_finds_first(instance.options@, "only"@);
    if instance.payload@.len() == 1 {
        assert(texts(instance.payload@) =~= seq![instance.payload@[0]@]);
    }
}

} // verus!
