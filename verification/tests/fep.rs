use rat::cli::ParsedArgs;
use rat::config::Config;
use rat::dirs::WorkingDirectory;
use rat::fep::{fep_usage_requested, plan_fep, resolve_timeout, FepPlan};

fn instance_with_options(options: &[(&str, &[&str])]) -> ParsedArgs {
    ParsedArgs {
        payload: vec!["echo".to_string()],
        options: options
            .iter()
            .map(|(k, v)| (k.to_string(), v.iter().map(|s| s.to_string()).collect()))
            .collect(),
    }
}

#[test]
fn timeout_flag_wins_over_config() {
    let instance = instance_with_options(&[("timeout", &["10"])]);
    let config = Config { time_out: Some(99), ..Default::default() };
    assert_eq!(resolve_timeout(&instance, &config).secs, Some(10));
}

#[test]
fn falls_back_to_config_when_flag_absent() {
    let instance = instance_with_options(&[]);
    let config = Config { time_out: Some(45), ..Default::default() };
    assert_eq!(resolve_timeout(&instance, &config).secs, Some(45));
}

#[test]
fn none_when_neither_flag_nor_config_present() {
    let instance = instance_with_options(&[]);
    assert_eq!(resolve_timeout(&instance, &Config::default()).secs, None);
}

#[test]
fn invalid_flag_value_degrades_to_no_timeout_instead_of_panicking() {
    let instance = ParsedArgs {
        payload: vec!["echo".to_string()],
        options: vec![("timeout".to_string(), vec!["not-a-number".to_string()])],
    };
    let config = Config { time_out: Some(45), ..Default::default() };
    // flag presence still takes precedence over config, even though its
    // value can't be used - it does NOT fall back to the config value.
    let choice = resolve_timeout(&instance, &config);
    assert_eq!(choice.secs, None);
    assert!(choice.invalid_flag);
}

#[test]
fn timeout_flag_without_value_is_invalid() {
    let instance = instance_with_options(&[("timeout", &[])]);
    let config = Config { time_out: Some(45), ..Default::default() };
    let choice = resolve_timeout(&instance, &config);
    assert_eq!(choice.secs, None);
    assert!(choice.invalid_flag);
}

#[test]
fn negative_configured_timeout_gives_none() {
    let instance = instance_with_options(&[]);
    let config = Config { time_out: Some(-3), ..Default::default() };
    let choice = resolve_timeout(&instance, &config);
    assert_eq!(choice.secs, None);
    assert!(!choice.invalid_flag);
}

#[test]
fn empty_payload_shows_usage() {
    let instance = ParsedArgs { payload: vec![], options: vec![("local".to_string(), vec![])] };
    assert!(matches!(plan_fep(&instance, &Config::default()), FepPlan::Usage));
}

#[test]
fn dash_h_payload_shows_usage_instead_of_running() {
    let instance = ParsedArgs { payload: vec!["-h".to_string()], options: vec![("local".to_string(), vec![])] };
    assert!(matches!(plan_fep(&instance, &Config::default()), FepPlan::Usage));
}

#[test]
fn other_single_words_run_as_commands() {
    for word in ["help", "h", "--help", "-H", "HELP", "ls"] {
        let instance = ParsedArgs { payload: vec![word.to_string()], options: vec![] };
        assert!(!fep_usage_requested(&instance.payload), "{word}");
        match plan_fep(&instance, &Config::default()) {
            FepPlan::Run(run) => assert_eq!(run.command, word),
            FepPlan::Usage => panic!("{word} should run"),
        }
    }
    let instance = ParsedArgs { payload: vec!["-h".to_string(), "x".to_string()], options: vec![] };
    assert!(!fep_usage_requested(&instance.payload));
}

#[test]
fn plan_joins_the_payload_and_reads_the_options() {
    let instance = ParsedArgs {
        payload: vec!["git".to_string(), "status".to_string(), "-s".to_string()],
        options: vec![
            ("skip".to_string(), vec!["foo".to_string(), "bar".to_string()]),
            ("sustain".to_string(), vec![]),
            ("timeout".to_string(), vec!["5".to_string()]),
        ],
    };
    let config = Config {
        default_folder: Some("/work".to_string()),
        ignored_folders: Some(vec![".git".to_string()]),
        time_out: Some(30),
    };
    match plan_fep(&instance, &config) {
        FepPlan::Run(run) => {
            assert_eq!(run.command, "git status -s");
            assert_eq!(run.working_directory, WorkingDirectory::Configured("/work".to_string()));
            assert_eq!(run.ignored, Some(vec![".git".to_string()]));
            assert_eq!(run.skip, Some(vec!["foo".to_string(), "bar".to_string()]));
            assert_eq!(run.only, None);
            assert!(run.sustain);
            assert_eq!(run.timeout.secs, Some(5));
            assert!(!run.timeout.invalid_flag);
        }
        FepPlan::Usage => panic!("expected a run"),
    }
}

#[test]
fn local_flag_overrides_the_default_folder_in_a_plan() {
    let instance = ParsedArgs {
        payload: vec!["ls".to_string()],
        options: vec![("local".to_string(), vec![])],
    };
    let config = Config { default_folder: Some("/work".to_string()), ..Default::default() };
    match plan_fep(&instance, &config) {
        FepPlan::Run(run) => {
            assert_eq!(run.working_directory, WorkingDirectory::Current);
            assert!(!run.sustain);
            assert_eq!(run.timeout.secs, None);
        }
        FepPlan::Usage => panic!("expected a run"),
    }
}

#[test]
fn option_lookup_takes_the_first_entry_of_a_name() {
    let instance = ParsedArgs {
        payload: vec![],
        options: vec![
            ("only".to_string(), vec!["a".to_string()]),
            ("only".to_string(), vec!["b".to_string()]),
        ],
    };
    assert_eq!(instance.option_values("only"), Some(&vec!["a".to_string()]));
    assert_eq!(instance.option_values("skip"), None);
    assert!(instance.has_option("only"));
    assert!(!instance.has_option("Only"));
}
