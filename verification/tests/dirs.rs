use rat::dirs::{
    assume_working_directory, filter_available_directories, keeps_directory, remove_target_directories,
    select_target_directories, WorkingDirectory,
};

fn strings(items: &[&str]) -> Vec<String> {
    items.iter().map(|s| s.to_string()).collect()
}

fn paths(items: &[&str]) -> Vec<String> {
    strings(items)
}

#[test]
fn local_flag_forces_cwd_even_with_default_folder() {
    let result = assume_working_directory(true, Some("/configured/default"));
    assert_eq!(result, WorkingDirectory::Current);
}

#[test]
fn default_folder_wins_when_local_not_set() {
    let result = assume_working_directory(false, Some("/configured/default"));
    assert_eq!(result, WorkingDirectory::Configured("/configured/default".to_string()));
}

#[test]
fn falls_back_to_cwd_when_nothing_configured() {
    let result = assume_working_directory(false, None);
    assert_eq!(result, WorkingDirectory::Current);
}

#[test]
fn no_filters_passes_through_unchanged() {
    let all = paths(&["/w/api", "/w/web", "/w/.git"]);
    let result = filter_available_directories(all.clone(), None, None, None);
    assert_eq!(result, all);
}

#[test]
fn ignored_folders_are_removed() {
    let all = paths(&["/w/api", "/w/web", "/w/.git"]);
    let result = filter_available_directories(all, Some(&strings(&[".git"])), None, None);
    assert_eq!(result, paths(&["/w/api", "/w/web"]));
}

#[test]
fn skip_is_applied_when_only_absent() {
    let all = paths(&["/w/api", "/w/web", "/w/docs"]);
    let result = filter_available_directories(all, None, Some(&strings(&["web"])), None);
    assert_eq!(result, paths(&["/w/api", "/w/docs"]));
}

#[test]
fn skip_is_ignored_entirely_when_only_present() {
    let all = paths(&["/w/api", "/w/web", "/w/docs"]);
    let result = filter_available_directories(
        all,
        None,
        Some(&strings(&["api"])),
        Some(&strings(&["web"])),
    );
    // "api" skip has no effect at all; only "web" survives via `only`.
    assert_eq!(result, paths(&["/w/web"]));
}

#[test]
fn only_selects_matching_directories() {
    let all = paths(&["/w/api", "/w/web", "/w/docs"]);
    let result = filter_available_directories(all, None, None, Some(&strings(&["api", "web"])));
    assert_eq!(result, paths(&["/w/api", "/w/web"]));
}

#[test]
fn all_three_filters_compose() {
    let all = paths(&["/w/api", "/w/web", "/w/.git", "/w/docs"]);
    let result = filter_available_directories(
        all,
        Some(&strings(&[".git"])),
        None,
        Some(&strings(&["api", "web", "docs"])),
    );
    assert_eq!(result, paths(&["/w/api", "/w/web", "/w/docs"]));
}

#[test]
fn matching_is_by_substring_of_the_whole_path() {
    let all = paths(&["/home/web/api", "/w/website", "/w/docs"]);
    let result = remove_target_directories(all, &strings(&["web"]));
    assert_eq!(result, paths(&["/w/docs"]));
}

#[test]
fn empty_pattern_matches_every_directory() {
    let all = paths(&["/w/api", "/w/web"]);
    assert_eq!(remove_target_directories(all.clone(), &strings(&[""])), Vec::<String>::new());
    assert_eq!(select_target_directories(all.clone(), &strings(&[""])), all);
}

#[test]
fn no_patterns_select_nothing_and_remove_nothing() {
    let all = paths(&["/w/api", "/w/web"]);
    assert_eq!(remove_target_directories(all.clone(), &[]), all);
    assert_eq!(select_target_directories(all, &[]), Vec::<String>::new());
}

#[test]
fn remove_and_select_split_the_listing() {
    let all = paths(&["/w/api", "/w/web", "/w/docs", "/w/api-docs"]);
    let pats = strings(&["api"]);
    let removed = remove_target_directories(all.clone(), &pats);
    let selected = select_target_directories(all.clone(), &pats);
    assert_eq!(removed, paths(&["/w/web", "/w/docs"]));
    assert_eq!(selected, paths(&["/w/api", "/w/api-docs"]));
    assert_eq!(removed.len() + selected.len(), all.len());
    assert!(removed.iter().all(|d| !selected.contains(d)));
}

#[test]
fn removing_twice_is_removing_once() {
    let all = paths(&["/w/api", "/w/web", "/w/docs"]);
    let pats = strings(&["web", "docs"]);
    let once = remove_target_directories(all, &pats);
    let twice = remove_target_directories(once.clone(), &pats);
    assert_eq!(once, twice);
    let selected = select_target_directories(paths(&["/w/api", "/w/web"]), &pats);
    assert_eq!(select_target_directories(selected.clone(), &pats), selected);
}

#[test]
fn order_of_the_listing_is_kept() {
    let all = paths(&["/w/zeta", "/w/alpha", "/w/mid"]);
    let result = filter_available_directories(all, None, Some(&strings(&["mid"])), None);
    assert_eq!(result, paths(&["/w/zeta", "/w/alpha"]));
}

#[test]
fn non_ascii_paths_are_matched_by_characters() {
    let all = paths(&["/w/über", "/w/naïve", "/w/plain"]);
    let result = select_target_directories(all, &strings(&["ü", "ï"]));
    assert_eq!(result, paths(&["/w/über", "/w/naïve"]));
}

#[test]
fn one_directory_at_a_time_agrees_with_the_whole_listing() {
    let all = paths(&["/w/api", "/w/web", "/w/.git", "/w/docs", "/w/api-web"]);
    let ig = strings(&[".git"]);
    let sk = strings(&["docs"]);
    let on = strings(&["api"]);
    let cases: Vec<(Option<&[String]>, Option<&[String]>, Option<&[String]>)> = vec![
        (None, None, None),
        (Some(&ig), None, None),
        (Some(&ig), Some(&sk), None),
        (None, Some(&sk), Some(&on)),
        (Some(&ig), Some(&sk), Some(&on)),
    ];
    for (i, s, o) in cases {
        let whole = filter_available_directories(all.clone(), i, s, o);
        let one_by_one: Vec<String> = all.iter().filter(|d| keeps_directory(d, i, s, o)).cloned().collect();
        assert_eq!(whole, one_by_one);
    }
}
