use vstd::prelude::*;

verus! {

/// The persisted settings: a default working folder, folders that are always ignored, and a
/// timeout in seconds (`None` for no timeout).
#[derive(Clone, Debug)]
pub struct Config {
    pub default_folder: Option<String>,
    pub ignored_folders: Option<Vec<String>>,
    pub time_out: Option<i32>,
}

impl Default for Config {
    fn default() -> (r: Self)
        ensures
            r.default_folder is None,
            r.ignored_folders is None,
            r.time_out is None,
    {
        Config { default_folder: None, ignored_folders: None, time_out: None }
    }
}

} // verus!
