use vstd::prelude::*;
use crate::text::str_equals;

verus! {

/// A parsed command line: the free-standing words (the payload) and the named options, each
/// with the values given after its name.
#[derive(Clone, Debug)]
pub struct ParsedArgs {
    pub payload: Vec<String>,
    pub options: Vec<(String, Vec<String>)>,
}

/// The values recorded for the option `name`: those of its first entry, or `None` when no
/// entry has that name.
pub open spec fn option_lookup(options: Seq<(String, Vec<String>)>, name: Seq<char>) -> Option<Seq<String>>
    decreases options.len(),
{
    if options.len() == 0 {
        None
    } else if options[0].0@ == name {
        Some(options[0].1@)
    } else {
        option_lookup(options.drop_first(), name)
    }
}

/// No option name occurs twice, as in a map from names to values.
pub open spec fn options_distinct(options: Seq<(String, Vec<String>)>) -> bool {
    forall|i: int, j: int| 0 <= i < j < options.len() ==> #[trigger] options[i].0@ != #[trigger] options[j].0@
}

/// With distinct names the options behave as a map: looking a name up gives the values of the
/// one entry that has it.
pub proof fn lemma_lookup_in_distinct_options(options: Seq<(String, Vec<String>)>, k: int)
    requires
        options_distinct(options),
        0 <= k < options.len(),
    ensures
        option_lookup(options, options[k].0@) == Some(options[k].1@),
    decreases k,
{
    if k > 0 {
        assert(options[0].0@ != options[k].0@);
        let rest = options.drop_first();
        assert(rest[k - 1] == options[k]);
        assert(options_distinct(rest)) by {
            assert forall|i: int, j: int| 0 <= i < j < rest.len() implies #[trigger] rest[i].0@ != #[trigger] rest[j].0@ by {
                assert(rest[i] == options[i + 1]);
                assert(rest[j] == options[j + 1]);
            }
        }
        lemma_lookup_in_distinct_options(rest, k - 1);
    }
}

/// A lookup finds the first entry with the name, and finds nothing only when no entry has it.
pub proof fn lemma_option_lookup_finds_first(options: Seq<(String, Vec<String>)>, name: Seq<char>)
    ensures
        option_lookup(options, name) is None <==> forall|i: int| 0 <= i < options.len() ==> #[trigger] options[i].0@ != name,
        option_lookup(options, name) matches Some(v) ==> exists|i: int| 0 <= i < options.len() && #[trigger] options[i].0@ == name
            && options[i].1@ == v && forall|j: int| 0 <= j < i ==> #[trigger] options[j].0@ != name,
    decreases options.len(),
{
    if options.len() > 0 {
        let rest = options.drop_first();
        lemma_option_lookup_finds_first(rest, name);
        if options[0].0@ != name {
            assert forall|i: int| 0 <= i < rest.len() implies rest[i] == options[i + 1] by {}
            if let Some(v) = option_lookup(options, name) {
                let i = choose|i: int| 0 <= i < rest.len() && #[trigger] rest[i].0@ == name && rest[i].1@ == v
                    && forall|j: int| 0 <= j < i ==> #[trigger] rest[j].0@ != name;
                assert(options[i + 1].0@ == name);
                assert forall|j: int| 0 <= j < i + 1 implies #[trigger] options[j].0@ != name by {
                    if j > 0 {
                        assert(options[j] == rest[j - 1]);
                    }
                }
            } else {
                assert forall|i: int| 0 <= i < options.len() implies #[trigger] options[i].0@ != name by {
                    if i > 0 {
                        assert(options[i] == rest[i - 1]);
                    }
                }
            }
        } else {
            assert(options[0].0@ == name);
        }
    }
}

impl ParsedArgs {
    /// The values given for the option `name`, or `None` when it was not given.
    pub fn option_values(&self, name: &str) -> (r: Option<&Vec<String>>)
        ensures
            match r {
                Some(v) => option_lookup(self.options@, name@) == Some(v@),
                None => option_lookup(self.options@, name@) is None,
            },
    {
        let n = self.options.len();
        let mut i: usize = 0;
        assert(self.options@.skip(0) =~= self.options@);
        while i < n
            invariant
                i <= n,
                n == self.options@.len(),
                option_lookup(self.options@, name@) == option_lookup(self.options@.skip(i as int), name@),
            decreases n - i,
        {
            assert(self.options@.skip(i as int)[0] == self.options@[i as int]);
            assert(self.options@.skip(i as int).drop_first() =~= self.options@.skip(i + 1));
            if str_equals(self.options[i].0.as_str(), name) {
                return Some(&self.options[i].1);
            }
            i = i + 1;
        }
        None
    }

    /// Whether the option `name` was given.
    pub fn has_option(&self, name: &str) -> (r: bool)
        ensures
            r == option_lookup(self.options@, name@) is Some,
    {
        self.option_values(name).is_some()
    }
}

} // verus!
