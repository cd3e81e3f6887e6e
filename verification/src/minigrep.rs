//! Searching a text for the lines that hold a query.

use crate::text::{contains, lemma_filter_push, lines, lines_of, occurs_in, texts};
use vstd::prelude::*;

verus! {

/// What to search for, where, and how.
pub struct Config {
    query: String,
    filepath: String,
    ignore_case: bool,
}

/// What `str::to_lowercase` of std returns for `text`.
pub uninterp spec fn lowercased(text: Seq<char>) -> Seq<char>;

/// `str::to_lowercase` of std: the lowercase equivalent of `text`, by the
/// Unicode rules that std implements. The contract names the result and
/// claims nothing else of it.
#[verifier::external_body]
fn to_lowercase(text: &str) -> (lower: String)
    ensures
        lower@ == lowercased(text@),
{
    text.to_lowercase()
}

/// Whether `line` holds `query` as it is written.
pub open spec fn holds(line: Seq<char>, query: Seq<char>) -> bool {
    occurs_in(line, query)
}

/// Whether `line` holds `query` when both are put in lowercase.
pub open spec fn holds_ignoring_case(line: Seq<char>, query: Seq<char>) -> bool {
    occurs_in(lowercased(line), lowercased(query))
}

/// The lines of `contents` that hold `query`, in their order.
pub open spec fn search_spec(query: Seq<char>, contents: Seq<char>) -> Seq<Seq<char>> {
    lines_of(contents).filter(|line: Seq<char>| holds(line, query))
}

/// The lines of `contents` that hold `query` whatever the case, in their
/// order.
pub open spec fn search_case_insensitive_spec(query: Seq<char>, contents: Seq<char>) -> Seq<
    Seq<char>,
> {
    lines_of(contents).filter(|line: Seq<char>| holds_ignoring_case(line, query))
}

impl Config {
    /// The text to search for.
    pub closed spec fn spec_query(&self) -> Seq<char> {
        self.query@
    }

    /// The path of the file to search.
    pub closed spec fn spec_filepath(&self) -> Seq<char> {
        self.filepath@
    }

    /// Whether the case of letters is ignored.
    pub closed spec fn spec_ignore_case(&self) -> bool {
        self.ignore_case
    }

    /// Reads the command line: `args[0]` is the program's name, `args[1]`
    /// the query and `args[2]` the file's path; what follows is ignored.
    /// `ignore_case` is whether the environment asks to ignore case.
    pub fn new(args: Vec<String>, ignore_case: bool) -> (r: Result<Config, &'static str>)
        ensures
            args.len() >= 3 <==> r is Ok,
            args.len() < 2 ==> r is Err && r->Err_0@ == "Didn't get a query string"@,
            args.len() == 2 ==> r is Err && r->Err_0@ == "Didn't get a filepath"@,
            r is Ok ==> r->Ok_0.spec_query() == args[1]@ && r->Ok_0.spec_filepath() == args[2]@
                && r->Ok_0.spec_ignore_case() == ignore_case,
    {
        if args.len() < 2 {
            return Err("Didn't get a query string");
        }
        if args.len() < 3 {
            return Err("Didn't get a filepath");
        }
        let query = args[1].clone();
        let filepath = args[2].clone();
        Ok(Config { query, filepath, ignore_case })
    }

    /// The text to search for.
    pub fn query(&self) -> (query: &str)
        ensures
            query@ == self.spec_query(),
    {
        self.query.as_str()
    }

    /// The path of the file to search.
    pub fn filepath(&self) -> (path: &str)
        ensures
            path@ == self.spec_filepath(),
    {
        self.filepath.as_str()
    }

    /// Whether the case of letters is ignored.
    pub fn ignore_case(&self) -> (ignore: bool)
        ensures
            ignore == self.spec_ignore_case(),
    {
        self.ignore_case
    }
}

/// The lines of `contents` that hold `query`, as slices of `contents`.
pub fn search<'a>(query: &str, contents: &'a str) -> (results: Vec<&'a str>)
    ensures
        texts(results@) == search_spec(query@, contents@),
{
    let all = lines(contents);
    let ghost keep = |line: Seq<char>| holds(line, query@);
    let mut results: Vec<&'a str> = Vec::new();
    let mut i: usize = 0;
    proof {
        reveal(Seq::filter);
        assert(texts(all@).take(0) =~= Seq::<Seq<char>>::empty());
    }
    while i < all.len()
        invariant
            texts(all@) == lines_of(contents@),
            keep == |line: Seq<char>| holds(line, query@),
            i <= all.len(),
            texts(results@) == texts(all@).take(i as int).filter(keep),
        decreases all.len() - i,
    {
        let line = all[i];
        let ghost before = results@;
        proof {
            assert(texts(all@).take(i + 1) =~= texts(all@).take(i as int).push(line@));
            lemma_filter_push(texts(all@).take(i as int), line@, keep);
        }
        if contains(line, query) {
            results.push(line);
            proof {
                assert(texts(results@) =~= texts(before).push(line@));
            }
        }
        i += 1;
    }
    proof {
        assert(texts(all@).take(i as int) =~= texts(all@));
    }
    results
}

/// The lines of `contents` that hold `query` whatever the case of the
/// letters in either, as slices of `contents`.
pub fn search_case_insensitive<'a>(query: &str, contents: &'a str) -> (results: Vec<&'a str>)
    ensures
        texts(results@) == search_case_insensitive_spec(query@, contents@),
{
    let wanted = to_lowercase(query);
    let all = lines(contents);
    let ghost keep = |line: Seq<char>| holds_ignoring_case(line, query@);
    let mut results: Vec<&'a str> = Vec::new();
    let mut i: usize = 0;
    proof {
        reveal(Seq::filter);
        assert(texts(all@).take(0) =~= Seq::<Seq<char>>::empty());
    }
    while i < all.len()
        invariant
            texts(all@) == lines_of(contents@),
            keep == |line: Seq<char>| holds_ignoring_case(line, query@),
            wanted@ == lowercased(query@),
            i <= all.len(),
            texts(results@) == texts(all@).take(i as int).filter(keep),
        decreases all.len() - i,
    {
        let line = all[i];
        let lowered = to_lowercase(line);
        let ghost before = results@;
        proof {
            assert(texts(all@).take(i + 1) =~= texts(all@).take(i as int).push(line@));
            lemma_filter_push(texts(all@).take(i as int), line@, keep);
        }
        if contains(lowered.as_str(), wanted.as_str()) {
            results.push(line);
            proof {
                assert(texts(results@) =~= texts(before).push(line@));
            }
        }
        i += 1;
    }
    proof {
        assert(texts(all@).take(i as int) =~= texts(all@));
    }
    results
}

/// The lines of `contents` that the configured search finds: with or
/// without regard to case, as `config` says.
pub fn matching_lines<'a>(config: &Config, contents: &'a str) -> (results: Vec<&'a str>)
    ensures
        texts(results@) == if config.spec_ignore_case() {
            search_case_insensitive_spec(config.spec_query(), contents@)
        } else {
            search_spec(config.spec_query(), contents@)
        },
{
    if config.ignore_case {
        search_case_insensitive(config.query.as_str(), contents)
    } else {
        search(config.query.as_str(), contents)
    }
}

} // verus!
