//! A per-language source-file linter: text rules over file contents,
//! parsers of external linter output, and the aggregation of their findings.
use vstd::prelude::*;

pub mod check_file;
pub mod constants;
pub mod pattern;
pub mod report;
pub mod text;
pub mod utils;

use crate::text::strs;

verus! {

/// The files that a run checks.
pub struct Config {
    pub file_paths: Vec<String>,
}

impl Config {
    /// Takes the files to check from the command-line arguments, the first
    /// of which names the program; an error where no file is given.
    pub fn build(args: &[String]) -> (r: Result<Config, &'static str>)
        ensures
            args@.len() < 2 ==> r == Err::<Config, &'static str>("Not enough arguments"),
            args@.len() >= 2 ==> (r matches Ok(c) && strs(c.file_paths@) == strs(args@.skip(1))),
    {
        if args.len() < 2 {
            return Err("Not enough arguments");
        }
        let mut file_paths: Vec<String> = Vec::new();
        let mut i: usize = 1;
        while i < args.len()
            invariant
                1 <= i <= args@.len(),
                file_paths@.len() == i - 1,
                forall|k: int| 0 <= k < i - 1 ==> #[trigger] file_paths@[k]@ == args@[k + 1]@,
            decreases args@.len() - i,
        {
            let a: &String = &args[i];
            let s = a.clone();
            file_paths.push(s);
            i = i + 1;
        }
        assert(strs(file_paths@) =~= strs(args@.skip(1)));
        Ok(Config { file_paths })
    }
}

} // verus!
