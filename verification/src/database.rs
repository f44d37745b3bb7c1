//! The collected records and the file they are saved in.

use crate::beer::Beer;
use crate::config::Config;
use vstd::prelude::*;

verus! {

/// Everything that a synchronisation collected: beers, ciders and meads.
#[derive(Debug)]
pub struct Database {
    pub beers: Vec<Beer>,
    pub ciders: Vec<Beer>,
    pub meads: Vec<Beer>,
}

impl Database {
    /// The file of the database: `database.json` in the cache directory.
    pub open spec fn spec_path(cache_dir: Seq<char>) -> Seq<char> {
        cache_dir + "/"@ + "database.json"@
    }

    /// The file of the database.
    pub fn path(config: &Config) -> (res: String)
        ensures
            res@ == Self::spec_path(config.cache_dir@),
    {
        let mut path = String::from_str(config.cache_dir.as_str());
        path.append("/");
        path.append("database.json");
        path
    }
}

} // verus!
