//! Where cached responses live: one directory per namespace under the
//! configured cache directory, one file per cache key.

use crate::config::Config;
use vstd::prelude::*;

verus! {

/// The directory of namespace `ns` under the cache directory `dir`.
pub open spec fn spec_ns_dir(dir: Seq<char>, ns: Seq<char>) -> Seq<char> {
    dir + "/"@ + ns
}

/// The file of cache key `key` in namespace `ns` under `dir`.
pub open spec fn spec_cache_path(dir: Seq<char>, ns: Seq<char>, key: Seq<char>) -> Seq<char> {
    dir + "/"@ + ns + "/"@ + key
}

/// The configured cache directory.
pub fn cache_dir(config: &Config) -> (res: &str)
    ensures
        res@ == config.cache_dir@,
{
    config.cache_dir.as_str()
}

/// The directory that holds namespace `ns`.
pub fn cache_ns_dir(config: &Config, ns: &str) -> (res: String)
    ensures
        res@ == spec_ns_dir(config.cache_dir@, ns@),
{
    let mut dir = String::from_str(cache_dir(config));
    dir.append("/");
    dir.append(ns);
    dir
}

/// The file that holds the entry `key` of namespace `ns`.
pub fn cache_key_to_path(config: &Config, ns: &str, key: &str) -> (res: String)
    ensures
        res@ == spec_cache_path(config.cache_dir@, ns@, key@),
{
    let mut path = String::from_str(cache_dir(config));
    path.append("/");
    path.append(ns);
    path.append("/");
    path.append(key);
    path
}

/// Every cache file lies directly in its namespace's directory.
pub proof fn lemma_path_in_ns_dir(dir: Seq<char>, ns: Seq<char>, key: Seq<char>)
    ensures
        spec_cache_path(dir, ns, key) == spec_ns_dir(dir, ns) + "/"@ + key,
{
}

/// Different keys of one namespace are stored in different files.
pub proof fn lemma_paths_distinct(dir: Seq<char>, ns: Seq<char>, k1: Seq<char>, k2: Seq<char>)
    ensures
        spec_cache_path(dir, ns, k1) == spec_cache_path(dir, ns, k2) ==> k1 == k2,
{
    let prefix = dir + "/"@ + ns + "/"@;
    if spec_cache_path(dir, ns, k1) == spec_cache_path(dir, ns, k2) {
        assert(k1 =~= spec_cache_path(dir, ns, k1).skip(prefix.len() as int));
        assert(k2 =~= spec_cache_path(dir, ns, k2).skip(prefix.len() as int));
    }
}

} // verus!
