//! Where the library's files live below a base directory.
use vstd::prelude::*;
use crate::text::chars_of;

verus! {

/// File name of the catalog database.
pub const DB_FILE_NAME: &'static str = "database.sqlite";

/// File name of the configuration.
pub const CONFIG_FILE_NAME: &'static str = "config.toml";

/// Directory name that holds one file per subscription.
pub const SUBSCRIPTIONS_DIR_NAME: &'static str = "subscriptions";

/// Directory name, below the base directory, that downloads go to by default.
pub const DEFAULT_DOWNLOAD_BASE_DIR: &'static str = "downloads";

/// `name` below `base`, joined as a Unix path: an absolute `name` stands alone, an empty
/// `base` adds nothing, and a separator is added unless `base` ends with one.
pub open spec fn joined(base: Seq<char>, name: Seq<char>) -> Seq<char> {
    if name.len() > 0 && name[0] == '/' {
        name
    } else if base.len() == 0 {
        name
    } else if base.last() == '/' {
        base + name
    } else {
        base + seq!['/'] + name
    }
}

/// Joins `name` below `base`.
pub fn join_path(base: &str, name: &str) -> (r: String)
    ensures
        r@ == joined(base@, name@),
{
    let b = chars_of(base);
    let n = chars_of(name);
    if n.len() > 0 && n[0] == '/' {
        return String::from_str(name);
    }
    if b.len() == 0 {
        return String::from_str(name);
    }
    let mut out = String::from_str(base);
    if b[b.len() - 1] != '/' {
        out.append("/");
        proof {
            reveal_strlit("/");
        }
    }
    out.append(name);
    out
}

/// The catalog database below the base directory.
pub fn database_path(base_dir: &str) -> (r: String)
    ensures
        r@ == joined(base_dir@, DB_FILE_NAME@),
{
    join_path(base_dir, DB_FILE_NAME)
}

/// The configuration file below the base directory.
pub fn config_file_path(base_dir: &str) -> (r: String)
    ensures
        r@ == joined(base_dir@, CONFIG_FILE_NAME@),
{
    join_path(base_dir, CONFIG_FILE_NAME)
}

/// The subscriptions directory below the base directory.
pub fn subscriptions_path(base_dir: &str) -> (r: String)
    ensures
        r@ == joined(base_dir@, SUBSCRIPTIONS_DIR_NAME@),
{
    join_path(base_dir, SUBSCRIPTIONS_DIR_NAME)
}

} // verus!
