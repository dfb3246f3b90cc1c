use vstd::prelude::*;
use vstd::string::StringExecFns;
use crate::listen_time::{decimal, push_decimal};

verus! {

/// Why a listening history could not be loaded.
#[derive(Clone, Copy, Debug, PartialEq, Eq, Structural)]
pub enum LoadError {
    /// No shard file was found, not even the one with index 0.
    NoDataFiles,
}

/// The name of the shard file with the given index: `endsong_<index>.json`.
pub open spec fn shard_name(index: nat) -> Seq<char> {
    "endsong_"@ + decimal(index) + ".json"@
}

/// The file name of the shard with the given zero-based index.
pub fn shard_file_name(index: u64) -> (r: String)
    ensures
        r@ == shard_name(index as nat),
{
    let mut name = String::new();
    name.append("endsong_");
    push_decimal(&mut name, index);
    name.append(".json");
    assert(name@ =~= shard_name(index as nat));
    name
}

/// Decides on the shard files found, read from index 0 up to the first
/// missing one: with none, there is nothing to load.
pub fn shard_listing(found: Vec<String>) -> (r: Result<Vec<String>, LoadError>)
    ensures
        found@.len() == 0 ==> r == Err::<Vec<String>, LoadError>(LoadError::NoDataFiles),
        found@.len() > 0 ==> (r matches Ok(files) && files@ == found@),
{
    if found.len() == 0 {
        Err(LoadError::NoDataFiles)
    } else {
        Ok(found)
    }
}

} // verus!
