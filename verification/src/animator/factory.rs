//! Naming of installed animation plugin files.

use vstd::prelude::*;

use crate::text::{ends_with, has_suffix};

verus! {

/// Whether a directory entry is an animation plugin: its name ends in
/// ".crab".
pub fn is_plugin_file_name(name: &str) -> (b: bool)
    ensures
        b == has_suffix(name@, ".crab"@),
{
    ends_with(name, ".crab")
}

/// The file name a plugin with the given id is installed under: the id
/// followed by ".crab".
pub fn plugin_file_name(id: &str) -> (name: String)
    ensures
        name@ == id@ + ".crab"@,
{
    let name = String::from_str(id);
    name.concat(".crab")
}

/// An installed plugin is found again when the plugin directory is
/// searched.
pub proof fn lemma_installed_plugin_is_discovered(id: Seq<char>)
    ensures
        has_suffix(id + ".crab"@, ".crab"@),
{
    assert((id + ".crab"@).skip(id.len() as int) =~= ".crab"@);
}

} // verus!
