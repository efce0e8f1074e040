//! Finds `node_modules` directories under a root, classifies each as safe or
//! sensitive to remove, tracks the operator's selection, and accounts for a
//! bulk deletion — the engine behind a terminal clean-up tool.

pub mod app;
pub mod channel;
pub mod deleter;
pub mod fstree;
pub mod scanner;
pub mod text;
pub mod ui;

use vstd::prelude::*;

verus! {

/// True exactly when `name` is the directory name the scan looks for.
pub fn is_target_dir_name(name: &str) -> (r: bool)
    ensures
        r == (name@ == "node_modules"@),
{
    let name_chars = crate::text::str_to_chars(name);
    let target_chars = crate::text::str_to_chars("node_modules");
    crate::text::chars_eq(&name_chars, &target_chars)
}

} // verus!
