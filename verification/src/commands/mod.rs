//! The three commands: what each one decides, from plain values to plain
//! values. Reading files, asking a registry and printing are left to the
//! caller.

pub mod add;
pub mod rm;
pub mod upgrade;

use vstd::prelude::*;
use crate::commands::add::Add;
use crate::commands::rm::Rm;
use crate::commands::upgrade::Upgrade;

verus! {

/// One invocation of the tool.
pub enum Command {
    /// Upgrade the dependencies of a manifest.
    Upgrade(Upgrade),
    /// Add dependencies to a manifest.
    Add(Add),
    /// Remove dependencies from a manifest.
    Rm(Rm),
}

/// The file that a manifest argument stands for: the argument itself, or,
/// if it names a directory, `Cargo.toml` in that directory.
pub open spec fn manifest_file(manifest: Seq<char>, is_dir: bool) -> Seq<char> {
    if !is_dir {
        manifest
    } else if manifest.len() == 0 {
        "Cargo.toml"@
    } else if manifest.last() == '/' {
        manifest + "Cargo.toml"@
    } else {
        manifest + "/"@ + "Cargo.toml"@
    }
}

/// The file that a manifest argument stands for, given whether the argument
/// names a directory.
pub fn locate_manifest(manifest: &str, is_dir: bool) -> (r: String)
    ensures
        r@ == manifest_file(manifest@, is_dir),
{
    let mut path = manifest.to_owned();
    if is_dir {
        let n = manifest.unicode_len();
        if n > 0 && manifest.get_char(n - 1) != '/' {
            path.append("/");
        }
        path.append("Cargo.toml");
    }
    path
}

/// The texts of a list of strings.
pub open spec fn texts(list: Seq<String>) -> Seq<Seq<char>> {
    list.map_values(|s: String| s@)
}

/// Whether `name` is in `list`.
pub fn contains_text(list: &Vec<String>, name: &str) -> (r: bool)
    ensures
        r == texts(list@).contains(name@),
{
    let mut i: usize = 0;
    while i < list.len()
        invariant
            i <= list@.len(),
            forall|j: int| 0 <= j < i ==> list@[j]@ != name@,
        decreases list@.len() - i,
    {
        if crate::text::texts_equal(list[i].as_str(), name) {
            assert(texts(list@)[i as int] == name@);
            return true;
        }
        i += 1;
    }
    assert forall|j: int| 0 <= j < texts(list@).len() implies texts(list@)[j] != name@ by {
        assert(texts(list@)[j] == list@[j]@);
    }
    false
}

} // verus!
