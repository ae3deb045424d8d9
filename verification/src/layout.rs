//! The fixed names of a vendoring setup.

use vstd::prelude::*;
use crate::text::same_text;

verus! {

/// The names that a synchronization run goes by.
#[derive(Debug, Clone, PartialEq, Eq)]
pub struct Layout {
    /// File name of a package's own manifest; no file of that name is vendored.
    pub manifest_name: String,
    /// Path, below the source root, of the package's main entry.
    pub main_entry: String,
    /// Path, in the working tree, that the main entry is vendored to, so
    /// that it never meets the entry file that the consumer writes by hand.
    pub entry_target: String,
}

/// The mathematical value of a [`Layout`].
pub struct LayoutView {
    pub manifest_name: Seq<char>,
    pub main_entry: Seq<char>,
    pub entry_target: Seq<char>,
}

impl View for Layout {
    type V = LayoutView;

    open spec fn view(&self) -> LayoutView {
        LayoutView {
            manifest_name: self.manifest_name@,
            main_entry: self.main_entry@,
            entry_target: self.entry_target@,
        }
    }
}

/// Where a text file with the given path below the source root goes in the
/// working tree: the main entry to its fixed target, every other file to
/// its own path.
pub open spec fn target_of(layout: LayoutView, relative: Seq<char>) -> Seq<char> {
    if relative == layout.main_entry {
        layout.entry_target
    } else {
        relative
    }
}

/// The marker that declares everything in the working tree generated but
/// the consumer's own entry file.
pub open spec fn ignore_marker_of(layout: LayoutView) -> Seq<char> {
    "*\n!"@ + layout.main_entry
}

impl Layout {
    /// The names of a Cargo package: `Cargo.toml`, `lib.rs`, and
    /// `lib.crate.rs` for the vendored entry.
    pub fn cargo() -> (layout: Layout)
        ensures
            layout@ == (LayoutView {
                manifest_name: "Cargo.toml"@,
                main_entry: "lib.rs"@,
                entry_target: "lib.crate.rs"@,
            }),
    {
        Layout {
            manifest_name: String::from_str("Cargo.toml"),
            main_entry: String::from_str("lib.rs"),
            entry_target: String::from_str("lib.crate.rs"),
        }
    }

    /// The working-tree path of a text file.
    pub fn target_for(&self, relative: &str) -> (target: String)
        ensures
            target@ == target_of(self@, relative@),
    {
        if same_text(relative, self.main_entry.as_str()) {
            self.entry_target.clone()
        } else {
            relative.to_owned()
        }
    }

    /// The content of the ignore marker of the working tree.
    pub fn ignore_marker(&self) -> (marker: String)
        ensures
            marker@ == ignore_marker_of(self@),
    {
        let mut marker = String::from_str("*\n!");
        marker.append(self.main_entry.as_str());
        marker
    }
}

/// The source root of a package whose manifest declares none.
pub fn default_source_root() -> (root: String)
    ensures
        root@ == "src"@,
{
    String::from_str("src")
}

} // verus!
