//! The source files that mutations are looked for in, and their paths.

use std::cmp::Ordering;
use vstd::prelude::*;
use crate::paths::{is_absolute, path_is_absolute};
use crate::text::{chars_less, chars_of, lemma_lex_total, lex_less};

verus! {

/// A path inside a source tree, told from the tree's root. It is never
/// absolute. Two paths are equal where their texts are, and their order is
/// the lexicographic order of their texts.
#[derive(Debug, Eq)]
pub struct TreeRelativePathBuf {
    path: String,
}

impl View for TreeRelativePathBuf {
    type V = Seq<char>;

    closed spec fn view(&self) -> Seq<char> {
        self.path@
    }
}

/// How the first text stands to the second in the lexicographic order.
pub open spec fn text_order(left: Seq<char>, right: Seq<char>) -> Ordering {
    if lex_less(left, right) {
        Ordering::Less
    } else if lex_less(right, left) {
        Ordering::Greater
    } else {
        Ordering::Equal
    }
}

/// Texts that the order holds equal are the same text.
pub proof fn lemma_equal_in_order_is_equal(left: Seq<char>, right: Seq<char>)
    ensures
        text_order(left, right) == Ordering::Equal <==> left == right,
{
    lemma_lex_total(left, right);
    crate::text::lemma_lex_irreflexive(left);
}

/// How the first string stands to the second in the lexicographic order.
fn order_of(left: &str, right: &str) -> (order: Ordering)
    ensures
        order == text_order(left@, right@),
{
    let left_chars = chars_of(left);
    let right_chars = chars_of(right);
    if chars_less(&left_chars, &right_chars) {
        Ordering::Less
    } else if chars_less(&right_chars, &left_chars) {
        Ordering::Greater
    } else {
        Ordering::Equal
    }
}

impl TreeRelativePathBuf {
    #[verifier::type_invariant]
    spec fn is_relative(self) -> bool {
        !path_is_absolute(self.path@)
    }

    /// The path `path` as one inside a tree, or `None` where it is absolute.
    pub fn new(path: String) -> (relative: Option<TreeRelativePathBuf>)
        ensures
            relative is Some <==> !path_is_absolute(path@),
            relative matches Some(made) ==> made@ == path@,
    {
        if is_absolute(path.as_str()) {
            None
        } else {
            Some(TreeRelativePathBuf { path })
        }
    }

    /// The path as text, which is no absolute path.
    pub fn as_str(&self) -> (text: &str)
        ensures
            text@ == self@,
            !path_is_absolute(text@),
    {
        proof {
            use_type_invariant(self);
        }
        self.path.as_str()
    }

}

impl Clone for TreeRelativePathBuf {
    /// A copy of the path.
    fn clone(&self) -> (copy: TreeRelativePathBuf)
        ensures
            copy@ == self@,
    {
        proof {
            use_type_invariant(self);
        }
        TreeRelativePathBuf { path: self.path.clone() }
    }
}

impl PartialEq for TreeRelativePathBuf {
    fn eq(&self, other: &Self) -> (same: bool) {
        self.path == other.path
    }
}

impl vstd::std_specs::cmp::PartialEqSpecImpl for TreeRelativePathBuf {
    open spec fn obeys_eq_spec() -> bool {
        true
    }

    open spec fn eq_spec(&self, other: &Self) -> bool {
        self@ == other@
    }
}

impl PartialOrd for TreeRelativePathBuf {
    fn partial_cmp(&self, other: &Self) -> (order: Option<Ordering>) {
        Some(order_of(self.path.as_str(), other.path.as_str()))
    }
}

impl vstd::std_specs::cmp::PartialOrdSpecImpl for TreeRelativePathBuf {
    open spec fn obeys_partial_cmp_spec() -> bool {
        true
    }

    open spec fn partial_cmp_spec(&self, other: &Self) -> Option<Ordering> {
        Some(text_order(self@, other@))
    }
}

/// A source file to look for mutations in. A file is known by its path in
/// the tree: two files are equal where their paths are, and their order is
/// that of their paths.
#[derive(Debug, Eq)]
pub struct SourceFile {
    /// The file's path, told from the root of the tree.
    pub tree_relative_path: TreeRelativePathBuf,
    /// The name of the package that the file belongs to.
    pub package_name: String,
    /// The root of the tree.
    pub tree_path: String,
}

impl Clone for SourceFile {
    /// A copy of the file's record.
    fn clone(&self) -> (copy: SourceFile)
        ensures
            copy.tree_relative_path@ == self.tree_relative_path@,
            copy.package_name@ == self.package_name@,
            copy.tree_path@ == self.tree_path@,
    {
        SourceFile {
            tree_relative_path: self.tree_relative_path.clone(),
            package_name: self.package_name.clone(),
            tree_path: self.tree_path.clone(),
        }
    }
}

impl PartialEq for SourceFile {
    fn eq(&self, other: &Self) -> (same: bool) {
        self.tree_relative_path == other.tree_relative_path
    }
}

impl vstd::std_specs::cmp::PartialEqSpecImpl for SourceFile {
    open spec fn obeys_eq_spec() -> bool {
        true
    }

    open spec fn eq_spec(&self, other: &Self) -> bool {
        self.tree_relative_path@ == other.tree_relative_path@
    }
}

impl PartialOrd for SourceFile {
    fn partial_cmp(&self, other: &Self) -> (order: Option<Ordering>) {
        Some(order_of(self.tree_relative_path.as_str(), other.tree_relative_path.as_str()))
    }
}

impl vstd::std_specs::cmp::PartialOrdSpecImpl for SourceFile {
    open spec fn obeys_partial_cmp_spec() -> bool {
        true
    }

    open spec fn partial_cmp_spec(&self, other: &Self) -> Option<Ordering> {
        Some(text_order(self.tree_relative_path@, other.tree_relative_path@))
    }
}

} // verus!
