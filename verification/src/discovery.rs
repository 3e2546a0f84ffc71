//! Which source files of a workspace are open to mutation.
//!
//! The build tool's metadata names the packages of a workspace and the
//! targets of each. The files to start from are the entry points of the
//! library and binary targets, as far as they lie in the workspace's tree.
//! Asking the build tool is the caller's part; what it answered is handed in
//! as [`PackageMetadata`] values.

use vstd::prelude::*;
use crate::paths::{join, path_is_absolute, path_join, path_strip_prefix, strip_prefix};
use crate::sorted::SortedTexts;
use crate::source::{SourceFile, TreeRelativePathBuf};
use crate::text::{ends_with, has_suffix, same_text, strictly_ascending};

verus! {

/// One target of a package, as the build tool's metadata describes it.
#[derive(Clone, Debug)]
pub struct TargetMetadata {
    /// The target's name.
    pub name: String,
    /// The kinds of the target, such as `lib`, `bin` or `test`.
    pub kind: Vec<String>,
    /// The path of the source file that the target starts from.
    pub src_path: String,
}

/// One package of a workspace, as the build tool's metadata describes it.
#[derive(Clone, Debug)]
pub struct PackageMetadata {
    /// The package's name.
    pub name: String,
    /// The path of the package's manifest.
    pub manifest_path: String,
    /// The package's targets.
    pub targets: Vec<TargetMetadata>,
}

/// Why the files of a workspace could not be listed.
#[derive(Clone, Copy, Debug, PartialEq, Eq, Structural)]
pub enum DiscoveryError {
    /// The build tool's metadata could not be had.
    ExternalToolFailure,
}

/// A kind of target whose source is open to mutation: a library of any
/// sort, or a binary.
pub open spec fn is_source_kind(kind: Seq<char>) -> bool {
    has_suffix(kind, "lib"@) || kind == "bin"@
}

/// One of the target's kinds is a kind open to mutation.
pub open spec fn is_mutation_target(target: TargetMetadata) -> bool {
    exists|k: int| 0 <= k < target.kind@.len() && is_source_kind(#[trigger] target.kind@[k]@)
}

/// What a target adds to the files of the tree at `root`: the path of its
/// source, told from the root, where the target is open to mutation and its
/// source lies in the tree.
pub open spec fn source_of(root: Seq<char>, target: TargetMetadata) -> Option<Seq<char>> {
    if is_mutation_target(target) {
        relative_in(path_strip_prefix(target.src_path@, root))
    } else {
        None
    }
}

/// What is left of a source path behind the root, where there is something
/// left and it is no absolute path.
pub open spec fn relative_in(stripped: Option<Seq<char>>) -> Option<Seq<char>> {
    match stripped {
        Some(rest) => if path_is_absolute(rest) {
            None
        } else {
            Some(rest)
        },
        None => None,
    }
}

/// One of the package's targets adds `path`.
pub open spec fn package_has_source(
    root: Seq<char>,
    package: PackageMetadata,
    path: Seq<char>,
) -> bool {
    exists|t: int|
        0 <= t < package.targets@.len() && source_of(root, #[trigger] package.targets@[t]) == Some(
            path,
        )
}

/// The package at `owner` is the first of `packages` with a target that
/// adds `path`.
pub open spec fn is_first_owner(
    root: Seq<char>,
    packages: Seq<PackageMetadata>,
    path: Seq<char>,
    owner: int,
) -> bool {
    &&& 0 <= owner < packages.len()
    &&& package_has_source(root, packages[owner], path)
    &&& forall|earlier: int|
        0 <= earlier < owner ==> !package_has_source(root, #[trigger] packages[earlier], path)
}

/// The path as characters, where there is one.
pub open spec fn optional_path_text(path: Option<TreeRelativePathBuf>) -> Option<Seq<char>> {
    match path {
        Some(path) => Some(path@),
        None => None,
    }
}

/// One of the first `upto` packages has a target that adds `path`.
pub open spec fn among_packages(
    root: Seq<char>,
    packages: Seq<PackageMetadata>,
    upto: int,
    path: Seq<char>,
) -> bool {
    exists|i: int| 0 <= i < upto && package_has_source(root, #[trigger] packages[i], path)
}

/// The file lies in the tree at `root` and bears the name of the first
/// package that has a target for it.
pub open spec fn is_rightly_listed(
    root: Seq<char>,
    packages: Seq<PackageMetadata>,
    file: SourceFile,
) -> bool {
    &&& file.tree_path@ == root
    &&& exists|owner: int|
        #[trigger] is_first_owner(root, packages, file.tree_relative_path@, owner)
            && file.package_name@ == packages[owner].name@
}

/// The files are those of the workspace: each path that a package's target
/// adds is there once, the paths ascend, and each file is rightly listed.
pub open spec fn lists_workspace(
    root: Seq<char>,
    packages: Seq<PackageMetadata>,
    files: Seq<SourceFile>,
) -> bool {
    &&& strictly_ascending(file_paths(files))
    &&& forall|path: Seq<char>|
        file_paths(files).contains(path) <==> among_packages(
            root,
            packages,
            packages.len() as int,
            path,
        )
    &&& forall|k: int|
        0 <= k < files.len() ==> is_rightly_listed(root, packages, #[trigger] files[k])
}

/// The paths as characters.
pub open spec fn path_texts(paths: Seq<TreeRelativePathBuf>) -> Seq<Seq<char>> {
    Seq::new(paths.len(), |i: int| paths[i]@)
}

/// The paths of the files as characters.
pub open spec fn file_paths(files: Seq<SourceFile>) -> Seq<Seq<char>> {
    Seq::new(files.len(), |i: int| files[i].tree_relative_path@)
}

/// The path of the manifest of the workspace at `source_root_path`, which is
/// where the build tool's metadata is asked for.
pub fn manifest_path(source_root_path: &str) -> (path: String)
    ensures
        path@ == path_join(source_root_path@, "Cargo.toml"@),
{
    join(source_root_path, "Cargo.toml")
}

/// Whether the source of `target` is open to mutation: it is where the
/// target is a library of any sort or a binary, and not where it is only a
/// test, a benchmark or an example.
pub fn should_mutate_target(target: &TargetMetadata) -> (open: bool)
    ensures
        open == is_mutation_target(*target),
{
    let mut k: usize = 0;
    while k < target.kind.len()
        invariant
            k <= target.kind@.len(),
            forall|e: int| 0 <= e < k ==> !is_source_kind(#[trigger] target.kind@[e]@),
        decreases target.kind@.len() - k,
    {
        let kind = target.kind[k].as_str();
        if ends_with(kind, "lib") || same_text(kind, "bin") {
            return true;
        }
        k += 1;
    }
    false
}

/// The path of a source told from the root, given what stripping the root
/// from the source's path left.
pub fn relative_source(stripped: Option<String>) -> (relative: Option<TreeRelativePathBuf>)
    ensures
        optional_path_text(relative) == relative_in(stripped.deep_view()),
{
    match stripped {
        Some(rest) => TreeRelativePathBuf::new(rest),
        None => None,
    }
}

/// What a target means for the files of a tree.
#[derive(Debug)]
pub enum TargetSource {
    /// The target is open to mutation and starts from this file of the tree.
    InTree(TreeRelativePathBuf),
    /// The target is open to mutation, yet its source does not lie in the
    /// tree: it is passed over, and worth a warning.
    OutsideTree,
    /// The target is not open to mutation.
    NotMutated,
}

/// What a target means for the files of the tree at `root`, with the path
/// as characters.
pub open spec fn target_source_of(root: Seq<char>, target: TargetMetadata) -> Option<
    Option<Seq<char>>,
> {
    if is_mutation_target(target) {
        Some(source_of(root, target))
    } else {
        None
    }
}

/// What `found` says, with the path as characters: nothing for a target
/// that is not mutated, else the path in the tree, if there is one.
pub open spec fn target_source_view(found: TargetSource) -> Option<Option<Seq<char>>> {
    match found {
        TargetSource::InTree(path) => Some(Some(path@)),
        TargetSource::OutsideTree => Some(None),
        TargetSource::NotMutated => None,
    }
}

/// What `target` means for the files of the tree at `workspace_root`.
pub fn target_source(workspace_root: &str, target: &TargetMetadata) -> (found: TargetSource)
    ensures
        target_source_view(found) == target_source_of(workspace_root@, *target),
{
    if should_mutate_target(target) {
        match relative_source(strip_prefix(target.src_path.as_str(), workspace_root)) {
            Some(relative) => TargetSource::InTree(relative),
            None => TargetSource::OutsideTree,
        }
    } else {
        TargetSource::NotMutated
    }
}

/// The files that the targets of a package start from: for each target
/// that is open to mutation and whose source lies in the tree at
/// `workspace_root`, the path of that source told from the root. The paths
/// come in ascending order, each of them once.
///
/// A target whose source lies outside the tree adds nothing.
pub fn direct_package_sources(workspace_root: &str, package_metadata: &PackageMetadata) -> (found:
    Vec<TreeRelativePathBuf>)
    ensures
        strictly_ascending(path_texts(found@)),
        forall|path: Seq<char>|
            path_texts(found@).contains(path) <==> package_has_source(
                workspace_root@,
                *package_metadata,
                path,
            ),
{
    let mut sorted: SortedTexts<TreeRelativePathBuf> = SortedTexts::new();
    let ghost root = workspace_root@;
    let ghost targets = package_metadata.targets@;
    let mut t: usize = 0;
    while t < package_metadata.targets.len()
        invariant
            t <= targets.len(),
            targets == package_metadata.targets@,
            root == workspace_root@,
            sorted.wf(),
            path_texts(sorted.items()) == sorted.keys(),
            forall|path: Seq<char>|
                sorted.keys().contains(path) <==> exists|e: int|
                    0 <= e < t && source_of(root, #[trigger] targets[e]) == Some(path),
        decreases targets.len() - t,
    {
        let ghost keys_before = sorted.keys();
        let ghost items_before = sorted.items();
        let ghost adds = source_of(root, targets[t as int]);
        match target_source(workspace_root, &package_metadata.targets[t]) {
            TargetSource::InTree(relative) => {
                let key = relative.clone();
                let added = sorted.insert(key.as_str(), relative);
                proof {
                    if added {
                        let at = choose|at: int|
                            0 <= at <= keys_before.len() && sorted.keys()
                                == #[trigger] keys_before.insert(at, relative@) && sorted.items()
                                == items_before.insert(at, relative);
                        assert(path_texts(sorted.items()) =~= sorted.keys());
                        assert forall|path: Seq<char>|
                            sorted.keys().contains(path) <==> (keys_before.contains(path) || adds
                                == Some(path)) by {
                            lemma_insert_contains(keys_before, at, relative@, path);
                        }
                    }
                }
            },
            TargetSource::OutsideTree => {},
            TargetSource::NotMutated => {},
        }
        proof {
            let keys = sorted.keys();
            assert(forall|path: Seq<char>|
                keys.contains(path) <==> (keys_before.contains(path) || adds == Some(path)));
            assert forall|path: Seq<char>| keys.contains(path) implies exists|e: int|
                0 <= e < t + 1 && source_of(root, #[trigger] targets[e]) == Some(path) by {
                if keys_before.contains(path) {
                    let e = choose|e: int|
                        0 <= e < t && source_of(root, #[trigger] targets[e]) == Some(path);
                    assert(0 <= e < t + 1 && source_of(root, targets[e]) == Some(path));
                } else {
                    assert(source_of(root, targets[t as int]) == Some(path));
                }
            }
            assert forall|path: Seq<char>|
                (exists|e: int|
                    0 <= e < t + 1 && source_of(root, #[trigger] targets[e]) == Some(
                        path,
                    )) implies keys.contains(path) by {
                let e = choose|e: int|
                    0 <= e < t + 1 && source_of(root, #[trigger] targets[e]) == Some(path);
                if e < t {
                    assert(keys_before.contains(path));
                }
            }
        }
        t += 1;
    }
    let found = sorted.into_items();
    found
}

/// A sequence with a value put in holds that value and what it held before.
proof fn lemma_insert_contains<A>(s: Seq<A>, at: int, value: A, x: A)
    requires
        0 <= at <= s.len(),
    ensures
        s.insert(at, value).contains(x) <==> (x == value || s.contains(x)),
{
    let grown = s.insert(at, value);
    if grown.contains(x) {
        let i = choose|i: int| 0 <= i < grown.len() && grown[i] == x;
        if i < at {
            assert(s[i] == x);
        } else if i > at {
            assert(s[i - 1] == x);
        }
    }
    if x == value {
        assert(grown[at] == x);
    }
    if s.contains(x) {
        let i = choose|i: int| 0 <= i < s.len() && s[i] == x;
        if i < at {
            assert(grown[i] == x);
        } else {
            assert(grown[i + 1] == x);
        }
    }
}

/// The source files of the workspace at `source_root_path` that are open
/// to mutation, given the build tool's metadata on the workspace's
/// packages: `None` where the metadata could not be had, which fails the
/// whole listing.
///
/// The files come in the ascending order of their paths, each path once. A
/// file that targets of several packages start from bears the name of the
/// first of those packages.
pub fn cargo_root_files(source_root_path: &str, metadata: Option<&Vec<PackageMetadata>>) -> (listed:
    Result<Vec<SourceFile>, DiscoveryError>)
    ensures
        match metadata {
            Some(packages) => listed matches Ok(files) && lists_workspace(
                source_root_path@,
                packages@,
                files@,
            ),
            None => listed matches Err(error) && error == DiscoveryError::ExternalToolFailure,
        },
{
    let packages = match metadata {
        Some(packages) => packages,
        None => {
            return Err(DiscoveryError::ExternalToolFailure);
        },
    };
    let ghost root = source_root_path@;
    let ghost all = packages@;
    let mut sorted: SortedTexts<SourceFile> = SortedTexts::new();
    let mut p: usize = 0;
    while p < packages.len()
        invariant
            p <= all.len(),
            all == packages@,
            root == source_root_path@,
            sorted.wf(),
            file_paths(sorted.items()) == sorted.keys(),
            forall|path: Seq<char>|
                sorted.keys().contains(path) <==> among_packages(root, all, p as int, path),
            forall|k: int|
                0 <= k < sorted.items().len() ==> is_rightly_listed(
                    root,
                    all,
                    #[trigger] sorted.items()[k],
                ),
        decreases all.len() - p,
    {
        let sources = direct_package_sources(source_root_path, &packages[p]);
        let ghost texts = path_texts(sources@);
        let mut s: usize = 0;
        while s < sources.len()
            invariant
                s <= sources@.len(),
                p < all.len(),
                all == packages@,
                root == source_root_path@,
                texts == path_texts(sources@),
                forall|path: Seq<char>|
                    texts.contains(path) <==> package_has_source(root, all[p as int], path),
                sorted.wf(),
                file_paths(sorted.items()) == sorted.keys(),
                forall|path: Seq<char>|
                    sorted.keys().contains(path) <==> (among_packages(root, all, p as int, path)
                        || texts.take(s as int).contains(path)),
                forall|k: int|
                    0 <= k < sorted.items().len() ==> is_rightly_listed(
                        root,
                        all,
                        #[trigger] sorted.items()[k],
                    ),
            decreases sources@.len() - s,
        {
            let ghost keys_before = sorted.keys();
            let ghost items_before = sorted.items();
            let ghost path = texts[s as int];
            let file = SourceFile {
                tree_relative_path: sources[s].clone(),
                package_name: packages[p].name.clone(),
                tree_path: source_root_path.to_owned(),
            };
            let added = sorted.insert(sources[s].as_str(), file);
            proof {
                assert(texts.contains(path));
                if added {
                    let at = choose|at: int|
                        0 <= at <= keys_before.len() && sorted.keys()
                            == #[trigger] keys_before.insert(at, path) && sorted.items()
                            == items_before.insert(at, file);
                    assert(file_paths(sorted.items()) =~= sorted.keys());
                    assert forall|other: Seq<char>|
                        sorted.keys().contains(other) <==> (keys_before.contains(other) || other
                            == path) by {
                        lemma_insert_contains(keys_before, at, path, other);
                    }
                    assert(is_first_owner(root, all, path, p as int)) by {
                        assert forall|earlier: int| 0 <= earlier < p implies !package_has_source(
                            root,
                            #[trigger] all[earlier],
                            path,
                        ) by {
                            if package_has_source(root, all[earlier], path) {
                                assert(among_packages(root, all, p as int, path));
                            }
                        }
                    }
                    assert(is_rightly_listed(root, all, file));
                    assert forall|k: int| 0 <= k < sorted.items().len() implies is_rightly_listed(
                        root,
                        all,
                        #[trigger] sorted.items()[k],
                    ) by {
                        if k < at {
                            assert(sorted.items()[k] == items_before[k]);
                        } else if k > at {
                            assert(sorted.items()[k] == items_before[k - 1]);
                        }
                    }
                }
                let keys = sorted.keys();
                let shorter = texts.take(s as int);
                let longer = texts.take(s + 1);
                assert(forall|other: Seq<char>|
                    keys.contains(other) <==> (keys_before.contains(other) || other == path));
                assert(shorter.insert(s as int, path) =~= longer);
                assert forall|other: Seq<char>|
                    keys.contains(other) <==> (among_packages(root, all, p as int, other)
                        || longer.contains(other)) by {
                    assert(keys_before.contains(other) <==> (among_packages(
                        root,
                        all,
                        p as int,
                        other,
                    ) || shorter.contains(other)));
                    lemma_insert_contains(shorter, s as int, path, other);
                }
            }
            s += 1;
        }
        proof {
            assert(texts.take(s as int) =~= texts);
            assert forall|path: Seq<char>|
                sorted.keys().contains(path) <==> among_packages(root, all, p + 1, path) by {
                if among_packages(root, all, p + 1, path) {
                    let i = choose|i: int|
                        0 <= i < p + 1 && package_has_source(root, #[trigger] all[i], path);
                    if i < p {
                        assert(among_packages(root, all, p as int, path));
                    }
                }
                if sorted.keys().contains(path) {
                    if among_packages(root, all, p as int, path) {
                        let i = choose|i: int|
                            0 <= i < p && package_has_source(root, #[trigger] all[i], path);
                        assert(0 <= i < p + 1 && package_has_source(root, all[i], path));
                    } else {
                        assert(package_has_source(root, all[p as int], path));
                    }
                }
            }
        }
        p += 1;
    }
    Ok(sorted.into_items())
}

/// Only one package is the first owner of a path.
pub proof fn lemma_first_owner_is_unique(
    root: Seq<char>,
    packages: Seq<PackageMetadata>,
    path: Seq<char>,
    one: int,
    other: int,
)
    requires
        is_first_owner(root, packages, path, one),
        is_first_owner(root, packages, path, other),
    ensures
        one == other,
{
    if one < other {
        assert(!package_has_source(root, packages[one], path));
    } else if other < one {
        assert(!package_has_source(root, packages[other], path));
    }
}

/// The files of a workspace are determined by its root and its packages:
/// two listings of the same workspace hold the same paths in the same
/// order, each with the same package name and the same root.
pub proof fn lemma_listing_is_determined(
    root: Seq<char>,
    packages: Seq<PackageMetadata>,
    first: Seq<SourceFile>,
    second: Seq<SourceFile>,
)
    requires
        lists_workspace(root, packages, first),
        lists_workspace(root, packages, second),
    ensures
        file_paths(first) == file_paths(second),
        first.len() == second.len(),
        forall|k: int|
            0 <= k < first.len() ==> (#[trigger] first[k]).package_name@ == second[k].package_name@
                && first[k].tree_path@ == second[k].tree_path@,
{
    crate::text::lemma_ascending_is_unique(file_paths(first), file_paths(second));
    assert forall|k: int| 0 <= k < first.len() implies (#[trigger] first[k]).package_name@
        == second[k].package_name@ && first[k].tree_path@ == second[k].tree_path@ by {
        let path = first[k].tree_relative_path@;
        assert(file_paths(first)[k] == path);
        assert(file_paths(second)[k] == second[k].tree_relative_path@);
        assert(is_rightly_listed(root, packages, first[k]));
        assert(is_rightly_listed(root, packages, second[k]));
        let one = choose|owner: int|
            #[trigger] is_first_owner(root, packages, path, owner) && first[k].package_name@
                == packages[owner].name@;
        let other = choose|owner: int|
            #[trigger] is_first_owner(root, packages, path, owner) && second[k].package_name@
                == packages[owner].name@;
        lemma_first_owner_is_unique(root, packages, path, one, other);
    }
}

/// No path is listed twice, also where targets of several packages start
/// from the same file.
pub proof fn lemma_listing_has_no_duplicates(
    root: Seq<char>,
    packages: Seq<PackageMetadata>,
    files: Seq<SourceFile>,
)
    requires
        lists_workspace(root, packages, files),
    ensures
        forall|i: int, j: int|
            0 <= i < j < files.len() ==> (#[trigger] files[i]).tree_relative_path@ != (
            #[trigger] files[j]).tree_relative_path@,
{
    crate::text::lemma_ascending_is_duplicate_free(file_paths(files));
    assert forall|i: int, j: int| 0 <= i < j < files.len() implies (
    #[trigger] files[i]).tree_relative_path@ != (#[trigger] files[j]).tree_relative_path@ by {
        assert(file_paths(files)[i] == files[i].tree_relative_path@);
        assert(file_paths(files)[j] == files[j].tree_relative_path@);
    }
}

} // verus!
