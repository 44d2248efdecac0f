//! Detection of executables and of files that belong to a package.

use vstd::prelude::*;
use vstd::string::*;
use crate::config::{Config, DetectionRules};
use crate::text::{lowercased, str_lowercase};

verus! {

/// What is known of a path on disk, as far as detection reads it.
#[derive(Clone, Debug)]
pub struct PathInfo {
    /// The path's extension, if it has one.
    pub extension: Option<String>,
    /// Whether the path is a directory.
    pub is_dir: bool,
    /// Names of entries that exist in the path itself, where it is a
    /// directory.
    pub entries: Vec<String>,
    /// Names of entries that exist in the path's parent directory; none where
    /// the path has no parent.
    pub parent_entries: Option<Vec<String>>,
}

/// The extension equals one of the configured extensions, both lower-cased.
pub open spec fn has_exe_extension(path: PathInfo, rules: DetectionRules) -> bool {
    match path.extension {
        Some(e) => exists|i: int|
            0 <= i < rules.exe_extensions@.len() && lowercased(
                #[trigger] rules.exe_extensions@[i]@,
            ) == lowercased(e@),
        None => false,
    }
}

/// The configured package file `i` is among the names.
pub open spec fn marker_present(names: Seq<String>, rules: DetectionRules, i: int) -> bool {
    exists|j: int| 0 <= j < names.len() && (#[trigger] names[j])@ == rules.package_dirs@[i]@
}

/// One of the configured package files is among the names.
pub open spec fn holds_package_file(names: Seq<String>, rules: DetectionRules) -> bool {
    exists|i: int| 0 <= i < rules.package_dirs@.len() && #[trigger] marker_present(names, rules, i)
}

/// The path is a directory that holds one of the configured package files,
/// or it is no directory and its parent holds one.
pub open spec fn in_package(path: PathInfo, rules: DetectionRules) -> bool {
    if path.is_dir {
        holds_package_file(path.entries@, rules)
    } else {
        match path.parent_entries {
            Some(names) => holds_package_file(names@, rules),
            None => false,
        }
    }
}

/// Whether the path is an executable or belongs to a package.
pub open spec fn exe_or_package(path: PathInfo, config: Config) -> bool {
    has_exe_extension(path, config.detection) || in_package(path, config.detection)
}

fn extension_listed(path: &PathInfo, rules: &DetectionRules) -> (r: bool)
    ensures
        r == has_exe_extension(*path, *rules),
{
    match &path.extension {
        Some(e) => {
            let wanted = str_lowercase(e.as_str());
            let mut i: usize = 0;
            while i < rules.exe_extensions.len()
                invariant
                    i <= rules.exe_extensions@.len(),
                    path.extension == Some(*e),
                    wanted@ == lowercased(e@),
                    forall|t: int|
                        0 <= t < i ==> lowercased(#[trigger] rules.exe_extensions@[t]@)
                            != lowercased(e@),
                decreases rules.exe_extensions@.len() - i,
            {
                let have = str_lowercase(rules.exe_extensions[i].as_str());
                if have == wanted {
                    assert(lowercased(rules.exe_extensions@[i as int]@) == lowercased(e@));
                    return true;
                }
                i = i + 1;
            }
            false
        },
        None => false,
    }
}

fn entry_exists(names: &Vec<String>, rules: &DetectionRules, i: usize) -> (r: bool)
    requires
        i < rules.package_dirs@.len(),
    ensures
        r == marker_present(names@, *rules, i as int),
{
    let mut j: usize = 0;
    while j < names.len()
        invariant
            j <= names@.len(),
            i < rules.package_dirs@.len(),
            forall|t: int| 0 <= t < j ==> (#[trigger] names@[t])@ != rules.package_dirs@[i as int]@,
        decreases names@.len() - j,
    {
        if names[j] == rules.package_dirs[i] {
            return true;
        }
        j = j + 1;
    }
    false
}

fn any_package_file(names: &Vec<String>, rules: &DetectionRules) -> (r: bool)
    ensures
        r == holds_package_file(names@, *rules),
{
    let mut i: usize = 0;
    while i < rules.package_dirs.len()
        invariant
            i <= rules.package_dirs@.len(),
            forall|t: int| 0 <= t < i ==> !#[trigger] marker_present(names@, *rules, t),
        decreases rules.package_dirs@.len() - i,
    {
        if entry_exists(names, rules, i) {
            return true;
        }
        i = i + 1;
    }
    false
}

/// Decides whether the path is an executable or belongs to a package.
pub fn is_exe_or_package(path: &PathInfo, config: &Config) -> (r: bool)
    ensures
        r == exe_or_package(*path, *config),
{
    if extension_listed(path, &config.detection) {
        return true;
    }
    if path.is_dir {
        any_package_file(&path.entries, &config.detection)
    } else {
        match &path.parent_entries {
            Some(names) => any_package_file(names, &config.detection),
            None => false,
        }
    }
}

} // verus!
