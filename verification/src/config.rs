//! The configuration of a run and its defaults.

use vstd::prelude::*;
use vstd::string::*;
use crate::case::NamingStyle;

verus! {

/// A rule: names that match the pattern get the style.
#[derive(Clone, Debug)]
pub struct Behavior {
    pub pattern: String,
    pub style: NamingStyle,
}

/// How executables and package directories are recognised.
#[derive(Clone, Debug)]
pub struct DetectionRules {
    pub exe_extensions: Vec<String>,
    pub package_dirs: Vec<String>,
}

/// The configuration of a run. The rules are tried in the order in which
/// they stand.
#[derive(Clone, Debug)]
pub struct Config {
    pub replace_spaces: bool,
    pub behaviors: Vec<Behavior>,
    pub detection: DetectionRules,
}

/// The views of a list of strings.
pub open spec fn texts(v: Seq<String>) -> Seq<Seq<char>> {
    Seq::new(v.len(), |i: int| v[i]@)
}

/// The extensions that mark an executable unless configured otherwise.
pub open spec fn default_exe_extension_texts() -> Seq<Seq<char>> {
    seq!["exe"@, "bin"@, "app"@]
}

/// The file names that mark a package unless configured otherwise.
pub open spec fn default_package_dir_texts() -> Seq<Seq<char>> {
    seq!["package.json"@, "Cargo.toml"@, "pyproject.toml"@]
}

/// The configuration file with every default written out.
pub open spec fn default_config_text() -> Seq<char> {
    "replace_spaces = true\n\n[detection]\nexe_extensions = [\"exe\", \"bin\", \"app\"]\npackage_dirs = [\"package.json\", \"Cargo.toml\", \"pyproject.toml\"]\n"@
}

/// Whether a configuration is the default one.
pub open spec fn is_default_config(c: Config) -> bool {
    &&& c.replace_spaces
    &&& c.behaviors@.len() == 0
    &&& texts(c.detection.exe_extensions@) == default_exe_extension_texts()
    &&& texts(c.detection.package_dirs@) == default_package_dir_texts()
}

/// Spaces are replaced unless configured otherwise.
pub fn default_replace_spaces() -> (r: bool)
    ensures
        r,
{
    true
}

/// The default extensions of executables: `exe`, `bin` and `app`.
pub fn default_exe_extensions() -> (r: Vec<String>)
    ensures
        texts(r@) == default_exe_extension_texts(),
{
    let mut v: Vec<String> = Vec::new();
    v.push("exe".to_owned());
    v.push("bin".to_owned());
    v.push("app".to_owned());
    assert(texts(v@) =~= default_exe_extension_texts());
    v
}

/// The default package files: `package.json`, `Cargo.toml` and
/// `pyproject.toml`.
pub fn default_package_dirs() -> (r: Vec<String>)
    ensures
        texts(r@) == default_package_dir_texts(),
{
    let mut v: Vec<String> = Vec::new();
    v.push("package.json".to_owned());
    v.push("Cargo.toml".to_owned());
    v.push("pyproject.toml".to_owned());
    assert(texts(v@) =~= default_package_dir_texts());
    v
}

/// The text of the configuration file that is written where none exists.
pub fn get_default_config_toml() -> (r: String)
    ensures
        r@ == default_config_text(),
{
    "replace_spaces = true\n\n[detection]\nexe_extensions = [\"exe\", \"bin\", \"app\"]\npackage_dirs = [\"package.json\", \"Cargo.toml\", \"pyproject.toml\"]\n".to_owned()
}

impl Default for DetectionRules {
    fn default() -> (r: Self)
        ensures
            texts(r.exe_extensions@) == default_exe_extension_texts(),
            texts(r.package_dirs@) == default_package_dir_texts(),
    {
        DetectionRules {
            exe_extensions: default_exe_extensions(),
            package_dirs: default_package_dirs(),
        }
    }
}

impl Default for Config {
    fn default() -> (r: Self)
        ensures
            is_default_config(r),
    {
        Config {
            replace_spaces: true,
            behaviors: Vec::new(),
            detection: DetectionRules {
                exe_extensions: default_exe_extensions(),
                package_dirs: default_package_dirs(),
            },
        }
    }
}

} // verus!
