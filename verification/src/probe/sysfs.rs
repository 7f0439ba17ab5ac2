//! Where the sysfs and procfs hierarchies are rooted: the live host or a fixture tree.

use crate::text::{chars_of, join_path, path_join, string_from, trim_leading_slashes, trim_slashes_chars};
use vstd::prelude::*;

verus! {

/// A root under which sysfs and procfs paths are resolved.
pub trait SysfsProvider {
    /// Root path of the hierarchy.
    fn root(&self) -> String;
}

/// The live host, rooted at "/".
#[derive(Debug, Default, Clone, Copy)]
pub struct RealSysfs;

impl SysfsProvider for RealSysfs {
    fn root(&self) -> (r: String)
        ensures
            r@ == "/"@,
    {
        string_from("/")
    }
}

/// A fixture tree for hermetic tests.
#[derive(Debug, Clone)]
pub struct MockSysfs {
    pub fixture_root: String,
}

impl MockSysfs {
    pub fn new(fixture_root: String) -> (m: Self)
        ensures
            m.fixture_root@ == fixture_root@,
    {
        Self { fixture_root }
    }
}

impl SysfsProvider for MockSysfs {
    fn root(&self) -> (r: String)
        ensures
            r@ == self.fixture_root@,
    {
        string_from(self.fixture_root.as_str())
    }
}

/// The full path of a sysfs or procfs entry: leading '/' are dropped from
/// `path`, which is then resolved under `root`.
pub fn resolve(root: &str, path: &str) -> (r: String)
    ensures
        r@ == path_join(root@, trim_leading_slashes(path@)),
{
    let rel = trim_slashes_chars(&chars_of(path));
    join_path(root, &rel)
}

} // verus!
