//! Host-provided access to MaterialX documents and texture assets.

use vstd::prelude::*;

verus! {

/// Reads MaterialX assets from a host-owned source such as a browser file picker.
///
/// Without one the host keeps using its own filesystem.
pub struct MaterialXAssetReader<F: Fn(&str) -> Result<Vec<u8>, String>> {
    read: F,
}

impl<F: Fn(&str) -> Result<Vec<u8>, String>> MaterialXAssetReader<F> {
    /// The function that the host reads assets with.
    pub closed spec fn reads(&self) -> F {
        self.read
    }

    pub fn new(read: F) -> (r: Self)
        ensures
            r.reads() == read,
    {
        MaterialXAssetReader { read }
    }

    /// What the host reads at `path`.
    pub fn read(&self, path: &str) -> (r: Result<Vec<u8>, String>)
        requires
            call_requires(self.reads(), (path,)),
        ensures
            call_ensures(self.reads(), (path,), r),
    {
        (self.read)(path)
    }

    /// Whether the host can read `path`.
    pub fn contains(&self, path: &str) -> (r: bool)
        requires
            call_requires(self.reads(), (path,)),
        ensures
            exists|read: Result<Vec<u8>, String>|
                #[trigger] call_ensures(self.reads(), (path,), read) && r == (read is Ok),
    {
        let read = self.read(path);
        read.is_ok()
    }
}

} // verus!
