//! The directories that the shell keeps its files in.

use crate::shell::text::{bytes_of, same_bytes};
use vstd::prelude::*;
use vstd::string::StringSliceAdditionalSpecFns;

verus! {

/// The shell's data, cache and config directories.
#[derive(Debug, Clone, PartialEq, Eq)]
pub struct NeoshPaths {
    pub data: Vec<u8>,
    pub cache: Vec<u8>,
    pub config: Vec<u8>,
}

impl NeoshPaths {
    /// The directory of the given kind, or the error for a kind that is
    /// none of `data`, `cache` and `config`.
    pub open spec fn spec_stdpath(self, kind: Seq<u8>) -> Result<Seq<u8>, Seq<u8>> {
        if kind == "data".spec_bytes() {
            Ok(self.data@)
        } else if kind == "cache".spec_bytes() {
            Ok(self.cache@)
        } else if kind == "config".spec_bytes() {
            Ok(self.config@)
        } else {
            Err("Unknown stdpath kind provided".spec_bytes())
        }
    }

    /// Looks a directory up by its kind: `data`, `cache` or `config`.
    pub fn stdpath(self, kind: &[u8]) -> (r: Result<Vec<u8>, Vec<u8>>)
        ensures
            match self.spec_stdpath(kind@) {
                Ok(path) => r is Ok && r->Ok_0@ == path,
                Err(message) => r is Err && r->Err_0@ == message,
            },
    {
        if same_bytes(kind, "data".as_bytes()) {
            Ok(self.data)
        } else if same_bytes(kind, "cache".as_bytes()) {
            Ok(self.cache)
        } else if same_bytes(kind, "config".as_bytes()) {
            Ok(self.config)
        } else {
            Err(bytes_of("Unknown stdpath kind provided"))
        }
    }
}

} // verus!
