//! The run configuration: the invocation's values, held as plain
//! bytes, with the folder list already split into individual names.

use vstd::prelude::*;

use crate::text::{join_path, resolve_input_path, split_commas, split_names};
use crate::ErrorMode;

verus! {

/// Everything one run is parameterized by, built once from the
/// invocation arguments and read-only thereafter.
pub struct RunConfig {
    /// The name of the input file looked for in each folder.
    pub filename: Vec<u8>,
    /// The base directory under which the folders are located.
    pub root: Vec<u8>,
    /// The folder names, in the order they were listed.
    pub folders: Vec<Vec<u8>>,
    /// The label of the column added in front of every output row.
    pub column: Vec<u8>,
    /// The path of the output file.
    pub output: Vec<u8>,
    /// Whether per-folder progress messages are wanted.
    pub verbose: bool,
    /// The policy for a folder whose input file is absent.
    pub mode: ErrorMode,
}

impl RunConfig {
    /// Builds a run configuration, splitting the comma-delimited folder
    /// list into individual names; empty segments pass through as
    /// literal empty folder names.
    pub fn new(
        filename: Vec<u8>,
        root: Vec<u8>,
        folder_list: &Vec<u8>,
        column: Vec<u8>,
        output: Vec<u8>,
        verbose: bool,
        mode: ErrorMode,
    ) -> (r: RunConfig)
        ensures
            r.filename@ == filename@,
            r.root@ == root@,
            r.folders@.map_values(|p: Vec<u8>| p@) == split_commas(folder_list@),
            r.column@ == column@,
            r.output@ == output@,
            r.verbose == verbose,
            r.mode == mode,
    {
        let folders = split_names(folder_list);
        RunConfig { filename, root, folders, column, output, verbose, mode }
    }

    /// The paths `root/folder/filename`, one per folder, in listed
    /// order: where each folder's input file is looked for.
    pub fn input_paths(&self) -> (r: Vec<Vec<u8>>)
        ensures
            r@.len() == self.folders@.len(),
            forall|j: int|
                0 <= j < r@.len() ==> r@[j]@ == join_path(
                    join_path(self.root@, self.folders@[j]@),
                    self.filename@,
                ),
    {
        let mut out: Vec<Vec<u8>> = Vec::new();
        let mut i: usize = 0;
        while i < self.folders.len()
            invariant
                i <= self.folders@.len(),
                out@.len() == i,
                forall|j: int|
                    0 <= j < i ==> out@[j]@ == join_path(
                        join_path(self.root@, self.folders@[j]@),
                        self.filename@,
                    ),
            decreases self.folders@.len() - i,
        {
            let p = resolve_input_path(&self.root, &self.folders[i], &self.filename);
            out.push(p);
            i = i + 1;
        }
        out
    }
}

} // verus!
