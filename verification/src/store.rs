//! The result store: deterministic paths under `results/` and the writes
//! that persist one run's artifacts.
//!
//! The store's contract is purely filesystem-shaped: issue `i`, run `k` maps
//! to `results/<i>/run_<k>/`, and persisting a file means create-or-truncate
//! followed by one complete byte buffer. The functions here compute the
//! paths and the full list of writes; the tool layer performs them.

use vstd::prelude::*;
use vstd::string::StrSliceExecFns;
use vstd::string::StringSliceAdditionalSpecFns;

use crate::bytes::dec_nat;
use crate::bytes::push_all;
use crate::bytes::u64_to_dec;
use crate::outcome::RunArtifacts;

verus! {

/// Path of the directory that holds everything recorded for one issue.
pub open spec fn issue_dir_path(issue_id: u64) -> Seq<u8> {
    "results/".spec_bytes() + dec_nat(issue_id as nat)
}

/// Path of the directory that holds one run's three artifacts.
pub open spec fn run_dir_path(issue_id: u64, run_index: u64) -> Seq<u8> {
    issue_dir_path(issue_id) + "/run_".spec_bytes() + dec_nat(run_index as nat)
}

/// Builds `results/<issue_id>`.
pub fn issue_dir(issue_id: u64) -> (p: Vec<u8>)
    ensures
        p@ == issue_dir_path(issue_id),
{
    let mut p = "results/".as_bytes_vec();
    let digits = u64_to_dec(issue_id);
    push_all(&mut p, digits.as_slice());
    p
}

/// Builds `results/<issue_id>/run_<run_index>`.
pub fn run_dir(issue_id: u64, run_index: u64) -> (p: Vec<u8>)
    ensures
        p@ == run_dir_path(issue_id, run_index),
{
    let mut p = issue_dir(issue_id);
    let sep = "/run_".as_bytes_vec();
    push_all(&mut p, sep.as_slice());
    let digits = u64_to_dec(run_index);
    push_all(&mut p, digits.as_slice());
    proof {
        assert(p@ =~= run_dir_path(issue_id, run_index));
    }
    p
}

/// One file the store must persist: create or truncate `path`, then write
/// `content` as the file's complete bytes.
#[derive(Debug, Clone, PartialEq, Eq)]
pub struct StoreWrite {
    pub path: Vec<u8>,
    pub content: Vec<u8>,
}

/// Path of one artifact file inside a run directory.
pub open spec fn artifact_path(run_dir: Seq<u8>, name: Seq<u8>) -> Seq<u8> {
    run_dir + "/".spec_bytes() + name
}

fn join(dir: &Vec<u8>, name: &str) -> (p: Vec<u8>)
    ensures
        p@ == artifact_path(dir@, name.spec_bytes()),
{
    let mut p: Vec<u8> = Vec::new();
    push_all(&mut p, dir.as_slice());
    proof {
        assert(p@ =~= dir@);
    }
    let slash = "/".as_bytes_vec();
    push_all(&mut p, slash.as_slice());
    let n = name.as_bytes_vec();
    push_all(&mut p, n.as_slice());
    proof {
        assert(p@ =~= artifact_path(dir@, name.spec_bytes()));
    }
    p
}

/// The three writes that persist one run's artifacts, in the order stdout,
/// stderr, status. Re-running over an existing directory issues the same
/// three truncating writes, so the directory afterwards holds exactly the
/// latest run's content.
pub fn run_store_writes(run_dir: &Vec<u8>, a: RunArtifacts) -> (w: Vec<StoreWrite>)
    ensures
        w@.len() == 3,
        w@[0].path@ == artifact_path(run_dir@, "stdout.txt".spec_bytes()),
        w@[0].content@ == a.stdout@,
        w@[1].path@ == artifact_path(run_dir@, "stderr.txt".spec_bytes()),
        w@[1].content@ == a.stderr@,
        w@[2].path@ == artifact_path(run_dir@, "exit_code.txt".spec_bytes()),
        w@[2].content@ == a.exit_code@,
{
    let mut w: Vec<StoreWrite> = Vec::new();
    w.push(StoreWrite { path: join(run_dir, "stdout.txt"), content: a.stdout });
    w.push(StoreWrite { path: join(run_dir, "stderr.txt"), content: a.stderr });
    w.push(StoreWrite { path: join(run_dir, "exit_code.txt"), content: a.exit_code });
    w
}

} // verus!
