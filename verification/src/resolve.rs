//! The collision resolver for sequential renaming: probe candidate
//! names, incrementing the counter, until a free one is found. The probe
//! against the live filesystem asks the standard library whether a file
//! exists; a pure variant probes against a given list of names.

use crate::naming::{sequential_file_name, sequential_name, str_eq};
use vstd::prelude::*;

verus! {

/// The full path `{dir}/{base}{ext}`.
pub open spec fn joined_path(dir: Seq<char>, base: Seq<char>, ext: Seq<char>) -> Seq<char> {
    dir + seq!['/'] + base + ext
}

/// Builds the full path `{dir}/{base}{ext}`.
pub fn join_path(dir: &str, base: &str, ext: &str) -> (r: String)
    ensures
        r@ == joined_path(dir@, base@, ext@),
{
    let mut r = dir.to_owned();
    r.append("/");
    r.append(base);
    r.append(ext);
    proof {
        reveal_strlit("/");
        assert(r@ =~= joined_path(dir@, base@, ext@));
    }
    r
}

/// Relies on std::path::Path::is_file: whether a regular file exists at
/// this path right now. The answer depends on the disk at the moment of
/// the call, so nothing is promised of it.
#[verifier::external_body]
fn path_is_file(path: &String) -> bool {
    std::path::Path::new(path.as_str()).is_file()
}

/// Probes `{dir}/{prefix}_{counter}{ext}` against the live filesystem
/// and, while a file exists there, increments the counter. Returns the
/// first candidate path at which no file was seen, or `None` when the
/// counter space was exhausted without finding one.
pub fn resolve_collision(dir: &str, prefix: &str, ext: &str, counter: &mut u64) -> (r: Option<
    String,
>)
    ensures
        *final(counter) >= *old(counter),
        r matches Some(path) ==> path@ == joined_path(
            dir@,
            sequential_name(prefix@, *final(counter) as nat),
            ext@,
        ),
        r is None ==> *final(counter) == u64::MAX,
{
    loop
        invariant
            *counter >= *old(counter),
        decreases u64::MAX - *counter,
    {
        let base = sequential_file_name(prefix, *counter);
        let cand = join_path(dir, base.as_str(), ext);
        if !path_is_file(&cand) {
            return Some(cand);
        }
        if *counter == u64::MAX {
            return None;
        }
        *counter = *counter + 1;
    }
}

/// Whether some string in `names` holds exactly the characters `s`.
pub open spec fn contains_name(names: Seq<String>, s: Seq<char>) -> bool {
    exists|i: int| 0 <= i < names.len() && names[i]@ == s
}

/// The candidate file name `{prefix}_{n}{ext}`.
pub open spec fn candidate_name(prefix: Seq<char>, n: nat, ext: Seq<char>) -> Seq<char> {
    sequential_name(prefix, n) + ext
}

/// Law: with one prefix and one extension, distinct counter values give
/// distinct candidate file names, so the names one sequential run
/// assigns never collide with one another.
pub proof fn lemma_candidate_name_injective(prefix: Seq<char>, ext: Seq<char>, m: nat, n: nat)
    requires
        candidate_name(prefix, m, ext) == candidate_name(prefix, n, ext),
    ensures
        m == n,
{
    let cm = candidate_name(prefix, m, ext);
    let cn = candidate_name(prefix, n, ext);
    let sm = sequential_name(prefix, m);
    let sn = sequential_name(prefix, n);
    assert(sm.len() == cm.len() - ext.len() && sn.len() == cn.len() - ext.len());
    assert(sm =~= cm.subrange(0, cm.len() - ext.len()));
    assert(sn =~= cn.subrange(0, cn.len() - ext.len()));
    crate::naming::lemma_sequential_name_injective(prefix, m, n);
}

fn name_taken(existing: &Vec<String>, name: &String) -> (r: bool)
    ensures
        r == contains_name(existing@, name@),
{
    let mut i: usize = 0;
    while i < existing.len()
        invariant
            i <= existing@.len(),
            forall|j: int| 0 <= j < i ==> existing@[j]@ != name@,
        decreases existing@.len() - i,
    {
        if str_eq(existing[i].as_str(), name.as_str()) {
            return true;
        }
        i += 1;
    }
    false
}

/// The first index at or after `start` whose candidate file name
/// `{prefix}_{i}{ext}` does not occur in `existing`, or `None` when
/// every index up to `u64::MAX` is taken.
pub fn first_free_index(existing: &Vec<String>, prefix: &str, ext: &str, start: u64) -> (r: Option<
    u64,
>)
    ensures
        r matches Some(i) ==> start <= i && !contains_name(
            existing@,
            candidate_name(prefix@, i as nat, ext@),
        ) && forall|j: int|
            start <= j < i ==> contains_name(
                existing@,
                #[trigger] candidate_name(prefix@, j as nat, ext@),
            ),
        r is None ==> forall|j: int|
            start <= j <= u64::MAX ==> contains_name(
                existing@,
                #[trigger] candidate_name(prefix@, j as nat, ext@),
            ),
{
    let mut i: u64 = start;
    loop
        invariant
            start <= i,
            forall|j: int|
                start <= j < i ==> contains_name(
                    existing@,
                    #[trigger] candidate_name(prefix@, j as nat, ext@),
                ),
        decreases u64::MAX - i,
    {
        let base = sequential_file_name(prefix, i);
        let cand = base.concat(ext);
        if !name_taken(existing, &cand) {
            return Some(i);
        }
        if i == u64::MAX {
            return None;
        }
        i = i + 1;
    }
}

} // verus!
