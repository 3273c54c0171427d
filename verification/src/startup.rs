//! Startup-time checks: the rules that decide whether the daemon may start at
//! all, and the search-path candidates for the external transfer command.

use vstd::prelude::*;
use vstd::string::StringExecFns;

verus! {

/// Why the daemon refused to start. Every variant is fatal before the
/// dispatch loop ever runs.
#[derive(Debug, Clone, Copy, PartialEq, Eq)]
pub enum StartupError {
    /// No platform configuration directory is known.
    ConfigDirUnknown,
    /// The configuration directory's path is not valid Unicode.
    ConfigPathNotUnicode,
    /// The configuration file does not exist.
    ConfigFileMissing,
    /// The external transfer command is absent from the search path.
    TransferCommandMissing,
}

/// Decide whether the daemon may start, from the two facts probed at startup:
/// the configuration file is checked first, then the transfer command.
pub fn do_checks(config_file_exists: bool, transfer_command_found: bool) -> (r: Result<
    (),
    StartupError,
>)
    ensures
        r matches Ok(()) <==> (config_file_exists && transfer_command_found),
        !config_file_exists ==> r == Err::<(), StartupError>(StartupError::ConfigFileMissing),
        config_file_exists && !transfer_command_found ==> r == Err::<(), StartupError>(
            StartupError::TransferCommandMissing,
        ),
{
    if !config_file_exists {
        Err(StartupError::ConfigFileMissing)
    } else if !transfer_command_found {
        Err(StartupError::TransferCommandMissing)
    } else {
        Ok(())
    }
}

/// The segments of a search-path string, split at every colon; empty segments
/// are kept, and a string without colons is one segment.
pub open spec fn split_colon(s: Seq<char>) -> Seq<Seq<char>>
    decreases s.len(),
{
    if s.len() == 0 {
        seq![Seq::<char>::empty()]
    } else if s.last() == ':' {
        split_colon(s.drop_last()).push(Seq::<char>::empty())
    } else {
        let r = split_colon(s.drop_last());
        r.update(r.len() - 1, r.last().push(s.last()))
    }
}

/// Splitting yields at least one segment.
pub proof fn lemma_split_colon_nonempty(s: Seq<char>)
    ensures
        split_colon(s).len() >= 1,
    decreases s.len(),
{
    if s.len() > 0 {
        lemma_split_colon_nonempty(s.drop_last());
    }
}

/// The file the program would occupy inside one search-path directory.
pub open spec fn candidate_of(dir: Seq<char>, program: Seq<char>) -> Seq<char> {
    dir.push('/') + program
}

/// All files, one per search-path segment, at which the program would be
/// found: each segment with a path separator and the program name appended,
/// in the order the segments stand in the search path.
#[verifier::loop_isolation(false)]
pub fn candidate_paths(path_var: &str, program: &str) -> (r: Vec<String>)
    ensures
        r@.map_values(|c: String| c@) =~= split_colon(path_var@).map_values(
            |d: Seq<char>| candidate_of(d, program@),
        ),
{
    let n: usize = path_var.unicode_len();
    let mut result: Vec<String> = Vec::new();
    let mut seg_start: usize = 0;
    let mut i: usize = 0;
    proof {
        reveal_strlit("/");
    }
    while i < n
        invariant
            seg_start <= i <= n,
            split_colon(path_var@.take(i as int)).len() == result@.len() + 1,
            forall|k: int| 0 <= k < result@.len() ==> result@[k]@ == candidate_of(
                #[trigger] split_colon(path_var@.take(i as int))[k],
                program@,
            ),
            split_colon(path_var@.take(i as int)).last() =~= path_var@.subrange(
                seg_start as int,
                i as int,
            ),
        decreases n - i,
    {
        proof {
            assert(path_var@.take(i + 1 as int).drop_last() =~= path_var@.take(i as int));
            lemma_split_colon_nonempty(path_var@.take(i as int));
        }
        let ghost prev = split_colon(path_var@.take(i as int));
        let c = path_var.get_char(i);
        if c == ':' {
            let seg = path_var.substring_char(seg_start, i);
            let mut cand = seg.to_owned();
            cand.append("/");
            cand.append(program);
            proof {
                assert(cand@ =~= candidate_of(prev.last(), program@));
            }
            result.push(cand);
            seg_start = i + 1;
            proof {
                let next = split_colon(path_var@.take(i + 1 as int));
                assert(next == prev.push(Seq::<char>::empty()));
                assert forall|k: int| 0 <= k < result@.len() implies result@[k]@ == candidate_of(
                    #[trigger] next[k],
                    program@,
                ) by {
                    assert(prev.last() == prev[prev.len() - 1]);
                    assert(next[k] == prev[k]);
                }
                assert(next.last() =~= path_var@.subrange(i + 1 as int, i + 1 as int));
            }
        } else {
            proof {
                let next = split_colon(path_var@.take(i + 1 as int));
                assert(next == prev.update(prev.len() - 1, prev.last().push(path_var@[i as int])));
                assert forall|k: int| 0 <= k < result@.len() implies result@[k]@ == candidate_of(
                    #[trigger] next[k],
                    program@,
                ) by {
                    assert(next[k] == prev[k]);
                }
                assert(next.last() == next[next.len() - 1]);
                assert(next.last() =~= path_var@.subrange(seg_start as int, i + 1 as int));
            }
        }
        i = i + 1;
    }
    proof {
        assert(path_var@.take(n as int) =~= path_var@);
        lemma_split_colon_nonempty(path_var@);
    }
    let seg = path_var.substring_char(seg_start, n);
    let mut cand = seg.to_owned();
    cand.append("/");
    cand.append(program);
    proof {
        assert(cand@ =~= candidate_of(split_colon(path_var@).last(), program@));
    }
    result.push(cand);
    proof {
        let segs = split_colon(path_var@);
        assert(segs.last() == segs[segs.len() - 1]);
        assert forall|k: int| 0 <= k < segs.len() implies result@[k]@ == candidate_of(
            #[trigger] segs[k],
            program@,
        ) by {}
        assert(result@.map_values(|c: String| c@) =~= segs.map_values(
            |d: Seq<char>| candidate_of(d, program@),
        ));
    }
    result
}

} // verus!
