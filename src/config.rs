use vstd::prelude::*;

use crate::error::ConfigError;

verus! {

/// Whether a path names a record file: its file name has a stem and the extension `las` or `laz`.
pub open spec fn has_record_extension(p: Seq<char>) -> bool {
    let n = p.len();
    &&& n >= 5
    &&& p[n - 5] != '/'
    &&& p[n - 4] == '.'
    &&& p[n - 3] == 'l'
    &&& p[n - 2] == 'a'
    &&& (p[n - 1] == 's' || p[n - 1] == 'z')
}

/// The index of the first path in `ps` that does not name a record file.
pub open spec fn first_invalid_output(ps: Seq<Seq<char>>) -> Option<nat>
    decreases ps.len(),
{
    if ps.len() == 0 {
        None
    } else {
        match first_invalid_output(ps.drop_last()) {
            Some(i) => Some(i),
            None => if has_record_extension(ps.last()) { None } else { Some((ps.len() - 1) as nat) },
        }
    }
}

/// A path found invalid in a prefix stays the first invalid one of the whole list.
pub proof fn lemma_first_invalid_prefix(ps: Seq<Seq<char>>, m: int)
    requires
        0 <= m <= ps.len(),
        first_invalid_output(ps.subrange(0, m)) is Some,
    ensures
        first_invalid_output(ps) == first_invalid_output(ps.subrange(0, m)),
    decreases ps.len() - m,
{
    if m < ps.len() {
        assert(ps.subrange(0, m + 1).drop_last() =~= ps.subrange(0, m));
        lemma_first_invalid_prefix(ps, m + 1);
    } else {
        assert(ps.subrange(0, m) =~= ps);
    }
}

pub open spec fn paths_view(ps: Seq<String>) -> Seq<Seq<char>> {
    ps.map_values(|s: String| s@)
}

/// What is wrong with a run's configuration, checked in this order: the counts
/// of predicates and sinks, the sinks' extensions, the sources, the batch size.
pub open spec fn config_error(n_sources: nat, outputs: Seq<Seq<char>>, n_predicates: nat, batch_size: nat) -> Option<ConfigError> {
    if n_predicates != outputs.len() {
        Some(ConfigError::MismatchedFiltersAndOutputs { predicates: n_predicates as usize, sinks: outputs.len() as usize })
    } else {
        match first_invalid_output(outputs) {
            Some(i) => Some(ConfigError::InvalidOutputExtension { sink: i as usize }),
            None => if n_sources == 0 {
                Some(ConfigError::NoSources)
            } else if batch_size == 0 {
                Some(ConfigError::ZeroBatchSize)
            } else {
                None
            },
        }
    }
}

pub open spec fn config_result(n_sources: nat, outputs: Seq<Seq<char>>, n_predicates: nat, batch_size: nat) -> Result<(), ConfigError> {
    match config_error(n_sources, outputs, n_predicates, batch_size) {
        Some(e) => Err(e),
        None => Ok(()),
    }
}

/// Whether the path names a `.las` or `.laz` file.
pub fn is_record_path(p: &str) -> (r: bool)
    ensures
        r == has_record_extension(p@),
{
    let n = p.unicode_len();
    if n < 5 {
        return false;
    }
    p.get_char(n - 5) != '/' && p.get_char(n - 4) == '.' && p.get_char(n - 3) == 'l' && p.get_char(n - 2) == 'a'
        && (p.get_char(n - 1) == 's' || p.get_char(n - 1) == 'z')
}

/// Checks a run's configuration before anything is opened.
pub fn validate_config(n_sources: usize, outputs: &Vec<String>, n_predicates: usize, batch_size: usize) -> (r: Result<(), ConfigError>)
    ensures
        r == config_result(n_sources as nat, paths_view(outputs@), n_predicates as nat, batch_size as nat),
{
    let ghost pv = paths_view(outputs@);
    if n_predicates != outputs.len() {
        return Err(ConfigError::MismatchedFiltersAndOutputs { predicates: n_predicates, sinks: outputs.len() });
    }
    let mut i: usize = 0;
    while i < outputs.len()
        invariant
            i <= outputs.len(),
            pv == paths_view(outputs@),
            n_predicates == outputs.len(),
            first_invalid_output(pv.subrange(0, i as int)) is None,
        decreases outputs.len() - i,
    {
        assert(pv.subrange(0, i + 1).drop_last() =~= pv.subrange(0, i as int));
        if !is_record_path(outputs[i].as_str()) {
            proof {
                assert(pv[i as int] == outputs[i as int]@);
                assert(pv.subrange(0, i + 1).last() == pv[i as int]);
                assert(first_invalid_output(pv.subrange(0, i + 1)) == Some(i as nat));
                lemma_first_invalid_prefix(pv, i + 1);
            }
            return Err(ConfigError::InvalidOutputExtension { sink: i });
        }
        i = i + 1;
    }
    assert(pv.subrange(0, outputs.len() as int) =~= pv);
    if n_sources == 0 {
        return Err(ConfigError::NoSources);
    }
    if batch_size == 0 {
        return Err(ConfigError::ZeroBatchSize);
    }
    Ok(())
}

/// Relies on num_cpus::get, which documents that it returns at least 1.
pub assume_specification[ num_cpus::get ]() -> (r: usize)
    ensures
        r >= 1,
;

/// The number of read workers: the logical cores less two and less one for each
/// sink writer, and at least one.
pub open spec fn pool_size(cpus: nat, n_sinks: nat) -> nat {
    if cpus >= n_sinks + 3 { (cpus - 2 - n_sinks) as nat } else { 1 }
}

pub fn reader_pool_size(cpus: usize, n_sinks: usize) -> (r: usize)
    ensures
        r == pool_size(cpus as nat, n_sinks as nat),
        r >= 1,
{
    if cpus >= 3 && cpus - 3 >= n_sinks {
        cpus - 2 - n_sinks
    } else {
        1
    }
}

/// The number of read workers for a run with `n_sinks` sinks on this machine.
pub fn reader_threads(n_sinks: usize) -> (r: usize)
    ensures
        r >= 1,
        exists|cpus: nat| cpus >= 1 && r == pool_size(cpus, n_sinks as nat),
{
    let cpus = num_cpus::get();
    reader_pool_size(cpus, n_sinks)
}

} // verus!
