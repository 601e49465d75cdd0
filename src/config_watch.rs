use vstd::prelude::*;

verus! {

/// Seconds between two looks for a configuration source that is absent.
pub const POLL_INTERVAL_SECS: u64 = 30;

/// Where the configuration source is.
#[derive(Debug, Clone, PartialEq, Eq)]
pub enum ConfigSource {
    /// The paths named explicitly (the `KUBECONFIG` list), empty ones left out.
    Explicit(Vec<String>),
    /// The conventional default path, which exists.
    Default(String),
    /// Neither.
    Absent,
}

/// What the watcher does next.
#[derive(Debug, Clone, PartialEq, Eq)]
pub enum WatchPlan {
    /// Listen for changes of these paths; on any change, reload the cluster
    /// set and listen anew.
    Listen(Vec<String>),
    /// Look again after this many seconds.
    Poll(u64),
}

pub open spec fn non_empty(paths: Seq<String>) -> Seq<Seq<char>>
    decreases paths.len(),
{
    if paths.len() == 0 {
        Seq::empty()
    } else if paths.last()@.len() == 0 {
        non_empty(paths.drop_last())
    } else {
        non_empty(paths.drop_last()).push(paths.last()@)
    }
}

pub open spec fn views(paths: Seq<String>) -> Seq<Seq<char>> {
    paths.map_values(|p: String| p@)
}

/// Decides where the configuration source is: the explicitly named paths
/// when at least one is not empty, otherwise the default path when it
/// exists, otherwise nowhere.
pub fn locate(explicit: Option<Vec<String>>, default_path: Option<String>, default_exists: bool) -> (r: ConfigSource)
    ensures
        match explicit {
            Some(paths) if non_empty(paths@).len() > 0 => r matches ConfigSource::Explicit(kept) && views(kept@) == non_empty(paths@),
            _ => match default_path {
                Some(p) if default_exists => r matches ConfigSource::Default(q) && q@ == p@,
                _ => r is Absent,
            },
        },
{
    match explicit {
        Some(paths) => {
            let mut kept: Vec<String> = Vec::new();
            let mut i: usize = 0;
            while i < paths.len()
                invariant
                    i <= paths@.len(),
                    views(kept@) == non_empty(paths@.subrange(0, i as int)),
                decreases paths@.len() - i,
            {
                proof {
                    assert(paths@.subrange(0, i + 1).drop_last() =~= paths@.subrange(0, i as int));
                }
                if !paths[i].as_str().is_empty() {
                    let ghost before = kept@;
                    kept.push(paths[i].clone());
                    proof {
                        assert(views(kept@) =~= views(before).push(paths@[i as int]@));
                    }
                }
                i = i + 1;
            }
            proof {
                assert(paths@.subrange(0, paths@.len() as int) =~= paths@);
            }
            if kept.len() > 0 {
                return ConfigSource::Explicit(kept);
            }
        },
        None => {},
    }
    match default_path {
        Some(p) => {
            if default_exists {
                ConfigSource::Default(p)
            } else {
                ConfigSource::Absent
            }
        },
        None => ConfigSource::Absent,
    }
}

/// What to do about a located source: listen to its paths, or poll every
/// thirty seconds until it appears.
pub fn plan(source: ConfigSource) -> (r: WatchPlan)
    ensures
        match source {
            ConfigSource::Explicit(paths) => r matches WatchPlan::Listen(ps) && views(ps@) == views(paths@),
            ConfigSource::Default(path) => r matches WatchPlan::Listen(ps) && views(ps@) == seq![path@],
            ConfigSource::Absent => r == WatchPlan::Poll(POLL_INTERVAL_SECS),
        },
{
    match source {
        ConfigSource::Explicit(paths) => WatchPlan::Listen(paths),
        ConfigSource::Default(path) => {
            let ghost pv = path@;
            let mut ps: Vec<String> = Vec::new();
            ps.push(path);
            proof {
                assert(views(ps@) =~= seq![pv]);
            }
            WatchPlan::Listen(ps)
        },
        ConfigSource::Absent => WatchPlan::Poll(POLL_INTERVAL_SECS),
    }
}

} // verus!
