use vstd::prelude::*;

verus! {

/// The load state of a cluster connection, without a payload.
#[derive(Debug, Clone, PartialEq, Eq)]
pub enum SimpleLoadStatus {
    Initial,
    Loading,
    Loaded,
    Error { error: String },
}

/// The lifecycle of a cached collection.
///
/// `Initial` is the only construction state; `Loading` is entered when a
/// fetch starts; `Loaded` holds the collection; `Error` holds the last failure.
#[derive(Debug, Clone)]
pub enum LoadStatus<T> {
    Initial,
    Loading,
    Loaded(T),
    Error(String),
}

/// The transitions the lifecycle allows: a fetch starts from any state but
/// `Loading`, and a started fetch ends either loaded or failed. Nothing leads
/// back to `Initial`.
pub open spec fn allowed_transition<T>(from: LoadStatus<T>, to: LoadStatus<T>) -> bool {
    match (from, to) {
        (LoadStatus::Initial, LoadStatus::Loading) => true,
        (LoadStatus::Loading, LoadStatus::Loaded(_)) => true,
        (LoadStatus::Loading, LoadStatus::Error(_)) => true,
        (LoadStatus::Loaded(_), LoadStatus::Loading) => true,
        (LoadStatus::Error(_), LoadStatus::Loading) => true,
        _ => false,
    }
}

impl<T> LoadStatus<T> {
    pub fn is_loaded(&self) -> (r: bool)
        ensures
            r == (self is Loaded),
    {
        match self {
            LoadStatus::Loaded(_) => true,
            _ => false,
        }
    }

    pub fn is_loading(&self) -> (r: bool)
        ensures
            r == (self is Loading),
    {
        match self {
            LoadStatus::Loading => true,
            _ => false,
        }
    }
}

} // verus!
