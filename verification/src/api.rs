//! Records of the station's HTTP API.
use vstd::prelude::*;

verus! {

/// The body of an internal server error.
#[derive(Clone, Debug)]
pub struct InternalError {
    pub message: String,
    pub backtrace: Option<String>,
}

/// A stored capture, as the API lists it.
#[derive(Clone, Debug)]
pub struct CaptureEntry {
    pub file_name: String,
    /// Whether this capture is being written right now.
    pub active: bool,
}

/// The outcome of an API call: a success value or an error.
#[derive(Debug)]
pub struct ApiResponse<S, E>(pub Result<S, E>);

impl<S, E> From<Result<S, E>> for ApiResponse<S, E> {
    fn from(value: Result<S, E>) -> (r: Self) {
        ApiResponse(value)
    }
}

impl<S, E> vstd::std_specs::convert::FromSpecImpl<Result<S, E>> for ApiResponse<S, E> {
    open spec fn obeys_from_spec() -> bool {
        true
    }

    open spec fn from_spec(value: Result<S, E>) -> Self {
        ApiResponse(value)
    }
}

/// The list of captures: one entry per stored file name, in order, marked
/// active where it is the capture being written (`active_file_name`).
pub fn capture_entries(file_names: &Vec<String>, active_file_name: Option<&String>) -> (r: Vec<
    CaptureEntry,
>)
    ensures
        r@.len() == file_names@.len(),
        forall|i: int|
            0 <= i < r@.len() ==> #[trigger] r@[i].file_name@ == file_names@[i]@ && r@[i].active == (
            active_file_name matches Some(a) && a@ == file_names@[i]@),
{
    let mut entries: Vec<CaptureEntry> = Vec::new();
    let mut i: usize = 0;
    while i < file_names.len()
        invariant
            i <= file_names@.len(),
            entries@.len() == i,
            forall|j: int|
                0 <= j < i ==> #[trigger] entries@[j].file_name@ == file_names@[j]@
                    && entries@[j].active == (active_file_name matches Some(a) && a@
                    == file_names@[j]@),
        decreases file_names@.len() - i,
    {
        let name = file_names[i].clone();
        let active = match active_file_name {
            Some(a) => a.eq(&name),
            None => false,
        };
        let ghost before = entries@;
        entries.push(CaptureEntry { file_name: name, active });
        assert(entries@[i as int].file_name@ == file_names@[i as int]@);
        assert(forall|j: int| 0 <= j < i ==> entries@[j] == before[j]);
        i = i + 1;
    }
    entries
}

} // verus!
