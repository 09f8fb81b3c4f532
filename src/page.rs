use vstd::prelude::*;

verus! {

/// The text of a fetched web page, as call arguments carry it.
#[derive(Clone)]
pub struct Html(pub String);

} // verus!
