use vstd::prelude::*;

verus! {

/// Relies on std's SystemTime to read the wall clock as seconds since the
/// unix epoch. The value depends on the machine's clock, so nothing is
/// promised of it.
#[verifier::external_body]
pub fn now_unix() -> u64 {
    match std::time::SystemTime::now().duration_since(std::time::UNIX_EPOCH) {
        Ok(d) => d.as_secs(),
        Err(_) => 0,
    }
}

} // verus!
