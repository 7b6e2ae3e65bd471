use vstd::prelude::*;

verus! {

/// A failure reported by the library or by one of the devices, scripts or
/// sockets it drives, with a message for the user.
#[derive(Debug)]
pub struct AudError {
    pub message: String,
}

impl AudError {
    pub fn new(message: &str) -> (r: Self)
        ensures
            r.message@ == message@,
    {
        AudError { message: message.to_string() }
    }
}

} // verus!
