use vstd::prelude::*;

verus! {

/// Error returned when a dispatch number is not one of the recognized values.
#[derive(Clone, Copy, Debug, PartialEq, Eq, Structural)]
pub enum NumberError {
    InvalidNumber,
}

/// The involved branch of the numeric dispatch; it always succeeds with the
/// fixed status text.
pub fn do_complex() -> (r: Result<String, NumberError>)
    ensures
        r is Ok,
        r->Ok_0@ == "Success"@,
{
    Ok("Success".to_owned())
}

/// Maps a dispatch number to its result string: the recognized even powers of
/// two yield an empty string, `32` runs the involved branch, and anything
/// else is rejected.
pub fn get_string_result(num: i32) -> (r: Result<String, NumberError>)
    ensures
        num == 16 || num == 64 ==> r is Ok && r->Ok_0@ == Seq::<char>::empty(),
        num == 32 ==> r is Ok && r->Ok_0@ == "Success"@,
        !(num == 16 || num == 32 || num == 64) ==> r == Err::<String, NumberError>(
            NumberError::InvalidNumber,
        ),
{
    match num {
        16 => Ok(String::new()),
        32 => do_complex(),
        64 => Ok(String::new()),
        _ => Err(NumberError::InvalidNumber),
    }
}

} // verus!
