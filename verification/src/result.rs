use vstd::prelude::*;
use crate::error::XDPError;

verus! {

pub type XDPResult<T> = Result<T, XDPError>;

} // verus!
