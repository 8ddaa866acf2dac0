use vstd::prelude::*;

verus! {

/// A fixed-size public identifier for an account or a program.
#[derive(Clone, Copy, Debug)]
pub struct Address {
    pub bytes: [u8; 32],
}

impl View for Address {
    type V = Seq<u8>;

    open spec fn view(&self) -> Seq<u8> {
        self.bytes@
    }
}

impl Address {
    pub fn new(bytes: [u8; 32]) -> (r: Address)
        ensures
            r@ == bytes@,
    {
        Address { bytes }
    }
}

/// The system program's id: thirty-two zero bytes.
pub open spec fn system_program_id() -> Seq<u8> {
    Seq::new(32, |i: int| 0u8)
}

/// The view of an optional address.
pub open spec fn opt_view(o: Option<Address>) -> Option<Seq<u8>> {
    match o {
        Option::Some(a) => Option::Some(a@),
        Option::None => Option::None,
    }
}

/// Decodes an address string, failing exactly when the string is not the
/// encoding of a 32-byte address. No other validation happens here, so a
/// malformed address is rejected before anything is fetched or built.
pub fn parse_address(s: &str) -> (r: Result<Address, crate::error::TokenError>)
    ensures
        match r {
            Ok(a) => crate::spl::decoded_address(s@) == Some(a@),
            Err(e) => e == crate::error::TokenError::InvalidAddress
                && crate::spl::decoded_address(s@) is None,
        },
{
    crate::spl::decode_address(s)
}

} // verus!
