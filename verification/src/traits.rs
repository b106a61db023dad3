//! What a message body must offer to travel in a packet.
use vstd::prelude::*;

verus! {

/// A client-to-server message body that can be laid out as packet bytes.
pub trait IntoExdata: Send + 'static + Sized {
    /// The bytes that the body is laid out as.
    spec fn exdata_view(&self) -> Seq<u8>;

    /// The body can be laid out without overflowing its length fields.
    spec fn exdata_ready(&self) -> bool;

    /// Lays the body out as the bytes of a packet's payload.
    fn into_exdata(self) -> (r: Vec<u8>)
        requires
            self.exdata_ready(),
        ensures
            r@ == self.exdata_view(),
    ;
}

/// A server-to-client message body read from packet bytes.
pub trait FromExdata {

}

} // verus!
