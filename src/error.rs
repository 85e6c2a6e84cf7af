use vstd::prelude::*;

verus! {

/// Why a capture could not produce an image.
#[derive(Clone, Copy, Debug, PartialEq, Eq, Structural)]
pub enum CaptureError {
    /// The display server connection could not be established.
    ConnectionFailure,
    /// The image-fetch request was rejected or no reply arrived.
    RequestFailure,
    /// The server's pixmap format table has no entry for the reply's depth.
    PixmapFormatNotFound { depth: u8 },
    /// The reply's depth is not one of 8, 16, 24 or 32.
    UnsupportedDepth { depth: u8 },
    /// The decoded samples do not fill an image of the declared size.
    BufferConstructionFailure,
    /// The rectangle is empty or does not fit the request's coordinate ranges.
    InvalidRegion,
    /// The reply holds fewer bytes than its pixels need.
    IncompleteReply,
}

} // verus!
