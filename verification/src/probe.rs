//! The prober: what the answer to a metadata request says about the
//! resource.

use crate::decimal::{parse_u64, parsed_u64};
use crate::error::{ErrorKind, TransferError};
use vstd::prelude::*;

verus! {

/// What is known of the resource before any of its bytes are fetched.
#[derive(Debug, Clone, Copy, PartialEq, Eq, Structural)]
pub struct FileInfo {
    /// The length of the resource in bytes.
    pub content_length: u64,
    /// Whether the server said that it serves byte ranges.
    pub supports_range: bool,
}

/// Whether `status` lies in the success class of HTTP status codes.
pub open spec fn is_success(status: u16) -> bool {
    200 <= status < 300
}

/// Tells whether `status` is a success status.
pub fn status_is_success(status: u16) -> (ok: bool)
    ensures
        ok == is_success(status),
{
    200 <= status && status < 300
}

/// The bytes of the token `bytes`, the one value of the capability
/// indicator that says that ranges are served.
pub open spec fn bytes_token() -> Seq<u8> {
    seq![0x62, 0x79, 0x74, 0x65, 0x73]
}

/// What a header value that may be absent holds.
pub open spec fn header_view(value: Option<&[u8]>) -> Option<Seq<u8>> {
    match value {
        Some(bytes) => Some(bytes@),
        None => None,
    }
}

/// Whether a capability indicator says that ranges are served: it is
/// there and is exactly the token `bytes`.
pub open spec fn advertises_ranges(accept_ranges: Option<Seq<u8>>) -> bool {
    accept_ranges == Some(bytes_token())
}

/// The length that a length indicator reports: zero where it is absent,
/// the number it writes where it writes one, nothing otherwise.
pub open spec fn reported_length(content_length: Option<Seq<u8>>) -> Option<u64> {
    match content_length {
        None => Some(0),
        Some(value) => parsed_u64(value),
    }
}

/// Tells whether `value` is exactly the token `bytes`.
pub fn is_bytes_token(value: &[u8]) -> (yes: bool)
    ensures
        yes == (value@ == bytes_token()),
{
    let yes = value.len() == 5 && value[0] == 0x62 && value[1] == 0x79 && value[2] == 0x74
        && value[3] == 0x65 && value[4] == 0x73;
    proof {
        if yes {
            assert(value@ =~= bytes_token());
        }
    }
    yes
}

/// What the answer to a metadata request says about the resource, or the
/// kind and message of the error that it amounts to.
///
/// A status outside the success class is an `UpstreamStatus` error. An
/// absent length indicator means length zero; one that does not write an
/// unsigned 64-bit number is a `MissingOrInvalidHeader` error. Ranges are
/// supported only where the capability indicator is the token `bytes`.
pub open spec fn probed(
    status: u16,
    content_length: Option<Seq<u8>>,
    accept_ranges: Option<Seq<u8>>,
) -> Result<FileInfo, (ErrorKind, Seq<char>)> {
    if !is_success(status) {
        Err((ErrorKind::UpstreamStatus, "invalid status code"@))
    } else {
        match reported_length(content_length) {
            None => Err((ErrorKind::MissingOrInvalidHeader, "invalid content-length header"@)),
            Some(length) => Ok(
                FileInfo {
                    content_length: length,
                    supports_range: advertises_ranges(accept_ranges),
                },
            ),
        }
    }
}

/// Reads the answer to a metadata request: its status and the values of
/// its length and capability indicators, each absent or as the bytes
/// received.
pub fn file_info(status: u16, content_length: Option<&[u8]>, accept_ranges: Option<&[u8]>) -> (info:
    Result<FileInfo, TransferError>)
    ensures
        match info {
            Ok(info) => probed(status, header_view(content_length), header_view(accept_ranges))
                == Ok::<FileInfo, (ErrorKind, Seq<char>)>(info),
            Err(err) => probed(status, header_view(content_length), header_view(accept_ranges))
                matches Err((kind, msg)) && err.kind == kind && err.detail@ == seq![msg],
        },
{
    if !status_is_success(status) {
        return Err(TransferError::new(ErrorKind::UpstreamStatus, "invalid status code"));
    }
    let length = match content_length {
        None => 0,
        Some(value) => match parse_u64(value) {
            Some(length) => length,
            None => {
                return Err(
                    TransferError::new(
                        ErrorKind::MissingOrInvalidHeader,
                        "invalid content-length header",
                    ),
                );
            },
        },
    };
    let supports_range = match accept_ranges {
        None => false,
        Some(value) => is_bytes_token(value),
    };
    Ok(FileInfo { content_length: length, supports_range })
}

} // verus!
