use vstd::prelude::*;

use crate::error::MyError;
use las::point::Format;

verus! {

/// las's point layout; its fields are plain flags and a length.
#[verifier::external_type_specification]
pub struct ExFormat(las::point::Format);

/// las's error, carried through opaque.
#[verifier::external_type_specification]
#[verifier::external_body]
pub struct ExLasError(las::Error);

/// The format number of a layout, where the flags match one of the LAS point
/// formats 0 to 10.
pub open spec fn format_number(f: Format) -> Option<u8> {
    if f.is_extended {
        if !f.has_gps_time {
            None
        } else if f.has_color {
            if f.has_nir {
                if f.has_waveform { Some(10u8) } else { Some(8u8) }
            } else if f.has_waveform {
                None
            } else {
                Some(7u8)
            }
        } else if f.has_nir {
            None
        } else if f.has_waveform {
            Some(9u8)
        } else {
            Some(6u8)
        }
    } else if f.has_nir {
        None
    } else if f.has_waveform {
        if !f.has_gps_time { None } else if f.has_color { Some(5u8) } else { Some(4u8) }
    } else {
        Some(((if f.has_gps_time { 1u8 } else { 0u8 }) + (if f.has_color { 2u8 } else { 0u8 })) as u8)
    }
}

/// The layout of LAS point format `m` (0 to 10), with no extra bytes.
pub open spec fn format_of_number(m: u8, compressed: bool) -> Format {
    Format {
        has_gps_time: m == 1 || m == 3 || (4 <= m && m <= 10),
        has_color: m == 2 || m == 3 || m == 5 || m == 7 || m == 8 || m == 10,
        is_extended: m >= 6,
        has_waveform: m == 4 || m == 5 || m == 9 || m == 10,
        has_nir: m == 8 || m == 10,
        extra_bytes: 0,
        is_compressed: compressed,
    }
}

/// Relies on las's `Format::to_u8` (built with the `laz` feature, so the
/// compression flag does not matter): the number of the point format that the
/// flags describe, or an error where they describe none.
pub assume_specification[ las::point::Format::to_u8 ](f: &Format) -> (r: Result<u8, las::Error>)
    ensures
        r is Ok <==> format_number(*f) is Some,
        r matches Ok(n) ==> format_number(*f) == Some(n),
;

/// Relies on las's `Format::new`: numbers 0 to 10, with the compression bit
/// 0x80 set or not, give the layout of that point format with no extra bytes.
pub assume_specification[ las::point::Format::new ](n: u8) -> (r: Result<Format, las::Error>)
    ensures
        r is Ok <== n <= 10 || (128 <= n && n <= 138),
        r matches Ok(g) ==> (n <= 10 ==> g == format_of_number(n, false)),
        r matches Ok(g) ==> (128 <= n && n <= 138 ==> g == format_of_number((n - 128) as u8, true)),
;

/// The point layout the sinks are created with, from the first source's
/// layout. Without stripping it is that layout. With stripping it is the same
/// point format, uncompressed, with no extra bytes; a layout that is no LAS
/// point format is an error.
pub fn sink_point_format(first: Format, strip: bool) -> (r: Result<Format, MyError>)
    ensures
        !strip ==> r == Ok::<Format, MyError>(first),
        strip && format_number(first) is None ==> r == Err::<Format, MyError>(MyError::SourceOpenError { source: 0 }),
        strip && format_number(first) is Some ==> r == Ok::<Format, MyError>(
            Format { extra_bytes: 0, is_compressed: false, ..first },
        ),
{
    if !strip {
        return Ok(first);
    }
    match first.to_u8() {
        Err(_) => Err(MyError::SourceOpenError { source: 0 }),
        Ok(n) => match Format::new(n) {
            Ok(mut f) => {
                f.extra_bytes = 0;
                Ok(f)
            },
            Err(_) => Err(MyError::SourceOpenError { source: 0 }),
        },
    }
}

} // verus!
