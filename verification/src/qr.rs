//! QR code rendering: one pass-through to the encoding library, pinned
//! to named results so callers can reason about it as a pure function.

use vstd::prelude::*;

verus! {

/// Whether the QR library can encode a text: its bytes must fit QR
/// capacity at the fixed error-correction level; a pure function of
/// the text alone.
pub uninterp spec fn qr_encodable(s: Seq<char>) -> bool;

/// What the QR library renders for an encodable text at width 200: an
/// SVG document, a pure function of the encoded text.
pub uninterp spec fn qr_svg_of(s: Seq<char>) -> Seq<char>;

/// Relies on qrc's `QRCode::try_to_qrcode` and `QRCode::to_svg`:
/// whether a text fits a QR code, and the SVG rendered for it at a
/// fixed width, are deterministic in the text alone.  `to_svg` is
/// reached only when encoding succeeded, so the call cannot panic;
/// a text beyond capacity comes back as `None`.
#[verifier::external_body]
pub fn generate_qrcode(value: &str) -> (r: Option<String>)
    ensures
        match r {
            Some(svg) => qr_encodable(value@) && svg@ == qr_svg_of(value@),
            None => !qr_encodable(value@),
        },
{
    let qrcode = qrc::QRCode::from_string(value.to_string());
    if qrcode.try_to_qrcode().is_ok() {
        Some(qrcode.to_svg(200))
    } else {
        None
    }
}

} // verus!
