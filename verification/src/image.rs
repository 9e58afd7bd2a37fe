//! The pure part of saving an image: turning a base64 payload, possibly
//! carrying a PNG data-URI prefix, into the bytes to write.

use vstd::prelude::*;

verus! {

/// `s` with `p` removed from its front when `p` is a prefix of `s`,
/// unchanged otherwise.
pub open spec fn spec_strip_prefix(s: Seq<char>, p: Seq<char>) -> Seq<char> {
    if p.len() <= s.len() && s.take(p.len() as int) == p {
        s.skip(p.len() as int)
    } else {
        s
    }
}

/// The data-URI prefix a browser puts before a base64 PNG payload.
pub open spec fn data_uri_prefix() -> Seq<char> {
    "data:image/png;base64,"@
}

/// The fixed prefix of every decode-failure message.
pub open spec fn decode_error_prefix() -> Seq<char> {
    "Failed to decode image data: "@
}

/// What base64's standard alphabet decodes a text to: the bytes when
/// the text is valid base64, nothing otherwise.
pub uninterp spec fn b64_decode_of(s: Seq<char>) -> Option<Seq<u8>>;

/// Relies on base64's `Engine::decode` with the `STANDARD` engine: the
/// result is a pure function of the input text, bytes on valid base64
/// and an error otherwise.
#[verifier::external_body]
fn b64_decode(s: &str) -> (r: Result<Vec<u8>, String>)
    ensures
        match r {
            Ok(v) => b64_decode_of(s@) == Some(v@),
            Err(_) => b64_decode_of(s@) is None,
        },
{
    base64::Engine::decode(&base64::engine::general_purpose::STANDARD, s).map_err(
        |e| e.to_string(),
    )
}

/// Removes `p` from the front of `s` when it is a prefix, and returns
/// `s` unchanged otherwise.
fn strip_prefix_str(s: &str, p: &str) -> (r: String)
    ensures
        r@ == spec_strip_prefix(s@, p@),
{
    let slen = s.unicode_len();
    let plen = p.unicode_len();
    if plen <= slen {
        let mut i: usize = 0;
        let mut is_prefix = true;
        while i < plen && is_prefix
            invariant
                i <= plen,
                plen == p@.len(),
                plen <= slen,
                slen == s@.len(),
                is_prefix ==> forall|m: int| 0 <= m < i ==> s@[m] == p@[m],
                !is_prefix ==> s@.take(plen as int) != p@,
            decreases plen - i + (if is_prefix { 1int } else { 0int }),
        {
            if s.get_char(i) != p.get_char(i) {
                proof {
                    assert(s@.take(plen as int)[i as int] != p@[i as int]);
                }
                is_prefix = false;
            } else {
                i += 1;
            }
        }
        if is_prefix {
            proof {
                assert(s@.take(plen as int) =~= p@);
            }
            let rest = s.substring_char(plen, slen);
            proof {
                assert(rest@ =~= spec_strip_prefix(s@, p@));
            }
            rest.to_owned()
        } else {
            s.to_owned()
        }
    } else {
        s.to_owned()
    }
}

/// Decodes a base64 image payload, first removing the PNG data-URI
/// prefix when it is present.  The error text keeps the decoder's own
/// diagnostic behind a fixed prefix.
pub fn decode_image_data(data: &str) -> (r: Result<Vec<u8>, String>)
    ensures
        match r {
            Ok(v) => b64_decode_of(spec_strip_prefix(data@, data_uri_prefix())) == Some(v@),
            Err(m) => b64_decode_of(spec_strip_prefix(data@, data_uri_prefix())) is None
                && m@.len() >= decode_error_prefix().len() && m@.take(
                decode_error_prefix().len() as int,
            ) == decode_error_prefix(),
        },
{
    let stripped = strip_prefix_str(data, "data:image/png;base64,");
    match b64_decode(stripped.as_str()) {
        Ok(v) => Ok(v),
        Err(e) => {
            let mut m = "Failed to decode image data: ".to_owned();
            m.append(e.as_str());
            proof {
                assert(m@.take(decode_error_prefix().len() as int) =~= decode_error_prefix());
            }
            Err(m)
        },
    }
}

/// One request to save an image: where to put it and the base64 bytes.
#[derive(Debug)]
pub struct SaveImageRequest {
    pub directory: String,
    pub filename: String,
    pub data: String,
}

/// The bytes a save request asks to write: its payload, stripped of the
/// data-URI prefix and base64-decoded.
pub fn prepare_save_image(request: &SaveImageRequest) -> (r: Result<Vec<u8>, String>)
    ensures
        match r {
            Ok(v) => b64_decode_of(spec_strip_prefix(request.data@, data_uri_prefix())) == Some(
                v@,
            ),
            Err(m) => b64_decode_of(spec_strip_prefix(request.data@, data_uri_prefix())) is None
                && m@.len() >= decode_error_prefix().len() && m@.take(
                decode_error_prefix().len() as int,
            ) == decode_error_prefix(),
        },
{
    decode_image_data(request.data.as_str())
}

} // verus!
