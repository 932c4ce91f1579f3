use vstd::prelude::*;

use crate::text::owned;

verus! {

/// The first bytes of every PNG file.
pub open spec fn png_signature() -> Seq<u8> {
    seq![0x89u8, 0x50u8, 0x4Eu8, 0x47u8, 0x0Du8, 0x0Au8, 0x1Au8, 0x0Au8]
}

/// The first bytes of every JPEG file.
pub open spec fn jpeg_signature() -> Seq<u8> {
    seq![0xFFu8, 0xD8u8, 0xFFu8]
}

pub open spec fn starts_with(data: Seq<u8>, prefix: Seq<u8>) -> bool {
    data.len() >= prefix.len() && data.subrange(0, prefix.len() as int) == prefix
}

/// The extension that a declared image content type stands for.
pub open spec fn image_extension_of_type(ct: Seq<char>) -> Option<Seq<char>> {
    if ct == "image/png"@ {
        Some("png"@)
    } else if ct == "image/jpeg"@ || ct == "image/jpg"@ {
        Some("jpg"@)
    } else {
        None
    }
}

/// Whether uploaded bytes are a usable image, and its extension: by the PNG or JPEG
/// signature first, then by the declared content type; data under 8 bytes is refused.
pub open spec fn image_format_of(data: Seq<u8>, content_type: Option<Seq<char>>) -> Option<Seq<char>> {
    if data.len() < 8 {
        None
    } else if starts_with(data, png_signature()) {
        Some("png"@)
    } else if starts_with(data, jpeg_signature()) {
        Some("jpg"@)
    } else {
        match content_type {
            Some(ct) => image_extension_of_type(ct),
            None => None,
        }
    }
}

fn has_prefix(data: &[u8], prefix: &[u8]) -> (r: bool)
    ensures
        r == starts_with(data@, prefix@),
{
    if data.len() < prefix.len() {
        return false;
    }
    let mut i: usize = 0;
    while i < prefix.len()
        invariant
            prefix@.len() <= data@.len(),
            i <= prefix@.len(),
            data@.subrange(0, i as int) == prefix@.subrange(0, i as int),
        decreases prefix@.len() - i,
    {
        if data[i] != prefix[i] {
            proof {
                assert(data@.subrange(0, prefix@.len() as int)[i as int] != prefix@[i as int]);
            }
            return false;
        }
        proof {
            assert(data@.subrange(0, i + 1) =~= data@.subrange(0, i as int).push(data@[i as int]));
            assert(prefix@.subrange(0, i + 1) =~= prefix@.subrange(0, i as int).push(prefix@[i as int]));
        }
        i = i + 1;
    }
    proof {
        assert(prefix@.subrange(0, i as int) =~= prefix@);
    }
    true
}

fn text_is(s: &str, lit: &str) -> (r: bool)
    ensures
        r == (s@ == lit@),
{
    owned(s) == owned(lit)
}

/// Checks uploaded bytes for a PNG or JPEG image: returns whether they are one and the
/// file extension to keep them under (empty when they are not).
pub fn validate_image_format(data: &[u8], content_type: Option<&str>) -> (r: (bool, String))
    ensures
        r.0 <==> image_format_of(data@, match content_type {
            Some(ct) => Some(ct@),
            None => None,
        }) is Some,
        r.0 ==> r.1@ == image_format_of(data@, match content_type {
            Some(ct) => Some(ct@),
            None => None,
        })->Some_0,
        !r.0 ==> r.1@.len() == 0,
{
    let png: [u8; 8] = [0x89, 0x50, 0x4E, 0x47, 0x0D, 0x0A, 0x1A, 0x0A];
    let jpeg: [u8; 3] = [0xFF, 0xD8, 0xFF];
    proof {
        assert(png@ =~= png_signature());
        assert(jpeg@ =~= jpeg_signature());
    }
    if data.len() < 8 {
        return (false, String::new());
    }
    if has_prefix(data, png.as_slice()) {
        return (true, owned("png"));
    }
    if has_prefix(data, jpeg.as_slice()) {
        return (true, owned("jpg"));
    }
    match content_type {
        Some(ct) => {
            if text_is(ct, "image/png") {
                (true, owned("png"))
            } else if text_is(ct, "image/jpeg") || text_is(ct, "image/jpg") {
                (true, owned("jpg"))
            } else {
                (false, String::new())
            }
        },
        None => (false, String::new()),
    }
}

} // verus!
