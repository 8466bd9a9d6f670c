use vstd::prelude::*;

use crate::errors::FetchError;

verus! {

/// A decoded bitmap as the core carries it: RGBA, eight bits per channel,
/// rows top to bottom.  The UI sink turns one of these into a texture handle;
/// the core itself never touches pixels again once a handle exists.
pub struct Bitmap {
    pub width: u32,
    pub height: u32,
    pub pixels: Vec<u8>,
}

/// The bitmap as the contracts see it.
pub ghost struct BitmapView {
    pub width: nat,
    pub height: nat,
    pub pixels: Seq<u8>,
}

impl View for Bitmap {
    type V = BitmapView;

    open spec fn view(&self) -> BitmapView {
        BitmapView {
            width: self.width as nat,
            height: self.height as nat,
            pixels: self.pixels@,
        }
    }
}

/// The bitmap that a byte sequence decodes to, if it decodes at all.  Decoding
/// depends on the bytes alone; stating the pixel values would mean writing out
/// the image codecs, so the result only carries this name.
pub uninterp spec fn decoded_image(bytes: Seq<u8>) -> Option<BitmapView>;

/// Relies on image::load_from_memory of the image crate: the guessed-format
/// decode is a function of the bytes alone, and the RGBA8 conversion of a
/// decoded image yields a buffer of exactly four bytes per pixel.
#[verifier::external_body]
pub fn load_color_image_from_bytes(bytes: &[u8]) -> (r: Result<Bitmap, FetchError>)
    ensures
        r is Ok <==> decoded_image(bytes@) is Some,
        r is Ok ==> r->Ok_0@ == decoded_image(bytes@)->Some_0,
        r is Ok ==> r->Ok_0@.pixels.len() == 4 * r->Ok_0@.width * r->Ok_0@.height,
        r is Err ==> r->Err_0 is Decode,
{
    match image::load_from_memory(bytes) {
        Ok(img) => {
            let rgba = img.to_rgba8();
            let width = rgba.width();
            let height = rgba.height();
            Ok(Bitmap { width, height, pixels: rgba.into_raw() })
        },
        Err(e) => Err(FetchError::Decode(e.to_string())),
    }
}

} // verus!
