use vstd::prelude::*;

verus! {

/// Declares image::DynamicImage, the decoded raster image the image crate
/// hands back; the library carries such values through without looking
/// inside them.
#[verifier::external_type_specification]
#[verifier::external_body]
pub struct ExDynamicImage(image::DynamicImage);

/// Whether the bytes hold a raster image in a format the decoder recognizes,
/// sniffed from the byte content, never from a file name. The answer depends
/// on the bytes alone.
pub uninterp spec fn image_decodable(data: Seq<u8>) -> bool;

/// Relies on image::load_from_memory: it guesses the format from the byte
/// content and decodes, and its success depends on the bytes alone.
#[verifier::external_body]
pub(crate) fn decode_image(data: &Vec<u8>) -> (r: Option<image::DynamicImage>)
    ensures
        r is Some <==> image_decodable(data@),
{
    image::load_from_memory(data.as_slice()).ok()
}

/// Relies on image::DynamicImage's Clone implementation: the copy equals the
/// image it was cloned from.
pub assume_specification[ <image::DynamicImage as Clone>::clone ](
    img: &image::DynamicImage,
) -> (r: image::DynamicImage)
    ensures
        r == *img,
;

} // verus!
