use crate::engine::codec::EngineError;
use crate::engine::preprocess::Preprocessor;
use crate::engine::raw_image::RawImage;
use vstd::prelude::*;

verus! {

/// Removes EXIF, ICC and XMP metadata, each when its flag is set.
pub struct MetadataStripper {
    pub strip_exif: bool,
    pub strip_icc: bool,
    pub strip_xmp: bool,
}

impl MetadataStripper {
    /// A stripper that removes all three kinds.
    pub fn strip_all() -> (r: Self)
        ensures
            r.strip_exif && r.strip_icc && r.strip_xmp,
    {
        MetadataStripper { strip_exif: true, strip_icc: true, strip_xmp: true }
    }
}

impl Preprocessor for MetadataStripper {
    fn name(&self) -> (r: &'static str)
        ensures
            r@ == "metadata-strip"@,
    {
        "metadata-strip"
    }

    /// Each selected kind of metadata becomes `None`; everything else is kept.
    fn process(&self, image: RawImage) -> (r: Result<RawImage, EngineError>)
        ensures
            r matches Ok(out) && {
                &&& out.pixels == image.pixels
                &&& out.source_format == image.source_format
                &&& out.source_path == image.source_path
                &&& out.metadata.exif == (if self.strip_exif {
                    None
                } else {
                    image.metadata.exif
                })
                &&& out.metadata.icc_profile == (if self.strip_icc {
                    None
                } else {
                    image.metadata.icc_profile
                })
                &&& out.metadata.xmp == (if self.strip_xmp {
                    None
                } else {
                    image.metadata.xmp
                })
            },
    {
        let mut image = image;
        if self.strip_exif {
            image.metadata.exif = None;
        }
        if self.strip_icc {
            image.metadata.icc_profile = None;
        }
        if self.strip_xmp {
            image.metadata.xmp = None;
        }
        Ok(image)
    }
}

} // verus!
