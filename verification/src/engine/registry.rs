use crate::engine::codec::avif::AvifEncoder;
use crate::engine::codec::gif::GifEncoder;
use crate::engine::codec::jpeg::MozjpegEncoder;
use crate::engine::codec::jxl::JxlEncoder;
use crate::engine::codec::png::OxipngEncoder;
use crate::engine::codec::svg::SvgOptimizer;
use crate::engine::codec::universal::UniversalDecoder;
use crate::engine::codec::webp::WebpEncoder;
use crate::engine::codec::{Codec, Decoder, Encoder};
use crate::engine::params::ImageFormat;
use vstd::prelude::*;

verus! {

/// The formats, in the order in which listings name them.
pub open spec fn all_formats() -> Seq<ImageFormat> {
    seq![
        ImageFormat::Jpeg,
        ImageFormat::Png,
        ImageFormat::WebP,
        ImageFormat::Avif,
        ImageFormat::Jxl,
        ImageFormat::Gif,
        ImageFormat::Svg,
    ]
}

/// The formats among `all_formats` that a map has, in that order.
pub open spec fn formats_in<T>(m: Map<ImageFormat, T>) -> Seq<ImageFormat> {
    all_formats().filter(|f: ImageFormat| m.contains_key(f))
}

/// At most one value per image format: a map from formats with one slot per format.
pub struct FormatSlots<T> {
    jpeg: Option<T>,
    png: Option<T>,
    webp: Option<T>,
    avif: Option<T>,
    jxl: Option<T>,
    gif: Option<T>,
    svg: Option<T>,
}

impl<T> FormatSlots<T> {
    /// The slot of a format.
    pub closed spec fn slot(&self, f: ImageFormat) -> Option<T> {
        match f {
            ImageFormat::Jpeg => self.jpeg,
            ImageFormat::Png => self.png,
            ImageFormat::WebP => self.webp,
            ImageFormat::Avif => self.avif,
            ImageFormat::Jxl => self.jxl,
            ImageFormat::Gif => self.gif,
            ImageFormat::Svg => self.svg,
        }
    }
}

impl<T> View for FormatSlots<T> {
    type V = Map<ImageFormat, T>;

    closed spec fn view(&self) -> Map<ImageFormat, T> {
        Map::new(|f: ImageFormat| self.slot(f) is Some, |f: ImageFormat| self.slot(f)->0)
    }
}

impl<T> FormatSlots<T> {
    /// No format has a value.
    pub fn new() -> (r: Self)
        ensures
            r@ == Map::<ImageFormat, T>::empty(),
    {
        let r = FormatSlots { jpeg: None, png: None, webp: None, avif: None, jxl: None, gif: None, svg: None };
        assert(r@ =~= Map::<ImageFormat, T>::empty());
        r
    }

    /// Sets the value of `f`, replacing an earlier one.
    pub fn insert(&mut self, f: ImageFormat, value: T)
        ensures
            final(self)@ == old(self)@.insert(f, value),
            final(self)@.dom() == old(self)@.dom().insert(f),
    {
        match f {
            ImageFormat::Jpeg => self.jpeg = Some(value),
            ImageFormat::Png => self.png = Some(value),
            ImageFormat::WebP => self.webp = Some(value),
            ImageFormat::Avif => self.avif = Some(value),
            ImageFormat::Jxl => self.jxl = Some(value),
            ImageFormat::Gif => self.gif = Some(value),
            ImageFormat::Svg => self.svg = Some(value),
        }
        assert(self@ =~= old(self)@.insert(f, value));
        assert(self@.dom() =~= old(self)@.dom().insert(f));
    }

    /// The value of `f`, if it has one.
    pub fn get(&self, f: ImageFormat) -> (r: Option<&T>)
        ensures
            r is Some <==> self@.contains_key(f),
            r matches Some(v) ==> *v == self@[f],
    {
        let slot = match f {
            ImageFormat::Jpeg => &self.jpeg,
            ImageFormat::Png => &self.png,
            ImageFormat::WebP => &self.webp,
            ImageFormat::Avif => &self.avif,
            ImageFormat::Jxl => &self.jxl,
            ImageFormat::Gif => &self.gif,
            ImageFormat::Svg => &self.svg,
        };
        match slot {
            Some(v) => Some(v),
            None => None,
        }
    }

    /// The formats that have a value, in the order of `all_formats`.
    pub fn formats(&self) -> (r: Vec<ImageFormat>)
        ensures
            r@ == formats_in(self@),
    {
        let all: [ImageFormat; 7] = [
            ImageFormat::Jpeg,
            ImageFormat::Png,
            ImageFormat::WebP,
            ImageFormat::Avif,
            ImageFormat::Jxl,
            ImageFormat::Gif,
            ImageFormat::Svg,
        ];
        assert(all@ == all_formats());
        let mut out: Vec<ImageFormat> = Vec::new();
        let mut i: usize = 0;
        while i < 7
            invariant
                0 <= i <= 7,
                all@ == all_formats(),
                out@ == all_formats().subrange(0, i as int).filter(
                    |f: ImageFormat| self@.contains_key(f),
                ),
            decreases 7 - i,
        {
            let f = all[i];
            let present = self.get(f).is_some();
            proof {
                let keep = |f: ImageFormat| self@.contains_key(f);
                let pre = all_formats().subrange(0, i as int);
                assert(all_formats().subrange(0, i + 1) =~= pre.push(f));
                pre.lemma_filter_push(f, keep);
            }
            if present {
                out.push(f);
            }
            i = i + 1;
        }
        assert(all_formats().subrange(0, 7) =~= all_formats());
        out
    }
}

/// What a lookup gives back after a registration: the value just registered for that
/// format, and the earlier value (or none) for any other format.
pub proof fn law_lookup_after_register<T>(m: Map<ImageFormat, T>, f: ImageFormat, value: T, g: ImageFormat)
    ensures
        m.insert(f, value).contains_key(f),
        m.insert(f, value)[f] == value,
        g != f ==> (m.insert(f, value).contains_key(g) <==> m.contains_key(g)),
        g != f && m.contains_key(g) ==> m.insert(f, value)[g] == m[g],
{
}

/// The registry of codecs: at most one decoder and one encoder per format.
pub struct CodecRegistry {
    decoders: FormatSlots<Box<dyn Decoder>>,
    encoders: FormatSlots<Box<dyn Encoder>>,
}

impl CodecRegistry {
    /// The registered decoders, by format.
    pub closed spec fn decoder_map(&self) -> Map<ImageFormat, Box<dyn Decoder>> {
        self.decoders@
    }

    /// The registered encoders, by format.
    pub closed spec fn encoder_map(&self) -> Map<ImageFormat, Box<dyn Encoder>> {
        self.encoders@
    }

    /// A registry with the universal decoder for JPEG, PNG, WebP, GIF and AVIF, and an
    /// encoder for each of the seven formats.
    pub fn new() -> (r: Self)
        ensures
            r.decoder_map().dom() == set![
                ImageFormat::Jpeg,
                ImageFormat::Png,
                ImageFormat::WebP,
                ImageFormat::Gif,
                ImageFormat::Avif,
            ],
            r.encoder_map().dom() == all_formats().to_set(),
    {
        let mut registry = CodecRegistry { decoders: FormatSlots::new(), encoders: FormatSlots::new() };
        let universal = UniversalDecoder;
        let formats = universal.formats();
        let mut i: usize = 0;
        while i < formats.len()
            invariant
                formats@ == seq![ImageFormat::Jpeg, ImageFormat::Png, ImageFormat::WebP, ImageFormat::Gif],
                0 <= i <= formats.len(),
                registry.decoder_map().dom() == formats@.subrange(0, i as int).to_set(),
                registry.encoder_map().dom() == Set::<ImageFormat>::empty(),
            decreases formats.len() - i,
        {
            registry.register_decoder(formats[i], Box::new(UniversalDecoder));
            proof {
                assert(formats@.subrange(0, i + 1) =~= formats@.subrange(0, i as int).push(formats@[i as int]));
                formats@.subrange(0, i as int).lemma_push_to_set_commute(formats@[i as int]);
            }
            i = i + 1;
        }
        registry.register_decoder(ImageFormat::Avif, Box::new(UniversalDecoder));
        registry.register_encoder(ImageFormat::Jpeg, Box::new(MozjpegEncoder));
        registry.register_encoder(ImageFormat::Png, Box::new(OxipngEncoder));
        registry.register_encoder(ImageFormat::WebP, Box::new(WebpEncoder));
        registry.register_encoder(ImageFormat::Avif, Box::new(AvifEncoder));
        registry.register_encoder(ImageFormat::Gif, Box::new(GifEncoder));
        registry.register_encoder(ImageFormat::Jxl, Box::new(JxlEncoder));
        registry.register_encoder(ImageFormat::Svg, Box::new(SvgOptimizer));
        proof {
            assert(formats@.subrange(0, 4) =~= formats@);
            assert(registry.decoder_map().dom() =~= set![
                ImageFormat::Jpeg,
                ImageFormat::Png,
                ImageFormat::WebP,
                ImageFormat::Gif,
                ImageFormat::Avif,
            ]);
            assert(registry.encoder_map().dom() =~= all_formats().to_set());
        }
        registry
    }

    /// Registers `decoder` for `format`, replacing an earlier one.
    pub fn register_decoder(&mut self, format: ImageFormat, decoder: Box<dyn Decoder>)
        ensures
            final(self).decoder_map() == old(self).decoder_map().insert(format, decoder),
            final(self).decoder_map().dom() == old(self).decoder_map().dom().insert(format),
            final(self).encoder_map() == old(self).encoder_map(),
    {
        self.decoders.insert(format, decoder);
    }

    /// Registers `encoder` for `format`, replacing an earlier one.
    pub fn register_encoder(&mut self, format: ImageFormat, encoder: Box<dyn Encoder>)
        ensures
            final(self).encoder_map() == old(self).encoder_map().insert(format, encoder),
            final(self).encoder_map().dom() == old(self).encoder_map().dom().insert(format),
            final(self).decoder_map() == old(self).decoder_map(),
    {
        self.encoders.insert(format, encoder);
    }

    /// The decoder registered for `format`.
    pub fn get_decoder(&self, format: &ImageFormat) -> (r: Option<&dyn Decoder>)
        ensures
            r is Some <==> self.decoder_map().contains_key(*format),
    {
        match self.decoders.get(*format) {
            Some(d) => Some(&**d),
            None => None,
        }
    }

    /// The encoder registered for `format`.
    pub fn get_encoder(&self, format: &ImageFormat) -> (r: Option<&dyn Encoder>)
        ensures
            r is Some <==> self.encoder_map().contains_key(*format),
    {
        match self.encoders.get(*format) {
            Some(e) => Some(&**e),
            None => None,
        }
    }

    /// The formats that have a decoder.
    pub fn supported_decode_formats(&self) -> (r: Vec<ImageFormat>)
        ensures
            r@ == formats_in(self.decoder_map()),
    {
        self.decoders.formats()
    }

    /// The formats that have an encoder.
    pub fn supported_encode_formats(&self) -> (r: Vec<ImageFormat>)
        ensures
            r@ == formats_in(self.encoder_map()),
    {
        self.encoders.formats()
    }
}

impl Default for CodecRegistry {
    fn default() -> (r: Self)
        ensures
            r.encoder_map().dom() == all_formats().to_set(),
    {
        CodecRegistry::new()
    }
}

} // verus!
