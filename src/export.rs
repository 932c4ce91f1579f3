use vstd::prelude::*;

use crate::errors::AppError;
use crate::ids::random_id;
use crate::svg::{
    export_svg, layout, layout_fits, line_views, longest_line, svg_document, too_large, HighlightResult,
    SvgGeometry, SvgStyle,
};
use image::GenericImageView;
use image::ImageEncoder;

verus! {

#[derive(Debug, Clone, Copy, PartialEq, Eq, Structural)]
pub enum ImageFormat {
    PNG,
    JPEG,
    SVG,
}

/// Output scale: Standard is 1x, High 2x, Ultra 3x.
#[derive(Debug, Clone, Copy, PartialEq, Eq, Structural)]
pub enum Resolution {
    Standard,
    High,
    Ultra,
}

/// The options the rasterizer takes.
#[derive(Debug, Clone, Copy, PartialEq, Eq, Structural)]
pub struct ExportOptions {
    pub format: ImageFormat,
    pub resolution: Resolution,
    /// 1 to 100, for JPEG.
    pub quality: u8,
    pub width: Option<u32>,
    pub height: Option<u32>,
}

/// Everything a client may ask of an export.
#[derive(Debug, Clone, Copy, PartialEq, Eq, Structural)]
pub struct EnhancedExportOptions {
    pub format: ImageFormat,
    pub resolution: Resolution,
    /// 1 to 100, for JPEG.
    pub quality: u8,
    pub width: Option<u32>,
    pub height: Option<u32>,
    pub dpi: Option<u32>,
    /// 0 to 9, for PNG.
    pub compression_level: Option<u8>,
    pub progressive: bool,
    pub include_metadata: bool,
}

/// The encoded image of one export and what describes it.
#[derive(Debug, Clone)]
pub struct ExportResult {
    pub data: Vec<u8>,
    pub format: ImageFormat,
    pub width: u32,
    pub height: u32,
    pub file_size: usize,
    pub export_id: String,
}

pub open spec fn scale_of(r: Resolution) -> u32 {
    match r {
        Resolution::Standard => 1,
        Resolution::High => 2,
        Resolution::Ultra => 3,
    }
}

pub open spec fn dimension_ok(d: Option<u32>) -> bool {
    match d {
        Some(v) => 100 <= v <= 8000,
        None => true,
    }
}

/// The first rule that a set of options breaks, by its message; `None` if it breaks none.
pub open spec fn options_violation(o: EnhancedExportOptions) -> Option<Seq<char>> {
    if o.format == ImageFormat::JPEG && !(1 <= o.quality <= 100) {
        Some("JPEG quality must be between 1 and 100"@)
    } else if o.compression_level is Some && o.compression_level->Some_0 > 9 {
        Some("PNG compression level must be between 0 and 9"@)
    } else if !dimension_ok(o.width) {
        Some("Width must be between 100 and 8000 pixels"@)
    } else if !dimension_ok(o.height) {
        Some("Height must be between 100 and 8000 pixels"@)
    } else {
        None
    }
}

pub open spec fn options_valid(o: EnhancedExportOptions) -> bool {
    options_violation(o) is None
}

/// The first rule that a request (its code and options) breaks, by its message.
pub open spec fn request_violation(code: Seq<char>, o: EnhancedExportOptions) -> Option<Seq<char>> {
    if code.len() == 0 {
        Some("Code content cannot be empty"@)
    } else {
        options_violation(o)
    }
}

pub open spec fn request_valid(code: Seq<char>, o: EnhancedExportOptions) -> bool {
    request_violation(code, o) is None
}

pub open spec fn is_validation_error(e: AppError, msg: Seq<char>) -> bool {
    e matches AppError::ValidationError { message } && message@ == msg
}

pub open spec fn is_generation_error(e: AppError) -> bool {
    e is ImageGenerationError
}

/// Whether the raster must be decoded and encoded again rather than passed through.
pub open spec fn needs_reencoding(o: EnhancedExportOptions) -> bool {
    match o.format {
        ImageFormat::PNG => o.compression_level is Some || o.dpi is Some,
        ImageFormat::JPEG => true,
        ImageFormat::SVG => false,
    }
}

pub open spec fn extension_of(f: ImageFormat) -> Seq<char> {
    match f {
        ImageFormat::PNG => "png"@,
        ImageFormat::JPEG => "jpg"@,
        ImageFormat::SVG => "svg"@,
    }
}

pub open spec fn content_type_of(f: ImageFormat) -> Seq<char> {
    match f {
        ImageFormat::PNG => "image/png"@,
        ImageFormat::JPEG => "image/jpeg"@,
        ImageFormat::SVG => "image/svg+xml"@,
    }
}

/// The width and height of the image that `image::load_from_memory` decodes from these bytes.
pub uninterp spec fn decoded_dimensions(bytes: Seq<u8>) -> (u32, u32);

/// Whether `image::load_from_memory` decodes these bytes.
pub uninterp spec fn decodes(bytes: Seq<u8>) -> bool;

/// Whether `image` decodes these bytes and writes their RGBA form as PNG.
pub uninterp spec fn png_reencodes(bytes: Seq<u8>) -> bool;

/// The PNG that `image` writes for the RGBA form of the image decoded from these bytes.
pub uninterp spec fn png_reencoded(bytes: Seq<u8>) -> Seq<u8>;

/// The JPEG that `image` writes, at this quality, for the RGB form of the image decoded
/// from these bytes.
pub uninterp spec fn jpeg_reencoded(bytes: Seq<u8>, quality: u8) -> Seq<u8>;

#[verifier::external_type_specification]
#[verifier::external_body]
pub struct ExImageError(image::ImageError);

/// Relies on `image::load_from_memory` and `GenericImageView::dimensions`: the size of
/// the decoded image. Decoding needs a PNG or JPEG signature, and both decoders refuse
/// a width or height of zero.
#[verifier::external_body]
fn decode_dimensions(data: &[u8]) -> (r: Result<(u32, u32), image::ImageError>)
    ensures
        r is Ok <==> decodes(data@),
        r is Ok ==> r->Ok_0 == decoded_dimensions(data@),
        r is Ok ==> data@.len() > 0 && r->Ok_0.0 > 0 && r->Ok_0.1 > 0,
{
    image::load_from_memory(data).map(|img| img.dimensions())
}

/// Relies on `image::load_from_memory`, `DynamicImage::to_rgba8` and
/// `PngEncoder::write_image`: the image decoded and written again as RGBA PNG,
/// with the decoded size. The encoder writes the PNG signature first.
#[verifier::external_body]
fn reencode_png(data: &[u8]) -> (r: Result<(Vec<u8>, u32, u32), image::ImageError>)
    ensures
        r is Ok <==> png_reencodes(data@),
        r is Ok ==> decodes(data@) && r->Ok_0.0@.len() > 0 && r->Ok_0.1 > 0 && r->Ok_0.2 > 0,
        r is Ok ==> r->Ok_0.0@ == png_reencoded(data@) && (r->Ok_0.1, r->Ok_0.2)
            == decoded_dimensions(data@),
{
    let rgba = image::load_from_memory(data)?.to_rgba8();
    let (width, height) = (rgba.width(), rgba.height());
    let mut buffer = Vec::new();
    image::codecs::png::PngEncoder::new(&mut buffer).write_image(
        rgba.as_raw(),
        width,
        height,
        image::ColorType::Rgba8,
    )?;
    Ok((buffer, width, height))
}

/// Relies on `image::load_from_memory`, `DynamicImage::to_rgb8` and
/// `JpegEncoder::new_with_quality` with `write_image`: the image decoded and written
/// again as RGB JPEG at the given quality, with the decoded size. Writing into a `Vec`
/// fails only for a width or height over 65535; the quality is clamped to 1..=100; the
/// output starts with the start-of-image marker.
#[verifier::external_body]
fn reencode_jpeg(data: &[u8], quality: u8) -> (r: Result<(Vec<u8>, u32, u32), image::ImageError>)
    ensures
        r is Ok <==> (decodes(data@) && decoded_dimensions(data@).0 <= 65535 && decoded_dimensions(data@).1 <= 65535),
        r is Ok ==> r->Ok_0.0@.len() > 0 && r->Ok_0.1 > 0 && r->Ok_0.2 > 0,
        r is Ok ==> r->Ok_0.0@ == jpeg_reencoded(data@, quality) && (r->Ok_0.1, r->Ok_0.2)
            == decoded_dimensions(data@),
{
    let rgb = image::load_from_memory(data)?.to_rgb8();
    let (width, height) = (rgb.width(), rgb.height());
    let mut buffer = Vec::new();
    image::codecs::jpeg::JpegEncoder::new_with_quality(&mut buffer, quality).write_image(
        rgb.as_raw(),
        width,
        height,
        image::ColorType::Rgb8,
    )?;
    Ok((buffer, width, height))
}

impl Default for EnhancedExportOptions {
    fn default() -> (r: Self)
        ensures
            r == default_enhanced_options(),
    {
        EnhancedExportOptions {
            format: ImageFormat::PNG,
            resolution: Resolution::Standard,
            quality: 90,
            width: None,
            height: None,
            dpi: None,
            compression_level: None,
            progressive: false,
            include_metadata: false,
        }
    }
}

pub open spec fn default_enhanced_options() -> EnhancedExportOptions {
    EnhancedExportOptions {
        format: ImageFormat::PNG,
        resolution: Resolution::Standard,
        quality: 90,
        width: None,
        height: None,
        dpi: None,
        compression_level: None,
        progressive: false,
        include_metadata: false,
    }
}

impl Default for ExportOptions {
    fn default() -> (r: Self)
        ensures
            r == (ExportOptions {
                format: ImageFormat::PNG,
                resolution: Resolution::Standard,
                quality: 90,
                width: None,
                height: None,
            }),
    {
        ExportOptions {
            format: ImageFormat::PNG,
            resolution: Resolution::Standard,
            quality: 90,
            width: None,
            height: None,
        }
    }
}

impl ImageFormat {
    /// The file extension of this format, without the dot.
    pub fn extension(&self) -> (r: &'static str)
        ensures
            r@ == extension_of(*self),
    {
        match self {
            ImageFormat::PNG => "png",
            ImageFormat::JPEG => "jpg",
            ImageFormat::SVG => "svg",
        }
    }

    /// The MIME type of this format.
    pub fn content_type(&self) -> (r: &'static str)
        ensures
            r@ == content_type_of(*self),
    {
        match self {
            ImageFormat::PNG => "image/png",
            ImageFormat::JPEG => "image/jpeg",
            ImageFormat::SVG => "image/svg+xml",
        }
    }
}

impl Resolution {
    /// The factor by which this resolution scales the image.
    pub fn scale(&self) -> (r: u32)
        ensures
            r == scale_of(*self),
    {
        match self {
            Resolution::Standard => 1,
            Resolution::High => 2,
            Resolution::Ultra => 3,
        }
    }
}

impl EnhancedExportOptions {
    /// The part of these options that the rasterizer takes.
    pub fn basic(&self) -> (r: ExportOptions)
        ensures
            r == (ExportOptions {
                format: self.format,
                resolution: self.resolution,
                quality: self.quality,
                width: self.width,
                height: self.height,
            }),
    {
        ExportOptions {
            format: self.format,
            resolution: self.resolution,
            quality: self.quality,
            width: self.width,
            height: self.height,
        }
    }
}

/// Which collaborator produces the material for an export.
#[derive(Debug, Clone, Copy, PartialEq, Eq, Structural)]
pub enum Adapter {
    /// Draws the code into a raster image.
    Rasterizer,
    /// Splits the code into colored segments.
    Highlighter,
}

pub open spec fn adapter_for(f: ImageFormat) -> Adapter {
    match f {
        ImageFormat::SVG => Adapter::Highlighter,
        _ => Adapter::Rasterizer,
    }
}

/// Encoded bytes and the size of the image they hold.
pub struct Encoded {
    pub data: Vec<u8>,
    pub width: u32,
    pub height: u32,
}

/// What the raster path of an export yields for the rasterizer's bytes.
pub open spec fn raster_outcome(raster: Seq<u8>, o: EnhancedExportOptions) -> (Seq<u8>, (u32, u32)) {
    if o.format == ImageFormat::JPEG {
        (jpeg_reencoded(raster, o.quality), decoded_dimensions(raster))
    } else if needs_reencoding(o) {
        (png_reencoded(raster), decoded_dimensions(raster))
    } else {
        (raster, decoded_dimensions(raster))
    }
}

/// Whether the raster path of an export succeeds on the rasterizer's bytes.
pub open spec fn raster_succeeds(raster: Seq<u8>, o: EnhancedExportOptions) -> bool {
    if o.format == ImageFormat::JPEG {
        decodes(raster) && decoded_dimensions(raster).0 <= 65535 && decoded_dimensions(raster).1
            <= 65535
    } else if needs_reencoding(o) {
        png_reencodes(raster)
    } else {
        decodes(raster)
    }
}

fn decode_failed() -> (r: AppError)
    ensures
        is_generation_error(r),
{
    AppError::image_generation_failed("Failed to decode generated image")
}

/// What a collaborator produced for an export: raster bytes from the rasterizer, or
/// styled lines from the highlighter.
pub enum RenderOutput {
    Raster(Vec<u8>),
    Highlighted(HighlightResult),
}

pub open spec fn matches_format(f: ImageFormat, out: RenderOutput) -> bool {
    match out {
        RenderOutput::Raster(_) => f != ImageFormat::SVG,
        RenderOutput::Highlighted(_) => f == ImageFormat::SVG,
    }
}

/// The geometry that the SVG path lays a highlight out with.
pub open spec fn svg_geometry(h: HighlightResult, st: crate::svg::StyleView, o: EnhancedExportOptions) -> SvgGeometry {
    let l = layout(st, scale_of(o.resolution) as nat, longest_line(line_views(h)), h.total_lines as nat);
    SvgGeometry {
        width: l.0 as u64,
        height: l.1 as u64,
        padding: l.2 as u64,
        font_size: l.3 as u64,
        line_height: l.4 as u64,
        char_width: l.5 as u64,
    }
}

pub struct ExportService {
    _private: (),
}

impl ExportService {
    pub fn new() -> (r: ExportService) {
        ExportService { _private: () }
    }

    pub fn supported_formats() -> (r: Vec<ImageFormat>)
        ensures
            r@ == seq![ImageFormat::PNG, ImageFormat::JPEG, ImageFormat::SVG],
    {
        vec![ImageFormat::PNG, ImageFormat::JPEG, ImageFormat::SVG]
    }

    pub fn supported_resolutions() -> (r: Vec<Resolution>)
        ensures
            r@ == seq![Resolution::Standard, Resolution::High, Resolution::Ultra],
    {
        vec![Resolution::Standard, Resolution::High, Resolution::Ultra]
    }

    /// Checks the options against the format's limits; the error names the first
    /// rule broken.
    pub fn validate_options(options: &EnhancedExportOptions) -> (r: Result<(), AppError>)
        ensures
            r is Ok <==> options_valid(*options),
            r is Err ==> is_validation_error(r->Err_0, options_violation(*options)->Some_0),
    {
        if options.format == ImageFormat::JPEG && (options.quality < 1 || options.quality > 100) {
            return Err(AppError::validation_failed("JPEG quality must be between 1 and 100"));
        }
        if let Some(compression) = options.compression_level {
            if compression > 9 {
                return Err(
                    AppError::validation_failed("PNG compression level must be between 0 and 9"),
                );
            }
        }
        if let Some(width) = options.width {
            if width < 100 || width > 8000 {
                return Err(AppError::validation_failed("Width must be between 100 and 8000 pixels"));
            }
        }
        if let Some(height) = options.height {
            if height < 100 || height > 8000 {
                return Err(
                    AppError::validation_failed("Height must be between 100 and 8000 pixels"),
                );
            }
        }
        Ok(())
    }

    /// Checks a request before any work: the code must not be empty and the options
    /// must keep to the format's limits.
    pub fn validate_request(code: &str, options: &EnhancedExportOptions) -> (r: Result<(), AppError>)
        ensures
            r is Ok <==> request_valid(code@, *options),
            r is Err ==> is_validation_error(r->Err_0, request_violation(code@, *options)->Some_0),
    {
        if code.unicode_len() == 0 {
            return Err(AppError::validation_failed("Code content cannot be empty"));
        }
        ExportService::validate_options(options)
    }

    /// The collaborator whose output an export in this format is built from.
    pub fn adapter_for(format: ImageFormat) -> (r: Adapter)
        ensures
            r == adapter_for(format),
    {
        match format {
            ImageFormat::SVG => Adapter::Highlighter,
            _ => Adapter::Rasterizer,
        }
    }

    /// Post-processes the rasterizer's bytes for a PNG or JPEG export: passes them
    /// through or encodes them again, as the options ask.
    pub fn export_raster(raster: &[u8], options: &EnhancedExportOptions) -> (r: Result<
        Encoded,
        AppError,
    >)
        requires
            options.format != ImageFormat::SVG,
        ensures
            r is Ok <==> raster_succeeds(raster@, *options),
            r is Ok ==> (r->Ok_0.data@, (r->Ok_0.width, r->Ok_0.height)) == raster_outcome(
                raster@,
                *options,
            ),
            r is Ok ==> r->Ok_0.data@.len() > 0 && r->Ok_0.width > 0 && r->Ok_0.height > 0,
            r is Err ==> is_generation_error(r->Err_0),
    {
        if options.format == ImageFormat::JPEG {
            match reencode_jpeg(raster, options.quality) {
                Ok((data, width, height)) => Ok(Encoded { data, width, height }),
                Err(_) => Err(AppError::image_generation_failed("JPEG encoding failed")),
            }
        } else if options.compression_level.is_none() && options.dpi.is_none() {
            match decode_dimensions(raster) {
                Ok((width, height)) => {
                    let mut data: Vec<u8> = Vec::new();
                    let mut i: usize = 0;
                    while i < raster.len()
                        invariant
                            i <= raster@.len(),
                            data@ == raster@.subrange(0, i as int),
                        decreases raster@.len() - i,
                    {
                        data.push(raster[i]);
                        i = i + 1;
                        proof {
                            assert(data@ =~= raster@.subrange(0, i as int));
                        }
                    }
                    proof {
                        assert(data@ =~= raster@);
                    }
                    Ok(Encoded { data, width, height })
                },
                Err(_) => Err(decode_failed()),
            }
        } else {
            match reencode_png(raster) {
                Ok((data, width, height)) => Ok(Encoded { data, width, height }),
                Err(_) => Err(AppError::image_generation_failed("PNG encoding failed")),
            }
        }
    }

    /// Exports a snippet from what the collaborator for its format produced (see
    /// `adapter_for`). Empty code and invalid options are refused before any work;
    /// output of the other collaborator is a generation failure. Raster bytes are passed
    /// through or encoded again; highlighted lines are laid out as a vector document.
    pub fn export_code_snippet(
        &self,
        code: &str,
        options: &EnhancedExportOptions,
        style: &SvgStyle,
        rendered: RenderOutput,
    ) -> (r: Result<ExportResult, AppError>)
        ensures
            code@.len() == 0 ==> r is Err && is_validation_error(r->Err_0, "Code content cannot be empty"@),
            code@.len() > 0 && !options_valid(*options) ==> r is Err && is_validation_error(
                r->Err_0,
                options_violation(*options)->Some_0,
            ),
            code@.len() > 0 && options_valid(*options) && !matches_format(options.format, rendered)
                ==> r is Err && is_generation_error(r->Err_0),
            r is Ok ==> code@.len() > 0 && options_valid(*options) && matches_format(options.format, rendered)
                && r->Ok_0.format == options.format && r->Ok_0.file_size == r->Ok_0.data@.len()
                && r->Ok_0.export_id@.len() == 36 && r->Ok_0.data@.len() > 0 && r->Ok_0.width > 0
                && r->Ok_0.height > 0,
            code@.len() > 0 && options_valid(*options) ==> match rendered {
                RenderOutput::Raster(raster) => options.format != ImageFormat::SVG ==> (r is Ok
                    <==> raster_succeeds(raster@, *options)) && (r is Ok ==> (
                    r->Ok_0.data@,
                    (r->Ok_0.width, r->Ok_0.height),
                ) == raster_outcome(raster@, *options)) && (r is Err ==> is_generation_error(r->Err_0)),
                RenderOutput::Highlighted(h) => options.format == ImageFormat::SVG ==> (r is Ok
                    <==> layout_fits(line_views(h), style@, scale_of(options.resolution) as nat, h.total_lines as nat))
                    && (r is Err ==> too_large(r->Err_0)) && (r is Ok ==> ({
                    let g = svg_geometry(h, style@, *options);
                    &&& r->Ok_0.width == g.width
                    &&& r->Ok_0.height == g.height
                    &&& r->Ok_0.data@ == vstd::utf8::encode_utf8(svg_document(line_views(h), style@, g))
                })),
            },
    {
        ExportService::validate_request(code, options)?;
        let encoded = match rendered {
            RenderOutput::Raster(raster) => {
                if options.format == ImageFormat::SVG {
                    return Err(
                        AppError::image_generation_failed("Renderer output does not match the requested format"),
                    );
                }
                ExportService::export_raster(raster.as_slice(), options)?
            },
            RenderOutput::Highlighted(h) => {
                if options.format != ImageFormat::SVG {
                    return Err(
                        AppError::image_generation_failed("Renderer output does not match the requested format"),
                    );
                }
                export_svg(&h, style, options.resolution)?
            },
        };
        let file_size = encoded.data.len();
        Ok(ExportResult {
            data: encoded.data,
            format: options.format,
            width: encoded.width,
            height: encoded.height,
            file_size,
            export_id: random_id(),
        })
    }
}

} // verus!
