use snippet_forge::errors::AppError;
use snippet_forge::export::{
    Adapter, EnhancedExportOptions, ExportService, ImageFormat, RenderOutput, Resolution,
};
use snippet_forge::svg::{
    export_svg, HighlightResult, HighlightedLine, HighlightedSegment, SegmentStyle, SvgStyle,
};

fn segment(text: &str, color: &str) -> HighlightedSegment {
    HighlightedSegment {
        text: text.to_string(),
        style: SegmentStyle { color: color.to_string(), bold: false, italic: false },
    }
}

fn highlight(lines: Vec<Vec<HighlightedSegment>>) -> HighlightResult {
    let total_lines = lines.len();
    HighlightResult {
        highlighted_lines: lines
            .into_iter()
            .enumerate()
            .map(|(i, segments)| HighlightedLine { segments, line_number: i + 1 })
            .collect(),
        language: "Python".to_string(),
        total_lines,
    }
}

fn style() -> SvgStyle {
    SvgStyle {
        background: "#1e1e1e".to_string(),
        gradient_to: None,
        show_title_bar: false,
        show_controls: false,
        title: None,
        show_line_numbers: false,
        font_size: 10,
        line_height_percent: 150,
    }
}

fn png_bytes(width: u32, height: u32) -> Vec<u8> {
    let img = image::RgbaImage::from_pixel(width, height, image::Rgba([10, 20, 30, 255]));
    let mut out = std::io::Cursor::new(Vec::new());
    image::DynamicImage::ImageRgba8(img).write_to(&mut out, image::ImageOutputFormat::Png).unwrap();
    out.into_inner()
}

#[test]
fn test_validate_options() {
    let valid_options = EnhancedExportOptions::default();
    assert!(ExportService::validate_options(&valid_options).is_ok());
    let invalid_jpeg = EnhancedExportOptions { format: ImageFormat::JPEG, quality: 101, ..Default::default() };
    assert!(ExportService::validate_options(&invalid_jpeg).is_err());
    let invalid_png = EnhancedExportOptions { compression_level: Some(10), ..Default::default() };
    assert!(ExportService::validate_options(&invalid_png).is_err());
    let invalid_width = EnhancedExportOptions { width: Some(50), ..Default::default() };
    assert!(ExportService::validate_options(&invalid_width).is_err());
}

#[test]
fn test_supported_formats() {
    let formats = ExportService::supported_formats();
    assert!(formats.contains(&ImageFormat::PNG));
    assert!(formats.contains(&ImageFormat::JPEG));
    assert!(formats.contains(&ImageFormat::SVG));
}

#[test]
fn test_supported_resolutions() {
    let resolutions = ExportService::supported_resolutions();
    assert!(resolutions.contains(&Resolution::Standard));
    assert!(resolutions.contains(&Resolution::High));
    assert!(resolutions.contains(&Resolution::Ultra));
}

#[test]
fn validation_names_the_first_broken_rule() {
    let cases = [
        (EnhancedExportOptions { format: ImageFormat::JPEG, quality: 0, ..Default::default() },
            "JPEG quality must be between 1 and 100"),
        (EnhancedExportOptions { compression_level: Some(10), width: Some(1), ..Default::default() },
            "PNG compression level must be between 0 and 9"),
        (EnhancedExportOptions { width: Some(8001), ..Default::default() },
            "Width must be between 100 and 8000 pixels"),
        (EnhancedExportOptions { height: Some(99), ..Default::default() },
            "Height must be between 100 and 8000 pixels"),
    ];
    for (options, expected) in cases.iter() {
        match ExportService::validate_options(options) {
            Err(AppError::ValidationError { message }) => assert_eq!(&message, expected),
            other => panic!("unexpected {:?}", other),
        }
    }
    let edges = EnhancedExportOptions {
        format: ImageFormat::JPEG,
        quality: 100,
        width: Some(100),
        height: Some(8000),
        compression_level: Some(9),
        ..Default::default()
    };
    assert!(ExportService::validate_options(&edges).is_ok());
    let png_any_quality = EnhancedExportOptions { quality: 0, ..Default::default() };
    assert!(ExportService::validate_options(&png_any_quality).is_ok());
}

#[test]
fn formats_map_to_extensions_and_adapters() {
    assert_eq!(ImageFormat::PNG.extension(), "png");
    assert_eq!(ImageFormat::JPEG.extension(), "jpg");
    assert_eq!(ImageFormat::SVG.content_type(), "image/svg+xml");
    assert_eq!(ExportService::adapter_for(ImageFormat::SVG), Adapter::Highlighter);
    assert_eq!(ExportService::adapter_for(ImageFormat::JPEG), Adapter::Rasterizer);
    assert_eq!(Resolution::Ultra.scale(), 3);
}

#[test]
fn test_export_svg() {
    let service = ExportService::new();
    let options = EnhancedExportOptions { format: ImageFormat::SVG, ..Default::default() };
    let h = highlight(vec![vec![segment("print(", "#fff"), segment("'Hello, Python!'", "#0f0"), segment(")", "#fff")]]);
    let result = service
        .export_code_snippet("print('Hello, Python!')", &options, &style(), RenderOutput::Highlighted(h))
        .unwrap();
    assert_eq!(result.format, ImageFormat::SVG);
    let svg = String::from_utf8(result.data.clone()).unwrap();
    assert!(svg.contains("<svg"));
    assert!(svg.contains("</svg>"));
    assert!(svg.contains("&#39;Hello, Python!&#39;"));
    assert_eq!(result.file_size, result.data.len());
    assert_eq!(result.export_id.len(), 36);
}

#[test]
fn svg_geometry_follows_font_and_scale() {
    let h = highlight(vec![vec![segment("abcd", "#fff")], vec![segment("ab", "#fff")]]);
    let out = export_svg(&h, &style(), Resolution::High).unwrap();
    // font 20, char width 12, line height 30, padding 80
    assert_eq!(out.width, 4 * 12 + 160);
    assert_eq!(out.height, 2 * 30 + 160);
    let svg = String::from_utf8(out.data).unwrap();
    assert!(svg.contains("<text x=\"80\" y=\"100\" class=\"code-text\" fill=\"#fff\">abcd</text>"));
    assert!(svg.contains("<text x=\"80\" y=\"130\" class=\"code-text\" fill=\"#fff\">ab</text>"));
    assert!(svg.contains("font-size: 20px;"));
}

#[test]
fn svg_chrome_and_line_numbers() {
    let mut st = style();
    st.show_title_bar = true;
    st.show_controls = true;
    st.title = Some("a<b".to_string());
    st.show_line_numbers = true;
    st.gradient_to = Some("#000".to_string());
    let h = highlight(vec![vec![segment("x", "#abc"), segment("", "#abc"), segment("y&", "#def")]]);
    let svg = String::from_utf8(export_svg(&h, &st, Resolution::Standard).unwrap().data).unwrap();
    assert!(svg.contains("fill=\"url(#bg-gradient)\""));
    assert!(svg.contains("<circle cx=\"15\""));
    assert!(svg.contains(">a&lt;b</text>"));
    assert!(svg.contains("fill=\"#666666\">  1</text>"));
    // padding 40, line numbers 50, char width 6; title bar moves the baseline down 30
    assert!(svg.contains("<text x=\"90\" y=\"80\" class=\"code-text\" fill=\"#abc\">x</text>"));
    assert!(svg.contains("<text x=\"96\" y=\"80\" class=\"code-text\" fill=\"#def\">y&amp;</text>"));
    assert!(svg.ends_with("</svg>"));
}

#[test]
fn svg_too_large_is_refused() {
    let mut st = style();
    st.font_size = u32::MAX;
    let h = highlight(vec![vec![segment("x", "#fff")]]);
    match export_svg(&h, &st, Resolution::Standard) {
        Err(AppError::ValidationError { message }) => assert_eq!(message, "Snippet too large to lay out"),
        other => panic!("unexpected {:?}", other.map(|e| e.width)),
    }
}

#[test]
fn test_empty_code_error() {
    let service = ExportService::new();
    let options = EnhancedExportOptions::default();
    match service.export_code_snippet("", &options, &style(), RenderOutput::Raster(png_bytes(2, 2))) {
        Err(AppError::ValidationError { message }) => assert_eq!(message, "Code content cannot be empty"),
        other => panic!("unexpected {:?}", other.map(|e| e.width)),
    }
}

#[test]
fn mismatched_collaborator_output_is_a_generation_error() {
    let service = ExportService::new();
    let options = EnhancedExportOptions { format: ImageFormat::SVG, ..Default::default() };
    let r = service.export_code_snippet("x", &options, &style(), RenderOutput::Raster(png_bytes(2, 2)));
    assert!(matches!(r, Err(AppError::ImageGenerationError { .. })));
}

#[test]
fn test_export_png() {
    let service = ExportService::new();
    let raster = png_bytes(12, 7);
    let options = EnhancedExportOptions::default();
    let result = service
        .export_code_snippet("fn main() {}", &options, &style(), RenderOutput::Raster(raster.clone()))
        .unwrap();
    assert_eq!(result.format, ImageFormat::PNG);
    assert_eq!(result.data, raster);
    assert_eq!((result.width, result.height), (12, 7));
    assert_eq!(result.file_size, raster.len());
}

#[test]
fn png_with_compression_is_encoded_again() {
    let raster = png_bytes(5, 4);
    let options = EnhancedExportOptions { compression_level: Some(9), ..Default::default() };
    let out = ExportService::export_raster(&raster, &options).unwrap();
    assert_eq!((out.width, out.height), (5, 4));
    assert_eq!(&out.data[..8], &[0x89, 0x50, 0x4E, 0x47, 0x0D, 0x0A, 0x1A, 0x0A]);
}

#[test]
fn test_export_jpeg() {
    let raster = png_bytes(9, 3);
    let options = EnhancedExportOptions { format: ImageFormat::JPEG, quality: 85, ..Default::default() };
    let out = ExportService::export_raster(&raster, &options).unwrap();
    assert_eq!((out.width, out.height), (9, 3));
    assert_eq!(&out.data[..3], &[0xFF, 0xD8, 0xFF]);
    assert_ne!(out.data, raster);
}

#[test]
fn undecodable_raster_is_a_generation_error() {
    let options = EnhancedExportOptions::default();
    let r = ExportService::export_raster(&[1, 2, 3, 4], &options);
    assert!(matches!(r, Err(AppError::ImageGenerationError { .. })));
}

#[test]
fn basic_options_keep_the_shared_fields() {
    let o = EnhancedExportOptions { format: ImageFormat::JPEG, quality: 70, width: Some(300), ..Default::default() };
    let b = o.basic();
    assert_eq!(b.format, ImageFormat::JPEG);
    assert_eq!(b.quality, 70);
    assert_eq!(b.width, Some(300));
    assert_eq!(b.height, None);
}

#[test]
fn requests_are_checked_code_first() {
    let bad = EnhancedExportOptions { width: Some(1), ..Default::default() };
    match ExportService::validate_request("", &bad) {
        Err(AppError::ValidationError { message }) => assert_eq!(message, "Code content cannot be empty"),
        other => panic!("unexpected {:?}", other),
    }
    assert!(ExportService::validate_request("x", &bad).is_err());
    assert!(ExportService::validate_request("x", &EnhancedExportOptions::default()).is_ok());
}

#[test]
fn oversized_jpeg_is_a_generation_error() {
    let raster = png_bytes(70_000, 1);
    let options = EnhancedExportOptions { format: ImageFormat::JPEG, ..Default::default() };
    assert!(matches!(
        ExportService::export_raster(&raster, &options),
        Err(AppError::ImageGenerationError { .. })
    ));
}
