use batchconv::format::{BackendKind, FormatTag};
use batchconv::{
    backend_of, classify_exit, extension_of, external_command_args, external_tool_path, file_stem,
    is_vector, name_for, name_for_stem, selected_format, u32_to_decimal, ConversionError,
};

#[test]
fn decimal_zero() {
    assert_eq!(u32_to_decimal(0), "0");
}

#[test]
fn decimal_single_digit() {
    assert_eq!(u32_to_decimal(7), "7");
}

#[test]
fn decimal_two_digits() {
    assert_eq!(u32_to_decimal(10), "10");
}

#[test]
fn decimal_many_digits() {
    assert_eq!(u32_to_decimal(90125), "90125");
}

#[test]
fn decimal_max() {
    assert_eq!(u32_to_decimal(u32::MAX), "4294967295");
}

#[test]
fn stem_plain_name() {
    assert_eq!(file_stem("photo.png"), "photo");
}

#[test]
fn stem_unix_path() {
    assert_eq!(file_stem("/a/b/archive.tar.gz"), "archive.tar");
}

#[test]
fn stem_windows_path() {
    assert_eq!(file_stem("C:\\pictures\\photo.svg"), "photo");
}

#[test]
fn stem_no_extension() {
    assert_eq!(file_stem("/a/b/readme"), "readme");
}

#[test]
fn stem_leading_dot_only() {
    assert_eq!(file_stem(".hidden"), ".hidden");
}

#[test]
fn stem_leading_dot_with_extension() {
    assert_eq!(file_stem("/home/.config.bak"), ".config");
}

#[test]
fn stem_trailing_separator() {
    assert_eq!(file_stem("/a/b/"), "");
}

#[test]
fn stem_empty_path() {
    assert_eq!(file_stem(""), "");
}

#[test]
fn sequence_name_shape() {
    assert_eq!(name_for("/out", "img", 0, "jpeg"), "/out/img0.jpeg");
    assert_eq!(name_for("/out", "img", 12, "png"), "/out/img12.png");
}

#[test]
fn stem_name_shape() {
    assert_eq!(name_for_stem("/out", "in/doc.svg", "pdf"), "/out/doc.pdf");
}

#[test]
fn format_selection_enumerated() {
    assert_eq!(selected_format(0), Ok(FormatTag::Svg));
    assert_eq!(selected_format(1), Ok(FormatTag::Pdf));
    assert_eq!(selected_format(2), Ok(FormatTag::Png));
}

#[test]
fn format_selection_out_of_range() {
    assert_eq!(selected_format(3), Err(ConversionError::ConfigError));
    assert_eq!(selected_format(-1), Err(ConversionError::ConfigError));
}

#[test]
fn extensions_per_format() {
    assert_eq!(extension_of(FormatTag::Png), "png");
    assert_eq!(extension_of(FormatTag::Jpeg), "jpeg");
    assert_eq!(extension_of(FormatTag::WebP), "webp");
    assert_eq!(extension_of(FormatTag::Bmp), "bmp");
    assert_eq!(extension_of(FormatTag::Svg), "svg");
    assert_eq!(extension_of(FormatTag::Pdf), "pdf");
}

#[test]
fn backend_per_format() {
    assert_eq!(backend_of(FormatTag::Svg), BackendKind::External);
    assert_eq!(backend_of(FormatTag::Pdf), BackendKind::External);
    assert_eq!(backend_of(FormatTag::Png), BackendKind::External);
    assert_eq!(backend_of(FormatTag::Jpeg), BackendKind::Raster);
    assert_eq!(backend_of(FormatTag::WebP), BackendKind::Raster);
    assert_eq!(backend_of(FormatTag::Bmp), BackendKind::Raster);
}

#[test]
fn vector_formats() {
    assert!(is_vector(FormatTag::Svg));
    assert!(is_vector(FormatTag::Pdf));
    assert!(!is_vector(FormatTag::Png));
    assert!(!is_vector(FormatTag::Jpeg));
}

#[test]
fn tool_path_relative_to_exe_dir() {
    assert_eq!(
        external_tool_path("C:\\app"),
        "C:\\app\\Inkscape\\bin\\inkscape.exe"
    );
}

#[test]
fn command_args_raster_target_gets_dpi_hint() {
    let args = external_command_args("in/doc.svg", "/out/doc.png", FormatTag::Png);
    assert_eq!(
        args,
        vec![
            "in/doc.svg".to_string(),
            "--export-filename".to_string(),
            "/out/doc.png".to_string(),
            "--export-type=png".to_string(),
            "--export-dpi=600".to_string(),
        ]
    );
}

#[test]
fn command_args_vector_target_omits_dpi_hint() {
    let args = external_command_args("in/doc.svg", "/out/doc.pdf", FormatTag::Pdf);
    assert_eq!(
        args,
        vec![
            "in/doc.svg".to_string(),
            "--export-filename".to_string(),
            "/out/doc.pdf".to_string(),
            "--export-type=pdf".to_string(),
        ]
    );
}

#[test]
fn exit_zero_is_success() {
    assert_eq!(classify_exit(Some(0)), Ok(()));
}

#[test]
fn exit_nonzero_is_tool_error() {
    assert_eq!(
        classify_exit(Some(1)),
        Err(ConversionError::ExternalToolError(Some(1)))
    );
}

#[test]
fn spawn_failure_is_tool_error() {
    assert_eq!(
        classify_exit(None),
        Err(ConversionError::ExternalToolError(None))
    );
}
