//! Out-of-process backend support: the path of the external renderer
//! relative to the program's own directory, the exact argument list handed to
//! it, and the classification of its exit status. The process itself is
//! spawned outside the library; everything it is given is computed and
//! specified here.

use vstd::prelude::*;

use crate::error::ConversionError;
use crate::format::{FormatTag, extension_of, is_vector, spec_extension, spec_is_vector};

verus! {

use vstd::string::StringExecFns;

/// The renderer executable's path, resolved at a fixed location relative to
/// the running program's own directory. Resolved once per batch and shared
/// by all workers.
pub open spec fn spec_tool_path(exe_dir: Seq<char>) -> Seq<char> {
    exe_dir + "\\Inkscape\\bin\\inkscape.exe"@
}

/// Compute the external renderer's path from the program's own directory.
pub fn external_tool_path(exe_dir: &str) -> (r: String)
    ensures
        r@ == spec_tool_path(exe_dir@),
{
    let mut out = String::new();
    out.append(exe_dir);
    out.append("\\Inkscape\\bin\\inkscape.exe");
    proof {
        assert(out@ =~= spec_tool_path(exe_dir@));
    }
    out
}

/// The arguments handed to the external renderer: the input path, an
/// explicit output path, an explicit export type, and — only when the target
/// format itself needs rasterization — a fixed high-resolution DPI hint, so
/// that raster export of vector sources is not blurry. Purely-vector target
/// formats omit the hint.
pub open spec fn spec_command_args(
    input: Seq<char>,
    output: Seq<char>,
    tag: FormatTag,
) -> Seq<Seq<char>> {
    let base = seq![
        input,
        "--export-filename"@,
        output,
        "--export-type="@ + spec_extension(tag),
    ];
    if spec_is_vector(tag) {
        base
    } else {
        base.push("--export-dpi=600"@)
    }
}

/// Build the argument list for one invocation of the external renderer.
pub fn external_command_args(input_path: &str, output_path: &str, tag: FormatTag) -> (r: Vec<
    String,
>)
    ensures
        r.deep_view() == spec_command_args(input_path@, output_path@, tag),
{
    let mut args: Vec<String> = Vec::new();
    args.push(String::from_str(input_path));
    args.push(String::from_str("--export-filename"));
    args.push(String::from_str(output_path));
    let mut export_type = String::from_str("--export-type=");
    export_type.append(extension_of(tag));
    args.push(export_type);
    if !is_vector(tag) {
        args.push(String::from_str("--export-dpi=600"));
    }
    proof {
        assert(args.deep_view() =~~= spec_command_args(input_path@, output_path@, tag));
    }
    args
}

/// Classify the exit of the external renderer process: exit code zero is
/// success, any other exit code or a spawn failure (no code at all) is an
/// external-tool error carrying the reported status.
pub fn classify_exit(code: Option<i32>) -> (r: Result<(), ConversionError>)
    ensures
        r is Ok <==> code == Some(0i32),
        r is Err ==> r->Err_0 == ConversionError::ExternalToolError(code),
{
    match code {
        Some(0i32) => Ok(()),
        _ => Err(ConversionError::ExternalToolError(code)),
    }
}

} // verus!
