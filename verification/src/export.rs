use vstd::prelude::*;

verus! {

/// The file formats an asset can be exported to.
#[derive(Clone, Copy, Debug, PartialEq, Eq, Structural)]
pub enum ExportFormat {
    Glb,
    Fbx,
    Onnx,
}

/// What to export and where: an optional mesh, skeleton and motion clip, the
/// format, and the file to write.
pub struct ExportParams<M, S, C> {
    pub mesh: Option<M>,
    pub skeleton: Option<S>,
    pub clip: Option<C>,
    pub format: ExportFormat,
    pub file_path: String,
}

/// No exporter is written yet: each format answers with this message.
pub open spec fn export_error(format: ExportFormat) -> Seq<char> {
    match format {
        ExportFormat::Glb => "GLB export not yet implemented"@,
        ExportFormat::Fbx => "FBX export not yet implemented"@,
        ExportFormat::Onnx => "ONNX export not yet implemented"@,
    }
}

pub fn export_glb<M, S, C>(_params: &ExportParams<M, S, C>) -> (r: Result<(), String>)
    ensures
        r matches Err(e) && e@ == export_error(ExportFormat::Glb),
{
    Err(String::from_str("GLB export not yet implemented"))
}

pub fn export_fbx<M, S, C>(_params: &ExportParams<M, S, C>) -> (r: Result<(), String>)
    ensures
        r matches Err(e) && e@ == export_error(ExportFormat::Fbx),
{
    Err(String::from_str("FBX export not yet implemented"))
}

pub fn export_onnx<M, S, C>(_params: &ExportParams<M, S, C>) -> (r: Result<(), String>)
    ensures
        r matches Err(e) && e@ == export_error(ExportFormat::Onnx),
{
    Err(String::from_str("ONNX export not yet implemented"))
}

/// Exports through the exporter of the requested format.
pub fn export_asset<M, S, C>(params: &ExportParams<M, S, C>) -> (r: Result<(), String>)
    ensures
        r matches Err(e) && e@ == export_error(params.format),
{
    match params.format {
        ExportFormat::Glb => export_glb(params),
        ExportFormat::Fbx => export_fbx(params),
        ExportFormat::Onnx => export_onnx(params),
    }
}

} // verus!
