use muse::export::{export_asset, export_fbx, export_glb, export_onnx, ExportFormat, ExportParams};

fn params(format: ExportFormat) -> ExportParams<(), (), ()> {
    ExportParams { mesh: None, skeleton: None, clip: None, format, file_path: "out".to_string() }
}

#[test]
fn every_exporter_reports_not_implemented() {
    assert_eq!(export_glb(&params(ExportFormat::Glb)), Err("GLB export not yet implemented".to_string()));
    assert_eq!(export_fbx(&params(ExportFormat::Glb)), Err("FBX export not yet implemented".to_string()));
    assert_eq!(export_onnx(&params(ExportFormat::Glb)), Err("ONNX export not yet implemented".to_string()));
}

#[test]
fn export_asset_dispatches_on_format() {
    assert_eq!(export_asset(&params(ExportFormat::Glb)), Err("GLB export not yet implemented".to_string()));
    assert_eq!(export_asset(&params(ExportFormat::Fbx)), Err("FBX export not yet implemented".to_string()));
    assert_eq!(export_asset(&params(ExportFormat::Onnx)), Err("ONNX export not yet implemented".to_string()));
}
