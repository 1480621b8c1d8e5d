use ibl_bake::error::BakeError;
use ibl_bake::pipeline::{add_alpha, output_directory, output_path, PipelineConfig, Stage};
use ibl_bake::texture::TextureFormat;

#[test]
fn default_settings() {
    let config = PipelineConfig::default();
    assert_eq!(config.cubemap_side, 1024);
    assert_eq!(config.pixel_format, TextureFormat::Rgba16Float);
    assert!(config.flip_y);
    assert_eq!(config.bake_parameters.num_samples, 128);
    assert_eq!(config.bake_parameters.strength, "1.0");
    assert_eq!(config.bake_parameters.contrast_correction, "1.0");
    assert_eq!(config.bake_parameters.brightness_correction, "1.0");
    assert_eq!(config.bake_parameters.saturation_correction, "1.0");
    assert_eq!(config.bake_parameters.hue_correction, "0.0");
    assert_eq!(config.environment_file, "skybox.ktx2");
    assert_eq!(config.radiance_file, "specular_map.ktx2");
    assert_eq!(config.irradiance_file, "diffuse_map.ktx2");
}

#[test]
fn default_corrections_are_written_like_floats() {
    let config = PipelineConfig::default();
    assert_eq!(config.bake_parameters.strength, format!("{:?}", 1.0f32));
    assert_eq!(config.bake_parameters.hue_correction, format!("{:?}", 0.0f32));
}

#[test]
fn output_goes_beside_the_source() {
    assert_eq!(output_directory("assets/sky/studio.hdr"), "assets/sky");
    assert_eq!(output_directory("/studio.hdr"), "");
    assert_eq!(output_directory("studio.hdr"), ".");
    assert_eq!(output_directory(""), ".");
    assert_eq!(output_directory("dir/"), "dir");
    assert_eq!(output_directory("a//b"), "a/");
    assert_eq!(output_directory("./studio.hdr"), ".");
    assert_eq!(output_directory("h\u{f6}he/\u{4e2d}.hdr"), "h\u{f6}he");
}

#[test]
fn output_directory_agrees_with_splitting_at_the_last_slash() {
    for source in ["a/b/c.hdr", "c.hdr", "/c.hdr", "a/", "", "/", "//", "a\\b/c"] {
        let expected = match source.rsplit_once('/') {
            Some((a, _)) => String::from(a),
            None => String::from("."),
        };
        assert_eq!(output_directory(source), expected);
    }
}

#[test]
fn output_files_are_named_in_the_directory() {
    assert_eq!(output_path("assets/sky", "skybox.ktx2"), "assets/sky/skybox.ktx2");
    assert_eq!(output_path(".", "diffuse_map.ktx2"), "./diffuse_map.ktx2");
    assert_eq!(output_path("", "specular_map.ktx2"), "/specular_map.ktx2");
}

#[test]
fn every_pixel_gets_an_alpha_sample() {
    let rgb = [0.1f32, 0.2, 0.3, 0.4, 0.5, 0.6];
    assert_eq!(add_alpha(&rgb, 1.0), vec![0.1, 0.2, 0.3, 1.0, 0.4, 0.5, 0.6, 1.0]);
    assert_eq!(add_alpha::<f32>(&[], 1.0), Vec::<f32>::new());
    assert_eq!(add_alpha(&[7u8, 8, 9], 255), vec![7, 8, 9, 255]);
}

#[test]
fn alpha_agrees_with_chunking_by_three() {
    let rgb: Vec<f32> = (0..300).map(|i| i as f32 * 0.5).collect();
    let expected: Vec<f32> = rgb.chunks(3).flat_map(|c| [c[0], c[1], c[2], 1.0]).collect();
    assert_eq!(add_alpha(&rgb, 1.0), expected);
}

#[test]
fn stages_run_in_order() {
    let order = [
        Stage::AcquireDevice,
        Stage::LoadPanorama,
        Stage::Project,
        Stage::GenerateMipmaps,
        Stage::WriteEnvironment,
        Stage::BakeRadiance,
        Stage::WriteRadiance,
        Stage::BakeIrradiance,
        Stage::WriteIrradiance,
        Stage::Done,
    ];
    let mut stage = Stage::first();
    for expected in order {
        assert_eq!(stage, expected);
        stage = stage.advance(Ok(()));
    }
    assert_eq!(stage, Stage::Done);
}

#[test]
fn a_failed_stage_ends_the_bake() {
    let stage = Stage::first().advance(Err(BakeError::NoGPUFound));
    assert_eq!(stage, Stage::Failed(BakeError::NoGPUFound));
    assert_eq!(stage.advance(Ok(())), Stage::Failed(BakeError::NoGPUFound));
    assert_eq!(stage.advance(Err(BakeError::InvalidSize)), Stage::Failed(BakeError::NoGPUFound));
    let stage = Stage::WriteRadiance.advance(Err(BakeError::ReadbackFailed));
    assert_eq!(stage, Stage::Failed(BakeError::ReadbackFailed));
    let stage = Stage::WriteIrradiance.advance(Err(BakeError::ContainerWriteFailed));
    assert_eq!(stage, Stage::Failed(BakeError::ContainerWriteFailed));
    assert_eq!(Stage::LoadPanorama.advance(Err(BakeError::InvalidSize)), Stage::Failed(BakeError::InvalidSize));
}

#[test]
fn a_finished_bake_stays_finished() {
    assert_eq!(Stage::Done.advance(Ok(())), Stage::Done);
    assert_eq!(Stage::Done.advance(Err(BakeError::ReadbackFailed)), Stage::Done);
}

#[test]
fn failures_are_reported_in_words() {
    assert_eq!(BakeError::InvalidSize.message(), "The source files are not the same size");
    assert_eq!(BakeError::NoGPUFound.message(), "Error requesting GPU adapter");
    assert_eq!(BakeError::ReadbackFailed.message(), "Error reading the cubemap back from the GPU");
    assert_eq!(BakeError::ContainerWriteFailed.message(), "Error writing the container file");
}
