use earshot::{has_encoder, is_complete, Directory, Model};

fn directory(files: &[&str]) -> Directory {
    let names: Vec<String> = files.iter().map(|name| name.to_string()).collect();
    Directory {
        is_dir: true,
        present: names.clone(),
        entries: Some(names),
    }
}

#[test]
fn an_empty_directory_is_not_a_model() {
    let dir = directory(&[]);
    assert!(!is_complete(&dir, Model::Accurate));
    assert!(!is_complete(&dir, Model::Live));
}

#[test]
fn an_encoder_is_found_under_any_of_its_names() {
    for name in [
        "encoder-model.int8.onnx",
        "encoder.onnx",
        "encoder-model.onnx",
    ] {
        let dir = directory(&[name]);
        assert!(has_encoder(&dir), "{name} should count as an encoder");
    }
}

#[test]
fn a_decoder_alone_is_not_an_encoder() {
    let dir = directory(&["decoder_joint-model.onnx"]);
    assert!(!has_encoder(&dir));
}

#[test]
fn a_half_downloaded_model_does_not_count_as_installed() {
    let dir = directory(&["encoder.onnx"]);
    assert!(!is_complete(&dir, Model::Accurate));
}

#[test]
fn the_two_models_live_in_directories_of_their_own() {
    assert_ne!(Model::Accurate.folder(), Model::Live.folder());
    assert_eq!(Model::Accurate.folder(), "parakeet-tdt-0.6b-v3-int8");
    assert_eq!(Model::Live.folder(), "nemotron-streaming-en-0.6b");
}

#[test]
fn a_whole_download_is_a_model() {
    let accurate = directory(&["vocab.txt", "nemo128.onnx", "encoder-model.int8.onnx"]);
    assert!(is_complete(&accurate, Model::Accurate));
    assert!(!is_complete(&accurate, Model::Live));
    let live = directory(&["encoder.onnx", "tokenizer.model", "decoder_joint.onnx"]);
    assert!(is_complete(&live, Model::Live));
    assert!(!is_complete(&live, Model::Accurate));
}

#[test]
fn every_required_file_counts() {
    for model in [Model::Accurate, Model::Live] {
        let mut whole = model.required();
        whole.push("encoder.onnx");
        assert!(is_complete(&directory(&whole), model));
        for missing in 0..whole.len() {
            let mut part = whole.clone();
            part.remove(missing);
            assert!(!is_complete(&directory(&part), model));
        }
        whole.push("README.md");
        assert!(is_complete(&directory(&whole), model));
    }
    assert_eq!(Model::Accurate.required(), vec!["vocab.txt", "nemo128.onnx"]);
    assert_eq!(Model::Live.required(), vec!["tokenizer.model"]);
}

#[test]
fn what_is_no_directory_or_cannot_be_listed_is_no_model() {
    let mut dir = directory(&["tokenizer.model", "encoder.onnx"]);
    dir.is_dir = false;
    assert!(has_encoder(&dir));
    assert!(!is_complete(&dir, Model::Live));
    dir.is_dir = true;
    dir.entries = None;
    assert!(!has_encoder(&dir));
    assert!(!is_complete(&dir, Model::Live));
}

#[test]
fn an_encoder_name_needs_both_ends() {
    for name in ["encoder", "encoder.onnx.part", "my-encoder.onnx", "Encoder.onnx", ".onnx"] {
        assert!(!has_encoder(&directory(&[name])), "{name}");
    }
}
