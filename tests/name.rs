use ggml_quants::{merge_shards, GGufFileName, Shard, SizeLabel, Type, Version};
use std::path::PathBuf;

fn parse(name: &str) -> GGufFileName {
    GGufFileName::try_from(name).unwrap()
}

#[test]
fn test_name() {
    fn check(name: &str) {
        println!("{name} -> {}", parse(name).to_string())
    }

    check("mmproj.gguf");
    check("FM9G-71B-F16.gguf");
    check("test-cases-00002-of-00005.gguf");
    check("Gpt-163M-v2.0-F32.gguf");
    check("TinyLlama-1.1B-Chat-v1.0-Q8_0.gguf");
    check("MiniCPM3-1B-sft-v0.0-F16.gguf");
    check("MiniCPM-V-Clip-1B-v2.6-F16.gguf");
}

#[test]
fn test_name_types() {
    let vocab_name = GGufFileName::try_from("tokenizer-vocab.gguf").unwrap();
    assert!(matches!(vocab_name.type_, Type::Vocab));
    assert_eq!(vocab_name.base_name, "tokenizer");
    assert_eq!(vocab_name.to_string(), "tokenizer-vocab.gguf");

    let lora_name = GGufFileName::try_from("adapter-LoRA.gguf").unwrap();
    assert!(matches!(lora_name.type_, Type::LoRA));
    assert_eq!(lora_name.base_name, "adapter");
    assert_eq!(lora_name.to_string(), "adapter-LoRA.gguf");
}

#[test]
fn test_name_shard() {
    let name = GGufFileName::try_from("test-cases-00002-of-00005.gguf").unwrap();
    let expected = Shard::new(2, 5);
    assert_eq!(name.shard, expected);
    assert_eq!(name.shard.index, 2);
    assert_eq!(name.shard.count, 5);
    assert_eq!(name.shard_count(), 5);
    assert_eq!(name.iter_all().shard.index, 1);
}

#[test]
fn test_name_errors() {
    assert!(GGufFileName::try_from("test-cases-00002-of-00005").is_err());
    assert!(GGufFileName::try_from("test-cases-00002-of-00005.ggufx").is_err());
    assert!(GGufFileName::try_from("test-cases-00002-of-00005.gguf.").is_err());
    assert!(GGufFileName::try_from("test-cases-00002-of-00005.gguf.abc").is_err());
}

#[test]
fn test_name_into_single() {
    let name = GGufFileName::try_from("test-cases-00002-of-00005.gguf").unwrap();
    assert_eq!(name.shard.index, 2);
    assert_eq!(name.shard.count, 5);
    let name = name.into_single();
    assert_eq!(name.shard.index, 1);
    assert_eq!(name.shard.count, 1);
}

#[test]
fn test_from_path() {
    let path = PathBuf::from("/some/path/model-2x7.5B-F16.gguf");
    let file_name = path.file_name().unwrap().to_str().unwrap();
    let name = GGufFileName::try_from(file_name).unwrap();
    assert_eq!(name.base_name, "model");
    assert!(name.size_label.is_some());
    assert_eq!(name.size_label.as_ref().unwrap().to_string(), "2x7.5B");
    assert_eq!(name.encoding, Some("F16".into()));

    let invalid_path = PathBuf::from("/some/path/model.bin");
    let file_name = invalid_path.file_name().unwrap().to_str().unwrap();
    assert!(GGufFileName::try_from(file_name).is_err());
}

#[test]
fn test_iterator_implementation() {
    let name = GGufFileName::try_from("model-00001-of-00003.gguf").unwrap();

    let mut iter = name.clone();
    let first = iter.next().unwrap();
    assert_eq!(first.shard.index, 1);

    let second = iter.next().unwrap();
    assert_eq!(second.shard.index, 2);

    let third = iter.next().unwrap();
    assert_eq!(third.shard.index, 3);

    assert!(iter.next().is_none());

    let original = GGufFileName::try_from("model-v1.0-F16-00002-of-00003.gguf").unwrap();
    let split = original.clone().split_n(5);

    assert_eq!(split.shard.index, 1);
    assert_eq!(split.shard.count, 5);

    assert_eq!(split.base_name, original.base_name);
    assert_eq!(split.version, original.version);
    assert_eq!(split.encoding, original.encoding);
    assert_eq!(split.type_, original.type_);

    let mut rest = split;
    let mut all_shards = Vec::new();
    while let Some(shard) = rest.next() {
        all_shards.push(shard);
    }
    assert_eq!(all_shards.len(), 5);
    assert_eq!(all_shards[0].shard.index, 1);
    assert_eq!(all_shards[4].shard.index, 5);
}

#[test]
fn parse_all_parts() {
    let name = parse("TinyLlama-1.1B-Chat-v1.0-Q8_0.gguf");
    assert_eq!(name.base_name, "TinyLlama");
    assert_eq!(name.size_label, Some(SizeLabel::new(1, 1, 1, 'B')));
    assert_eq!(name.fine_tune, "Chat");
    assert_eq!(name.version, Some(Version::new(1, 0)));
    assert_eq!(name.encoding, Some("Q8_0".to_string()));
    assert_eq!(name.type_, Type::Default);
    assert_eq!(name.shard, Shard::default());
    assert_eq!(name.to_string(), "TinyLlama-1.1B-Chat-v1.0-Q8_0.gguf");
}

#[test]
fn parse_leftmost_size_label() {
    let name = parse("MiniCPM-V-Clip-1B-v2.6-F16.gguf");
    assert_eq!(name.base_name, "MiniCPM-V-Clip");
    assert_eq!(name.size_label, Some(SizeLabel::new(1, 1, 0, 'B')));
    assert_eq!(name.fine_tune, "");
    assert_eq!(name.version, Some(Version::new(2, 6)));
    assert_eq!(name.encoding, Some("F16".to_string()));
    assert_eq!(name.to_string(), "MiniCPM-V-Clip-1B-v2.6-F16.gguf");
}

#[test]
fn parse_without_size_label_drops_encoding() {
    let name = parse("test-cases-00002-of-00005.gguf");
    assert_eq!(name.base_name, "test");
    assert_eq!(name.size_label, None);
    assert_eq!(name.encoding, None);
    assert_eq!(name.version, None);
    assert_eq!(name.to_string(), "test-00002-of-00005.gguf");
}

#[test]
fn parse_without_dash() {
    let name = parse("mmproj.gguf");
    assert_eq!(name.base_name, "mmproj");
    assert_eq!(name.encoding, None);
    assert_eq!(name.to_string(), "mmproj.gguf");
}

#[test]
fn parse_zero_shard_is_not_a_shard() {
    let name = parse("m-00000-of-00002.gguf");
    assert_eq!(name.shard, Shard::default());
}

#[test]
fn merge_shard_names() {
    let a = parse("model-7B-F16-00001-of-00002.gguf");
    let b = parse("model-7B-F16-00002-of-00002.gguf");
    let merged = GGufFileName::merge_shards(&[a.clone(), b.clone()]).unwrap();
    assert_eq!(merged.to_string(), "model-7B-F16.gguf");
    assert!(GGufFileName::merge_shards(&[a.clone(), a.clone()]).is_none());
    assert!(GGufFileName::merge_shards(&[]).is_none());
    let c = parse("other-7B-F16-00002-of-00002.gguf");
    assert!(GGufFileName::merge_shards(&[a, c]).is_none());
}

#[test]
fn merge_shard_files_falls_back_to_default() {
    let files = vec![
        "model-7B-F16-00001-of-00002.gguf".to_string(),
        "model-7B-F16-00002-of-00002.gguf".to_string(),
    ];
    assert_eq!(merge_shards(&files).to_string(), "model-7B-F16.gguf");
    let files = vec!["model-7B-F16.bin".to_string()];
    assert_eq!(merge_shards(&files).to_string(), "model.gguf");
    assert_eq!(merge_shards(&Vec::new()).to_string(), "model.gguf");
}

#[test]
fn shard_index_counts_from_zero() {
    let name = parse("x-00003-of-00004.gguf");
    assert_eq!(name.shard_index(), 2);
    assert_eq!(name.to_owned().to_string(), "x-00003-of-00004.gguf");
}
