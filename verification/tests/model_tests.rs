use fix_lib::json::{JsonKind, JsonMember};
use fix_lib::model::{
    build_prompt, download_url, find_model_path, find_or_download_model, listing_url,
    model_file_name, model_from_members, models_from_listing, validate_model_exists,
    AvailableModel, Config, ModelSource, DEFAULT_MODEL, HF_REPO,
};

#[test]
fn lib_test_config_default_model() {
    let config = Config::default();
    assert_eq!(config.default_model, "qwen3-correct-0.6B");
}

#[test]
fn lib_test_default_model_constant() {
    assert_eq!(DEFAULT_MODEL, "qwen3-correct-0.6B");
}

#[test]
fn lib_test_hf_repo_constant() {
    assert_eq!(HF_REPO, "animeshkundu/cmd-correct");
}

#[test]
fn lib_test_build_prompt_basic() {
    let prompt = build_prompt("bash", "gti status", None);

    assert!(prompt.contains("<|im_start|>system"));
    assert!(prompt.contains("shell command corrector for bash"));
    assert!(prompt.contains("<|im_start|>user"));
    assert!(prompt.contains("gti status"));
    assert!(prompt.contains("<|im_end|>"));
    assert!(prompt.contains("<|im_start|>assistant"));
}

#[test]
fn lib_test_build_prompt_different_shells() {
    let shells = vec!["bash", "zsh", "fish", "powershell", "cmd", "tcsh"];

    for shell in shells {
        let prompt = build_prompt(shell, "test command", None);
        assert!(
            prompt.contains(&format!("corrector for {}", shell)),
            "Prompt should contain shell name: {}",
            shell
        );
    }
}

#[test]
fn lib_test_build_prompt_special_characters() {
    let prompt = build_prompt("bash", "echo \"hello world\" | grep 'test'", None);

    assert!(prompt.contains("echo \"hello world\" | grep 'test'"));
}

#[test]
fn lib_test_build_prompt_empty_command() {
    let prompt = build_prompt("bash", "", None);

    // Should still produce valid ChatML structure
    assert!(prompt.contains("<|im_start|>system"));
    assert!(prompt.contains("<|im_start|>user"));
    assert!(prompt.contains("<|im_start|>assistant"));
}

#[test]
fn lib_test_build_prompt_multiline_command() {
    let cmd = "echo hello && \\\necho world";
    let prompt = build_prompt("bash", cmd, None);

    assert!(prompt.contains(cmd));
}

#[test]
fn main_test_config_default_model() {
    let config = Config::default();
    assert_eq!(config.default_model, "qwen3-correct-0.6B");
}

#[test]
fn main_test_default_model_constant() {
    assert_eq!(DEFAULT_MODEL, "qwen3-correct-0.6B");
}

#[test]
fn main_test_hf_repo_constant() {
    assert_eq!(HF_REPO, "animeshkundu/cmd-correct");
}

#[test]
fn main_test_build_prompt_basic() {
    let prompt = build_prompt("bash", "gti status", None);

    assert!(prompt.contains("<|im_start|>system"));
    assert!(prompt.contains("shell command corrector for bash"));
    assert!(prompt.contains("<|im_start|>user"));
    assert!(prompt.contains("gti status"));
    assert!(prompt.contains("<|im_end|>"));
    assert!(prompt.contains("<|im_start|>assistant"));
}

#[test]
fn main_test_build_prompt_different_shells() {
    let shells = vec!["bash", "zsh", "fish", "powershell", "cmd", "tcsh"];

    for shell in shells {
        let prompt = build_prompt(shell, "test command", None);
        assert!(
            prompt.contains(&format!("corrector for {}", shell)),
            "Prompt should contain shell name: {}",
            shell
        );
    }
}

#[test]
fn main_test_build_prompt_special_characters() {
    let prompt = build_prompt("bash", "echo \"hello world\" | grep 'test'", None);

    assert!(prompt.contains("echo \"hello world\" | grep 'test'"));
}

#[test]
fn main_test_build_prompt_empty_command() {
    let prompt = build_prompt("bash", "", None);

    // Should still produce valid ChatML structure
    assert!(prompt.contains("<|im_start|>system"));
    assert!(prompt.contains("<|im_start|>user"));
    assert!(prompt.contains("<|im_start|>assistant"));
}

#[test]
fn main_test_build_prompt_multiline_command() {
    let cmd = "echo hello && \\\necho world";
    let prompt = build_prompt("bash", cmd, None);

    assert!(prompt.contains(cmd));
}

#[test]
fn fix_prompt_is_exact() {
    assert_eq!(
        build_prompt("zsh", "gti status", Some("not found")),
        "<|im_start|>system\nYou are a shell command corrector for zsh. Output only the corrected command.<|im_end|>\n<|im_start|>user\ngti status<|im_end|>\n<|im_start|>assistant\n"
    );
}

#[test]
fn model_names_and_addresses() {
    assert_eq!(model_file_name("qwen3-correct-0.6B"), "qwen3-correct-0.6B.gguf");
    assert_eq!(
        listing_url(),
        "https://huggingface.co/api/models/animeshkundu/cmd-correct/tree/main"
    );
    assert_eq!(
        download_url("m"),
        "https://huggingface.co/animeshkundu/cmd-correct/resolve/main/m.gguf"
    );
}

#[test]
fn listing_yields_the_models() {
    let listing = "[{\"type\":\"file\",\"path\":\"README.md\",\"size\":10},\
        {\"path\":\"qwen3-correct-0.6B.gguf\",\"size\":639446688},\
        {\"path\":\"twice.gguf.gguf\",\"size\":-4},\
        {\"path\":\"float.gguf\",\"size\":1.5},\
        {\"path\":\"max.gguf\",\"size\":18446744073709551615},\
        {\"path\":12,\"size\":1},\
        \"stray\",\
        {\"path\":\"nosize.gguf\"}]";
    let models = models_from_listing(listing).unwrap();
    assert_eq!(
        models,
        vec![
            AvailableModel { name: "qwen3-correct-0.6B".to_string(), size: 639446688 },
            AvailableModel { name: "twice".to_string(), size: 0 },
            AvailableModel { name: "float".to_string(), size: 0 },
            AvailableModel { name: "max".to_string(), size: u64::MAX },
            AvailableModel { name: "nosize".to_string(), size: 0 },
        ]
    );
    assert_eq!(models_from_listing("[]"), Ok(vec![]));
    assert_eq!(models_from_listing("{}"), Err("expected a JSON array".to_string()));
    assert_eq!(models_from_listing("nonsense"), Err("expected a JSON array".to_string()));
}

#[test]
fn model_entry_by_members() {
    let members = vec![
        JsonMember { key: "path".to_string(), kind: JsonKind::Text, body: "a.gguf".to_string() },
        JsonMember { key: "size".to_string(), kind: JsonKind::Other, body: "42".to_string() },
    ];
    assert_eq!(
        model_from_members(Some(members)),
        Some(AvailableModel { name: "a".to_string(), size: 42 })
    );
    assert_eq!(model_from_members(None), None);
    let text_size = vec![
        JsonMember { key: "path".to_string(), kind: JsonKind::Text, body: "a.gguf".to_string() },
        JsonMember { key: "size".to_string(), kind: JsonKind::Text, body: "42".to_string() },
    ];
    assert_eq!(
        model_from_members(Some(text_size)),
        Some(AvailableModel { name: "a".to_string(), size: 0 })
    );
}

#[test]
fn validation_names_what_is_offered() {
    let models = vec![
        AvailableModel { name: "a".to_string(), size: 1 },
        AvailableModel { name: "b".to_string(), size: 2 },
        AvailableModel { name: "c".to_string(), size: 3 },
    ];
    assert_eq!(validate_model_exists("b", &models), Ok(()));
    assert_eq!(
        validate_model_exists("z", &models),
        Err("Model 'z' not found.\nAvailable models: a, b, c".to_string())
    );
    assert_eq!(
        validate_model_exists("z", &Vec::new()),
        Err("Model 'z' not found.\nAvailable models: ".to_string())
    );
}

#[test]
fn model_source_is_decided() {
    let config = Config::default();
    assert_eq!(
        find_model_path(Some("/m.gguf"), true, &config, false, false),
        Ok(ModelSource::File("/m.gguf".to_string()))
    );
    assert_eq!(
        find_model_path(Some("/m.gguf"), false, &config, true, false),
        Err("Model not found at: /m.gguf".to_string())
    );
    assert_eq!(
        find_model_path(None, false, &config, true, false),
        Ok(ModelSource::Installed("qwen3-correct-0.6B".to_string()))
    );
    assert_eq!(
        find_model_path(None, false, &config, true, true),
        Ok(ModelSource::Download("qwen3-correct-0.6B".to_string()))
    );
    assert_eq!(
        find_or_download_model("m", false, false),
        ModelSource::Download("m".to_string())
    );
}
