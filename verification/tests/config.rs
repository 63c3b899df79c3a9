//! Models and configuration.
use edocrs::cli::{Cli, Resume};
use edocrs::config::{
    default_session_dir, expand_tilde, join_path, same_path, Config, Dialect, EnvConfig, Model, Provider,
    TomlConfig, UserDirs,
};
use edocrs::errors::AppError;
use edocrs::json::Json;

fn no_env() -> EnvConfig {
    EnvConfig { api_key: None, base_url: None, model: None }
}

fn dirs() -> UserDirs {
    UserDirs { home: Some("/home/u".into()), data_local: Some("/home/u/.local/share".into()) }
}

fn no_cli() -> Cli {
    Cli { model: None, api_key: None, base_url: None, resume: None, yolo: false }
}

fn read_model(text: &str) -> Result<Model, String> {
    Model::from_json(&Json::parse(text)?)
}

#[test]
fn model_serializes_to_kebab_case() {
    let json_flash = Model::deepseek_v4_flash().to_json().to_text().unwrap();
    assert_eq!(json_flash, "\"deepseek-v4-flash\"");
    let json_pro = Model::deepseek_v4_pro().to_json().to_text().unwrap();
    assert_eq!(json_pro, "\"deepseek-v4-pro\"");
}

#[test]
fn model_parse_accepts_builtins_and_provider_syntax() {
    assert!(Model::parse("deepseek-v4-flash").unwrap() == Model::deepseek_v4_flash());
    assert!(Model::parse("deepseek-v4-pro").unwrap() == Model::deepseek_v4_pro());
    let gpt = Model::parse("openai/gpt-4o").unwrap();
    assert_eq!(gpt.provider, Provider::OpenAI);
    assert_eq!(gpt.dialect, Dialect::ChatCompletions);
    assert_eq!(gpt.api_id(), "gpt-4o");
    let other = Model::parse("anthropic/sonnet-4").unwrap();
    assert_eq!(other.dialect, Dialect::AnthropicMessages);
    assert!(Model::parse("gpt-4").is_err());
    assert!(Model::parse("bogus/").is_err());
    assert!(Model::parse("nosuchprovider/x").is_err());
}

#[test]
fn model_deserialize_roundtrip_and_rejects_unknown() {
    assert!(read_model("\"deepseek-v4-flash\"").is_ok());
    assert!(read_model("\"anthropic/sonnet-3\"").is_ok());
    assert!(read_model("\"gpt-4\"").is_err());
    assert!(read_model("5").is_err());
    let m = Model::parse("openai/gpt-4o").unwrap();
    let s = m.to_json().to_text().unwrap();
    assert!(read_model(&s).unwrap() == m);
}

#[test]
fn api_id_returns_lowercase_kebab() {
    assert_eq!(Model::deepseek_v4_flash().api_id(), "deepseek-v4-flash");
    assert_eq!(Model::deepseek_v4_pro().api_id(), "deepseek-v4-pro");
}

#[test]
fn config_load_prefers_env() {
    let env = EnvConfig {
        api_key: Some("sk-test-key-from-env".into()),
        base_url: None,
        model: Some("deepseek-v4-pro".into()),
    };
    let cfg = Config::load_from_env_only(&env, &dirs()).unwrap();
    assert_eq!(cfg.api_key, "sk-test-key-from-env");
    assert!(cfg.model == Model::deepseek_v4_pro());
}

#[test]
fn config_load_fails_without_api_key() {
    let res = Config::load_from_env_only(&no_env(), &dirs());
    assert!(res.is_err());
    let msg = res.unwrap_err().message();
    assert!(msg.to_lowercase().contains("api_key") || msg.to_lowercase().contains("api key"));
}

#[test]
fn config_rejects_invalid_model() {
    let env = EnvConfig {
        api_key: Some("sk-x".into()),
        base_url: None,
        model: Some("gpt-4".into()),
    };
    let res = Config::load_from_env_only(&env, &dirs());
    assert!(res.is_err());
}

#[test]
fn invalid_model_is_quoted_in_the_message() {
    let e = Model::parse("gp\"t").unwrap_err();
    assert!(matches!(e, AppError::Config(_)));
    assert!(e.message().starts_with("配置错误: 非法 model \"gp\\\"t\". 合法形式: "));
}

#[test]
fn each_source_beats_the_next() {
    let toml = TomlConfig {
        api_key: Some("toml".into()),
        base_url: Some("http://toml".into()),
        model: Some("deepseek-v4-pro".into()),
        max_tool_output_bytes: Some(7),
        session_dir: Some("~/s".into()),
    };
    let env = EnvConfig {
        api_key: Some("env".into()),
        base_url: Some("http://env".into()),
        model: None,
    };
    let cli = Cli { api_key: Some("cli".into()), ..no_cli() };
    let cfg = Config::merge(&cli, &env, &toml, &dirs()).unwrap();
    assert_eq!(cfg.api_key, "cli");
    assert_eq!(cfg.base_url, "http://env");
    assert!(cfg.model == Model::deepseek_v4_pro());
    assert_eq!(cfg.max_tool_output_bytes, 7);
    assert_eq!(cfg.session_dir, "/home/u/s");
}

#[test]
fn defaults_fill_what_no_source_gives() {
    let cli = Cli { api_key: Some("k".into()), ..no_cli() };
    let cfg = Config::merge(&cli, &no_env(), &TomlConfig::default(), &dirs()).unwrap();
    assert_eq!(cfg.base_url, "https://api.deepseek.com");
    assert!(cfg.model == Model::deepseek_v4_flash());
    assert_eq!(cfg.max_tool_output_bytes, 50_000);
    assert_eq!(cfg.session_dir, "/home/u/.local/share/edocrs/sessions");
}

#[test]
fn paths_are_expanded_and_joined() {
    assert_eq!(expand_tilde("~/x", &Some("/h".into())), "/h/x");
    assert_eq!(expand_tilde("~/x", &None), "~/x");
    assert_eq!(expand_tilde("~x", &Some("/h".into())), "~x");
    assert_eq!(default_session_dir(&None), ".edocrs/sessions");
    assert_eq!(join_path("/a", "b"), "/a/b");
    assert_eq!(join_path("/a/", "b"), "/a/b");
    assert_eq!(join_path("/a", "/b"), "/b");
}

#[test]
fn resume_chooses_a_session() {
    assert!(matches!(no_cli().session_choice(), Resume::New));
    let last = Cli { resume: Some("last".into()), ..no_cli() };
    assert!(matches!(last.session_choice(), Resume::Last));
    let one = Cli { resume: Some("abc".into()), ..no_cli() };
    assert!(matches!(one.session_choice(), Resume::Load(id) if id == "abc"));
}

#[test]
fn providers_have_names_and_dialects() {
    assert_eq!(Provider::parse("anthropic"), Some(Provider::Anthropic));
    assert_eq!(Provider::parse("x"), None);
    assert_eq!(Provider::DeepSeek.as_str(), "deepseek");
    assert_eq!(Provider::OpenAI.as_str(), "openai");
    assert_eq!(Provider::Anthropic.default_dialect(), Dialect::AnthropicMessages);
    assert_eq!(Provider::OpenAI.default_dialect(), Dialect::ChatCompletions);
}

#[test]
fn paths_are_compared_as_the_standard_library_does() {
    let paths = [
        "", ".", "./", "/", "//", "/.", "a", "a/", "./a", "/a", "//a", "a/b", "a//b", "a/./b",
        "./a/b", "a/../b", "b", "..", "../", "./.", "a/.", ".a",
    ];
    for a in paths {
        for b in paths {
            let same = std::path::Path::new(a) == std::path::Path::new(b);
            assert_eq!(same_path(a, b), same, "{a:?} {b:?}");
        }
    }
}
