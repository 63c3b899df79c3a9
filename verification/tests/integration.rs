//! The crate as a whole.
use edocrs::config::Model;

#[test]
fn placeholder_compiles() {
    assert!(true);
}

#[test]
fn default_model_is_flash() {
    assert_eq!(Model::default().api_id(), "deepseek-v4-flash");
}
