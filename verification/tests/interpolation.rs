use wazuh_slack::interpolate::{interpolate_env, referenced_vars};
use wazuh_slack::string_map::StringMap;

fn env(pairs: &[(&str, &str)]) -> StringMap<String> {
    let mut map = StringMap::new();
    for (name, value) in pairs {
        map = map.with(name.to_string(), value.to_string());
    }
    map
}

#[test]
fn env_interpolation_works() {
    let raw = r#"
slack:
  token_bot: "${WSC_TEST_TOKEN}"
sink:
  kind: stdout
"#;
    let expanded = interpolate_env(raw, &env(&[("WSC_TEST_TOKEN", "xoxb-secret")])).unwrap();
    let cfg: serde_yaml::Value = serde_yaml::from_str(&expanded).unwrap();
    assert_eq!(cfg["slack"]["token_bot"].as_str(), Some("xoxb-secret"));
    assert_eq!(cfg["sink"]["kind"].as_str(), Some("stdout"));
}

#[test]
fn missing_env_is_error() {
    let raw = r#"
slack:
  token_bot: "${WSC_DOES_NOT_EXIST_XYZ}"
sink:
  kind: stdout
"#;
    let error = interpolate_env(raw, &env(&[])).unwrap_err();
    assert_eq!(error.name, "WSC_DOES_NOT_EXIST_XYZ");
    assert_eq!(
        error.message(),
        "env var WSC_DOES_NOT_EXIST_XYZ referenced in config but not set"
    );
}

#[test]
fn text_without_references_stays_as_it_is() {
    for raw in ["", "plain", "$HOME", "${lower}", "${}", "${1A}", "${A", "${A-B}", "$ {A}", "${A }"] {
        assert!(referenced_vars(raw).is_empty(), "{raw}");
        assert_eq!(interpolate_env(raw, &env(&[("A", "x")])).unwrap(), raw);
    }
}

#[test]
fn references_are_found_wherever_they_begin() {
    let raw = "${A}$${B_2}${${C}}${_D}x${A}";
    assert_eq!(referenced_vars(raw), ["A", "B_2", "C", "_D", "A"]);
    let env = env(&[("A", "1"), ("B_2", "${A}"), ("C", ""), ("_D", "ü")]);
    assert_eq!(interpolate_env(raw, &env).unwrap(), "1$${A}${}üx1");
}

#[test]
fn the_first_name_without_a_value_is_reported() {
    let error = interpolate_env("${A}${B}${C}", &env(&[("A", "1")])).unwrap_err();
    assert_eq!(error.name, "B");
}
