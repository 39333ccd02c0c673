use license::templates::{
    get_custom_template, get_custom_template_internal, get_templates_dir, get_templates_dir_internal,
    TemplatesDirError,
};

#[test]
fn templates_dir_beside_config() {
    assert_eq!(
        get_templates_dir(Some("/cfg/license-manager/default-config.toml".to_string())),
        Ok("/cfg/license-manager/templates".to_string())
    );
    assert_eq!(get_templates_dir(None), Err(TemplatesDirError::ConfigPath));
    assert_eq!(get_templates_dir(Some("/".to_string())), Err(TemplatesDirError::ConfigDir));
}

#[test]
fn templates_dir_override() {
    assert_eq!(
        get_templates_dir_internal(Some("/tmp/t".to_string()), None),
        Ok("/tmp/t".to_string())
    );
}

#[test]
fn custom_template_location() {
    assert_eq!(
        get_custom_template_internal("my-license", Some("/tmp/templates".to_string()), None),
        Some("/tmp/templates/my-license".to_string())
    );
    assert_eq!(
        get_custom_template("my-license", Some("/c/app/config.toml".to_string())),
        Some("/c/app/templates/my-license".to_string())
    );
    assert_eq!(get_custom_template("x", None), None);
}
