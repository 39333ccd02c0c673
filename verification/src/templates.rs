//! Where custom license templates are kept: a `templates` directory beside
//! the configuration file, unless another directory is given.
use crate::paths::{join_path, joined_path, parent, parent_path};
use crate::project::opt_view;
use vstd::prelude::*;

verus! {

/// Why the templates directory cannot be located.
#[derive(Debug, PartialEq, Eq, Structural)]
pub enum TemplatesDirError {
    /// The configuration file's location is unknown.
    ConfigPath,
    /// The configuration file's location has no parent directory.
    ConfigDir,
}

/// The text of a located directory, or why it could not be located.
pub open spec fn dir_view(r: Result<String, TemplatesDirError>) -> Result<Seq<char>, TemplatesDirError> {
    match r {
        Ok(d) => Ok(d@),
        Err(e) => Err(e),
    }
}

/// The templates directory: `override_dir` when given; else `templates`
/// beside the configuration file `config_file` (`None` when its location is
/// unknown).
pub open spec fn templates_dir(override_dir: Option<Seq<char>>, config_file: Option<Seq<char>>) -> Result<
    Seq<char>,
    TemplatesDirError,
> {
    match override_dir {
        Some(d) => Ok(d),
        None => match config_file {
            None => Err(TemplatesDirError::ConfigPath),
            Some(f) => match parent_path(f) {
                None => Err(TemplatesDirError::ConfigDir),
                Some(p) => Ok(joined_path(p, "templates"@)),
            },
        },
    }
}

/// Locates the templates directory (its creation, when missing, is the
/// caller's file-system work).
pub fn get_templates_dir_internal(override_dir: Option<String>, config_file: Option<String>) -> (r:
    Result<String, TemplatesDirError>)
    ensures
        dir_view(r) == templates_dir(opt_view(override_dir), opt_view(config_file)),
{
    if let Some(dir) = override_dir {
        return Ok(dir);
    }
    match config_file {
        None => Err(TemplatesDirError::ConfigPath),
        Some(f) => match parent(f.as_str()) {
            None => Err(TemplatesDirError::ConfigDir),
            Some(p) => Ok(join_path(p.as_str(), "templates")),
        },
    }
}

/// Locates the templates directory beside the configuration file.
pub fn get_templates_dir(config_file: Option<String>) -> (r: Result<String, TemplatesDirError>)
    ensures
        dir_view(r) == templates_dir(None, opt_view(config_file)),
{
    get_templates_dir_internal(None, config_file)
}

/// The file the custom template `name` is read from, when the templates
/// directory can be located.
pub open spec fn template_file(
    name: Seq<char>,
    override_dir: Option<Seq<char>>,
    config_file: Option<Seq<char>>,
) -> Option<Seq<char>> {
    match templates_dir(override_dir, config_file) {
        Ok(d) => Some(joined_path(d, name)),
        Err(_) => None,
    }
}

/// Locates the file of the custom template `name` in the templates
/// directory (`override_dir`, or the one beside the configuration file).
pub fn get_custom_template_internal(
    name: &str,
    override_dir: Option<String>,
    config_file: Option<String>,
) -> (r: Option<String>)
    ensures
        opt_view(r) == template_file(name@, opt_view(override_dir), opt_view(config_file)),
{
    match get_templates_dir_internal(override_dir, config_file) {
        Ok(dir) => Some(join_path(dir.as_str(), name)),
        Err(_) => None,
    }
}

/// Locates the file of the custom template `name` in the templates
/// directory beside the configuration file.
pub fn get_custom_template(name: &str, config_file: Option<String>) -> (r: Option<String>)
    ensures
        opt_view(r) == template_file(name@, None, opt_view(config_file)),
{
    get_custom_template_internal(name, None, config_file)
}

} // verus!
