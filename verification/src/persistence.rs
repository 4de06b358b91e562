//! What persisted settings carry besides the settings themselves, and the
//! URL of the settings schema.

use vstd::prelude::*;

use crate::plugin::text_result;
use crate::settings::Settings;
use crate::text::has_prefix;

verus! {

/// The URL of the JSON schema of the settings file.
pub const SETTINGS_SCHEMA_URL: &'static str = "https://deskulpt-apps.github.io/gen/settings-schema.json";

/// The name of the settings file in the application's local data directory.
pub const SETTINGS_FILE_NAME: &'static str = "settings.json";

/// Settings together with the `$schema` they are written with.
pub struct SettingsWithMeta<'a> {
    /// The JSON schema URL, written as `$schema`.
    pub schema: &'a str,
    /// The settings, written flattened beside `$schema`.
    pub settings: &'a Settings,
}

impl<'a> SettingsWithMeta<'a> {
    /// Wrap borrowed settings with the schema URL.
    pub fn new(settings: &'a Settings) -> (m: Self)
        ensures
            m.schema@ == SETTINGS_SCHEMA_URL@,
            *m.settings == *settings,
    {
        SettingsWithMeta { schema: SETTINGS_SCHEMA_URL, settings }
    }
}

/// Convert a file path into a `file:` URL with `url::Url::from_file_path`,
/// rendered as text. The crate's source builds the serialization on the prefix
/// `file://`, which is all that is stated here: whether a path converts, and
/// the rest of the text, depend on the platform's notion of an absolute path.
#[verifier::external_body]
fn file_url(path: &str) -> (r: Option<String>)
    ensures
        r matches Some(u) ==> has_prefix(u@, "file://"@),
{
    match url::Url::from_file_path(path) {
        Ok(u) => Some(String::from(u)),
        Err(()) => None,
    }
}

/// The settings schema URL from the outcome of converting its file path: the
/// URL, or an error naming the path that did not convert.
pub fn schema_url_outcome(schema_path: &str, converted: Option<String>) -> (r: Result<String, String>)
    ensures
        converted matches Some(u) ==> r == Ok::<String, String>(u),
        converted is None ==> text_result(r) == Err::<Seq<char>, Seq<char>>(
            "Failed to convert to URL: "@ + schema_path@,
        ),
{
    match converted {
        Some(u) => Ok(u),
        None => {
            let mut e = String::from_str("Failed to convert to URL: ");
            e.append(schema_path);
            Err(e)
        },
    }
}

/// The `file:` URL of the settings schema file at `schema_path`.
pub fn settings_schema_url(schema_path: &str) -> (r: Result<String, String>)
    ensures
        r matches Ok(u) ==> has_prefix(u@, "file://"@),
        r matches Err(e) ==> e@ == "Failed to convert to URL: "@ + schema_path@,
{
    let converted = file_url(schema_path);
    schema_url_outcome(schema_path, converted)
}

} // verus!
