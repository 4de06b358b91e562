//! How widgets are bundled: the bundler configuration for a widget and the
//! check on what the bundler produced.

use vstd::prelude::*;

use crate::text::{decimal, decimal_string};

verus! {

/// Runtime URL of the JSX runtime module.
pub const JSX_RUNTIME_URL: &'static str = "__DESKULPT_BASE_URL__/gen/jsx-runtime.js";

/// Runtime URL of the raw APIs module.
pub const RAW_APIS_URL: &'static str = "__DESKULPT_BASE_URL__/gen/raw-apis.js";

/// Runtime URL of the React module.
pub const REACT_URL: &'static str = "__DESKULPT_BASE_URL__/gen/react.js";

/// Runtime URL of the UI module.
pub const UI_URL: &'static str = "__DESKULPT_BASE_URL__/gen/ui.js";

/// Runtime URL of the widget APIs blob.
pub const APIS_BLOB_URL: &'static str = "__DESKULPT_APIS_BLOB_URL__";

/// The JSX runtime flavour of widget code.
pub const JSX_RUNTIME: &'static str = "automatic";

/// The module the automatic JSX runtime is imported from.
pub const JSX_IMPORT_SOURCE: &'static str = "@deskulpt-test/emotion";

/// Import specifier of the JSX runtime.
pub const JSX_RUNTIME_MODULE: &'static str = "@deskulpt-test/emotion/jsx-runtime";

/// Import specifier of the raw APIs.
pub const RAW_APIS_MODULE: &'static str = "@deskulpt-test/raw-apis";

/// Import specifier of React.
pub const REACT_MODULE: &'static str = "@deskulpt-test/react";

/// Import specifier of the UI components.
pub const UI_MODULE: &'static str = "@deskulpt-test/ui";

/// Import specifier of the widget APIs.
pub const APIS_MODULE: &'static str = "@deskulpt-test/apis";

/// The module format of a bundle.
#[derive(Clone, Copy, Debug, PartialEq, Eq, Structural)]
pub enum OutputFormat {
    Esm,
    Cjs,
    Iife,
}

/// The platform a bundle runs on.
#[derive(Clone, Copy, Debug, PartialEq, Eq, Structural)]
pub enum Platform {
    Browser,
    Node,
    Neutral,
}

/// Builder of the bundler for one widget.
#[derive(Debug)]
pub struct BundlerBuilder {
    /// Absolute path to the widget directory.
    pub root: String,
    /// Entry file relative to the widget directory.
    pub entry: String,
}

/// The bundler configuration of a widget.
#[derive(Debug)]
pub struct BundleConfig {
    /// The entry module.
    pub input: String,
    /// The directory modules are resolved from.
    pub cwd: String,
    pub format: OutputFormat,
    pub platform: Platform,
    pub minify: bool,
    /// The JSX runtime flavour.
    pub jsx_runtime: String,
    /// Where the automatic JSX runtime is imported from.
    pub jsx_import_source: String,
    /// Modules left to be loaded at runtime.
    pub external: Vec<String>,
    /// Import specifiers rewritten to runtime URLs, in order.
    pub aliases: Vec<(String, String)>,
}

/// The modules that are available at runtime and so are never bundled.
pub open spec fn runtime_externals() -> Seq<Seq<char>> {
    seq![JSX_RUNTIME_URL@, RAW_APIS_URL@, REACT_URL@, UI_URL@, APIS_BLOB_URL@]
}

/// The default dependencies of widgets and the runtime URLs they resolve to.
pub open spec fn runtime_aliases() -> Seq<(Seq<char>, Seq<char>)> {
    seq![
        (JSX_RUNTIME_MODULE@, JSX_RUNTIME_URL@),
        (RAW_APIS_MODULE@, RAW_APIS_URL@),
        (REACT_MODULE@, REACT_URL@),
        (UI_MODULE@, UI_URL@),
        (APIS_MODULE@, APIS_BLOB_URL@),
    ]
}

/// The characters of a list of strings.
pub open spec fn texts(v: Seq<String>) -> Seq<Seq<char>> {
    v.map_values(|s: String| s@)
}

/// The characters of a list of string pairs.
pub open spec fn text_pairs(v: Seq<(String, String)>) -> Seq<(Seq<char>, Seq<char>)> {
    v.map_values(|p: (String, String)| (p.0@, p.1@))
}

impl BundlerBuilder {
    /// A builder for the widget in `root` with entry file `entry`.
    pub fn new(root: String, entry: String) -> (b: Self)
        ensures
            b.root == root,
            b.entry == entry,
    {
        BundlerBuilder { root, entry }
    }

    /// The bundler configuration: the widget's entry, resolved from its
    /// directory, bundled as a minified ES module for the browser with the
    /// automatic JSX runtime; the default dependencies are aliased to runtime
    /// URLs, which are left external.
    pub fn build(self) -> (c: BundleConfig)
        ensures
            c.input == self.entry,
            c.cwd == self.root,
            c.format == OutputFormat::Esm,
            c.platform == Platform::Browser,
            c.minify,
            c.jsx_runtime@ == JSX_RUNTIME@,
            c.jsx_import_source@ == JSX_IMPORT_SOURCE@,
            texts(c.external@) == runtime_externals(),
            text_pairs(c.aliases@) == runtime_aliases(),
    {
        let external = vec![
            String::from_str(JSX_RUNTIME_URL),
            String::from_str(RAW_APIS_URL),
            String::from_str(REACT_URL),
            String::from_str(UI_URL),
            String::from_str(APIS_BLOB_URL),
        ];
        let aliases = vec![
            (String::from_str(JSX_RUNTIME_MODULE), String::from_str(JSX_RUNTIME_URL)),
            (String::from_str(RAW_APIS_MODULE), String::from_str(RAW_APIS_URL)),
            (String::from_str(REACT_MODULE), String::from_str(REACT_URL)),
            (String::from_str(UI_MODULE), String::from_str(UI_URL)),
            (String::from_str(APIS_MODULE), String::from_str(APIS_BLOB_URL)),
        ];
        assert(texts(external@) =~= runtime_externals());
        assert(text_pairs(aliases@) =~= runtime_aliases());
        BundleConfig {
            input: self.entry,
            cwd: self.root,
            format: OutputFormat::Esm,
            platform: Platform::Browser,
            minify: true,
            jsx_runtime: String::from_str(JSX_RUNTIME),
            jsx_import_source: String::from_str(JSX_IMPORT_SOURCE),
            external,
            aliases,
        }
    }
}

/// Every default dependency is rewritten to a runtime URL that is left
/// external, so none of them is ever bundled into a widget.
pub proof fn lemma_aliases_external()
    ensures
        forall|i: int|
            0 <= i < runtime_aliases().len() ==> runtime_externals().contains(#[trigger] runtime_aliases()[i].1),
{
    assert forall|i: int| 0 <= i < runtime_aliases().len() implies runtime_externals().contains(
        #[trigger] runtime_aliases()[i].1,
    ) by {
        assert(runtime_externals()[i] == runtime_aliases()[i].1);
    }
}

/// Why bundling a widget failed.
#[derive(Debug)]
pub enum BundleError {
    /// The bundler reported errors; carries its diagnostics.
    Build(String),
    /// The bundler produced this many outputs instead of one.
    OutputCount(usize),
    /// The single output could not be read as code.
    Output(String),
}

impl BundleError {
    /// The message of the error.
    pub fn message(&self) -> (m: String)
        ensures
            match self {
                BundleError::Build(d) => m@ == d@,
                BundleError::OutputCount(n) => m@ == "Expected 1 bundled output, found "@ + decimal(*n as nat)
                    + "; ensure that widget code does not contain e.g. dynamic imports that may result in extra chunks"@,
                BundleError::Output(e) => m@ == e@,
            },
    {
        match self {
            BundleError::Build(d) => d.clone(),
            BundleError::OutputCount(n) => {
                let mut m = String::from_str("Expected 1 bundled output, found ");
                let count = decimal_string(*n);
                m.append(count.as_str());
                m.append(
                    "; ensure that widget code does not contain e.g. dynamic imports that may result in extra chunks",
                );
                m
            },
            BundleError::Output(e) => e.clone(),
        }
    }
}

/// The code of a bundle from the bundler's outputs, each read as code or
/// failing to: a widget has a single entry, so exactly one output is expected
/// (more come from e.g. dynamic imports, which widgets may not use).
pub fn single_output(outputs: Vec<Result<String, String>>) -> (r: Result<String, BundleError>)
    ensures
        outputs.len() != 1 ==> (r matches Err(BundleError::OutputCount(n)) && n == outputs.len()),
        outputs.len() == 1 ==> match outputs@[0] {
            Ok(code) => r == Ok::<String, BundleError>(code),
            Err(e) => (r matches Err(BundleError::Output(f)) && f == e),
        },
{
    let n = outputs.len();
    if n != 1 {
        return Err(BundleError::OutputCount(n));
    }
    let mut outputs = outputs;
    match outputs.remove(0) {
        Ok(code) => Ok(code),
        Err(e) => Err(BundleError::Output(e)),
    }
}

} // verus!
