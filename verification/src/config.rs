//! The settings of the commands and of a project.

use vstd::prelude::*;

verus! {

/// Settings of a check.
#[derive(Debug)]
pub struct CheckConfig {
    pub require_paths: Vec<String>,
    pub warning: bool,
    pub autoload_paths: Vec<String>,
    pub inflect_acronyms: Vec<String>,
    pub ignore_errors_in: Vec<String>,
    pub files: Vec<String>,
}

/// Settings of `annotate`.
#[derive(Debug)]
pub struct AnnotateConfig {
    pub print: bool,
}

/// Settings of `strip`.
#[derive(Debug)]
pub struct StripConfig {
    pub annotate: bool,
    pub print: bool,
}

/// A setting that is absent, one string, or a list of strings.
#[derive(Debug)]
pub enum Strings {
    Absent,
    One(String),
    Many(Vec<String>),
}

/// `ref_slice::ref_slice`: the slice that holds just `s`.
#[verifier::external_body]
#[allow(deprecated)]
fn one_string(s: &String) -> (r: &[String])
    ensures
        r@ == seq![*s],
{
    ref_slice::ref_slice(s)
}

impl Strings {
    /// The strings of the setting.
    pub fn as_slice(&self) -> (r: &[String])
        ensures
            r@ == match self {
                Strings::Absent => Seq::<String>::empty(),
                Strings::One(s) => seq![*s],
                Strings::Many(v) => v@,
            },
    {
        match self {
            Strings::Absent => {
                let r: &[String] = &[];
                assert(r@ =~= Seq::<String>::empty());
                r
            },
            Strings::One(string) => one_string(string),
            Strings::Many(strings) => strings.as_slice(),
        }
    }

    /// No strings.
    pub fn default() -> (r: Strings)
        ensures
            r is Absent,
    {
        Strings::Absent
    }
}

/// The `[typedruby]` table of a project's settings.
#[derive(Debug)]
pub struct TypedRubyConfig {
    pub bundler: bool,
    pub source: Strings,
    pub load_path: Strings,
    pub autoload_path: Strings,
    pub ignore_errors: Strings,
}

/// The `[inflect]` table of a project's settings.
#[derive(Debug)]
pub struct InflectConfig {
    pub acronyms: Strings,
}

/// The `[codegen]` table of a project's settings.
#[derive(Debug)]
pub struct CodegenConfig {
    pub exec_commands: Strings,
}

/// A project's settings.
#[derive(Debug)]
pub struct ProjectConfig {
    pub typedruby: TypedRubyConfig,
    pub inflect: InflectConfig,
    pub codegen: CodegenConfig,
}

impl ProjectConfig {
    /// The settings of a project that sets nothing.
    pub fn default() -> (r: ProjectConfig)
        ensures
            !r.typedruby.bundler,
            r.typedruby.source is Absent,
            r.typedruby.load_path is Absent,
            r.typedruby.autoload_path is Absent,
            r.typedruby.ignore_errors is Absent,
            r.inflect.acronyms is Absent,
            r.codegen.exec_commands is Absent,
    {
        ProjectConfig {
            typedruby: TypedRubyConfig {
                bundler: false,
                source: Strings::Absent,
                load_path: Strings::Absent,
                autoload_path: Strings::Absent,
                ignore_errors: Strings::Absent,
            },
            inflect: InflectConfig { acronyms: Strings::Absent },
            codegen: CodegenConfig { exec_commands: Strings::Absent },
        }
    }
}

} // verus!
