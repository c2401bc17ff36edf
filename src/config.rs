//! Lint options.

use vstd::prelude::*;
use crate::base_checker::CheckerKind;
use crate::reporter::ReporterKind;

verus! {

/// The options of a lint run. Only `check_list`, `max_line_length` and
/// `output` steer the run; the naming options are kept for rules to come.
pub struct Config {
    pub check_list: Vec<CheckerKind>,
    pub ignore: Vec<String>,
    pub max_line_length: usize,
    pub output: Vec<ReporterKind>,
    pub output_path: Option<String>,
    pub module_naming_style: String,
    pub package_naming_style: String,
    pub schema_naming_style: String,
    pub mixin_naming_style: String,
    pub protocol_naming_style: String,
    pub argument_naming_style: String,
    pub variable_naming_style: String,
    pub schema_attribute_naming_style: String,
    pub module_rgx: Option<String>,
    pub package_rgx: Option<String>,
    pub schema_rgx: Option<String>,
    pub mixin_rgx: Option<String>,
    pub protocol_rgx: Option<String>,
    pub argument_rgx: Option<String>,
    pub variable_rgx: Option<String>,
    pub schema_attribute_rgx: Option<String>,
    pub bad_names: Vec<String>,
}

/// The longest line that is not reported by default.
pub const DEFAULT_MAX_LINE_LENGTH: usize = 200;

fn owned(s: &str) -> (r: String)
    ensures
        r@ == s@,
{
    String::from_str(s)
}

impl Config {
    /// The default options: import and line-length checks, lines of up to
    /// 200 characters, output to standard output.
    #[allow(non_snake_case)]
    pub fn DEFAULT_CONFIG() -> (r: Config)
        ensures
            is_default_config(&r),
    {
        let bad_names = vec![
            owned("foo"),
            owned("bar"),
            owned("baz"),
            owned("toto"),
            owned("tutu"),
            owned("I"),
            owned("l"),
            owned("O"),
        ];
        let r = Config {
            check_list: vec![CheckerKind::ImportCheck, CheckerKind::MiscChecker],
            ignore: Vec::new(),
            max_line_length: DEFAULT_MAX_LINE_LENGTH,
            output: vec![ReporterKind::Stdout],
            output_path: None,
            module_naming_style: owned("ANY"),
            package_naming_style: owned("ANY"),
            schema_naming_style: owned("PascalCase"),
            mixin_naming_style: owned("PascalCase"),
            protocol_naming_style: owned("PascalCase"),
            argument_naming_style: owned("camelCase"),
            variable_naming_style: owned("ANY"),
            schema_attribute_naming_style: owned("ANY"),
            module_rgx: None,
            package_rgx: None,
            schema_rgx: None,
            mixin_rgx: None,
            protocol_rgx: None,
            argument_rgx: None,
            variable_rgx: None,
            schema_attribute_rgx: None,
            bad_names,
        };
        assert(r.check_list@ =~= seq![CheckerKind::ImportCheck, CheckerKind::MiscChecker]);
        assert(r.output@ =~= seq![ReporterKind::Stdout]);
        r
    }

    /// Takes every option from `config`.
    pub fn update(&mut self, config: Config)
        ensures
            *final(self) == config,
    {
        *self = config;
    }
}

/// `r` holds the default options.
pub open spec fn is_default_config(r: &Config) -> bool {
    &&& r.check_list@ == seq![CheckerKind::ImportCheck, CheckerKind::MiscChecker]
    &&& r.ignore@.len() == 0
    &&& r.max_line_length == DEFAULT_MAX_LINE_LENGTH
    &&& r.output@ == seq![ReporterKind::Stdout]
    &&& r.output_path.is_none()
    &&& r.module_naming_style@ == "ANY"@
    &&& r.package_naming_style@ == "ANY"@
    &&& r.schema_naming_style@ == "PascalCase"@
    &&& r.mixin_naming_style@ == "PascalCase"@
    &&& r.protocol_naming_style@ == "PascalCase"@
    &&& r.argument_naming_style@ == "camelCase"@
    &&& r.variable_naming_style@ == "ANY"@
    &&& r.schema_attribute_naming_style@ == "ANY"@
    &&& r.module_rgx.is_none()
    &&& r.package_rgx.is_none()
    &&& r.schema_rgx.is_none()
    &&& r.mixin_rgx.is_none()
    &&& r.protocol_rgx.is_none()
    &&& r.argument_rgx.is_none()
    &&& r.variable_rgx.is_none()
    &&& r.schema_attribute_rgx.is_none()
    &&& strings_view_is(
        r.bad_names@,
        seq!["foo"@, "bar"@, "baz"@, "toto"@, "tutu"@, "I"@, "l"@, "O"@],
    )
}

/// `v` holds strings with the views `w`, in order.
pub open spec fn strings_view_is(v: Seq<String>, w: Seq<Seq<char>>) -> bool {
    v.len() == w.len() && forall|i: int| 0 <= i < v.len() ==> #[trigger] v[i]@ == w[i]
}

} // verus!
