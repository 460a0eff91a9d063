//! The application configuration: where the templates live, and the default
//! variables seeded beneath the per-invocation parameters.

use vstd::prelude::*;

use crate::context::VarContext;

verus! {

/// The configuration options.
///
/// | Name | Description | Default |
/// | --- | --- | --- |
/// | `template_path` | Path to the templates root directory. | `_generator` |
/// | `default` | Default variables seeded into every template's context. | none |
pub struct ApplicationConfig {
    pub template_path: String,
    pub default: VarContext,
}

/// The templates root directory used when the configuration names none.
pub fn default_template_path() -> (r: String)
    ensures
        r@ == "_generator"@,
{
    "_generator".to_owned()
}

impl Default for ApplicationConfig {
    /// The configuration used when no configuration file exists: the default
    /// templates root and no default variables.
    fn default() -> (r: Self)
        ensures
            r.template_path@ == "_generator"@,
            r.default@ == Map::<Seq<char>, Seq<char>>::empty(),
    {
        ApplicationConfig { template_path: default_template_path(), default: VarContext::new() }
    }
}

} // verus!
