//! The filter of the log layers.
use vstd::prelude::*;

use super::error::LogError;
use super::filter::{try_filter, Filter};

verus! {

broadcast use vstd::group_vstd_default;

/// The filter for `directive`.
pub fn build(directive: &str) -> (r: Result<Filter, LogError>)
    requires
        super::directive::parseable(directive@),
    ensures
        r is Ok <==> super::filter::filter_refusal(directive@) is None,
        r matches Ok(f) ==> f.directive() == directive@,
        r matches Err(e) ==> (e matches LogError::InvalidFilter { directive: d, source } && d@
            == directive@ && super::filter::filter_refusal(directive@) == Some(source@)),
        directive@.len() == 0 ==> r is Ok,
{
    let parsed = try_filter(directive);
    finish(directive, parsed)
}

/// The filter for `directive`, given what the filter parser made of it.
pub fn finish(directive: &str, parsed: Result<Filter, String>) -> (r: Result<Filter, LogError>)
    ensures
        r is Ok <==> parsed is Ok,
        r matches Ok(f) ==> parsed == Ok::<_, String>(f),
        r matches Err(e) ==> (e matches LogError::InvalidFilter { directive: d, source } && d@
            == directive@ && parsed == Err::<Filter, String>(source)),
{
    match parsed {
        Ok(filter) => Ok(filter),
        Err(source) => Err(LogError::InvalidFilter { directive: directive.to_owned(), source }),
    }
}

} // verus!
