//! A parsed filter and the directive it was parsed from.
use vstd::prelude::*;

verus! {

broadcast use vstd::group_vstd_default;

/// `tracing_subscriber::EnvFilter`, carried through without looking inside.
#[verifier::external_type_specification]
#[verifier::external_body]
pub struct ExEnvFilter(tracing_subscriber::EnvFilter);

/// Why `EnvFilter::try_new` refuses the directive, or `None` where it accepts it.
pub uninterp spec fn filter_refusal(directive: Seq<char>) -> Option<Seq<char>>;

/// The filter of one directive.
#[derive(Debug)]
pub struct Filter {
    directive: String,
    filter: tracing_subscriber::EnvFilter,
}

impl Filter {
    /// The directive that the filter was parsed from.
    pub closed spec fn directive(&self) -> Seq<char> {
        self.directive@
    }

    /// What the filter parser made of the directive.
    pub closed spec fn parsed(&self) -> tracing_subscriber::EnvFilter {
        self.filter
    }

    /// The directive that the filter was parsed from.
    pub fn text(&self) -> (s: &str)
        ensures
            s@ == self.directive(),
    {
        self.directive.as_str()
    }

    /// The filter for a log layer.
    pub fn into_env_filter(self) -> (f: tracing_subscriber::EnvFilter)
        ensures
            f == self.parsed(),
    {
        self.filter
    }
}

/// `tracing_subscriber::EnvFilter::try_new` on the directive, and the text of its error. Whether the
/// directive is accepted, and the text, depend on the directive alone; no directive at all is
/// accepted. A filter comes with the directive that was parsed into it, and no other code makes
/// one. The call can panic where it cuts a part that starts with white space through a character,
/// which is left out here.
#[verifier::external_body]
pub(crate) fn try_filter(directive: &str) -> (r: Result<Filter, String>)
    requires
        super::directive::parseable(directive@),
    ensures
        r is Ok <==> filter_refusal(directive@) is None,
        r matches Ok(f) ==> f.directive() == directive@,
        r matches Err(text) ==> filter_refusal(directive@) == Some(text@),
        directive@.len() == 0 ==> r is Ok,
{
    match tracing_subscriber::EnvFilter::try_new(directive) {
        Ok(filter) => Ok(Filter { directive: directive.to_owned(), filter }),
        Err(error) => Err(error.to_string()),
    }
}

} // verus!
