//! One command-line option of a fuzzer: short form, long form, value.
use crate::config::text::{nonempty, opt_text, owned_if_nonempty};
use vstd::prelude::*;

verus! {

/// An option by its texts; an empty text is held as `None`.
pub struct ArgView {
    pub short_opt: Option<Seq<char>>,
    pub long_opt: Option<Seq<char>>,
    pub val: Option<Seq<char>>,
}

/// The option built from the three texts, each dropped when empty.
pub open spec fn arg_view(short_opt: Seq<char>, long_opt: Seq<char>, val: Seq<char>) -> ArgView {
    ArgView { short_opt: nonempty(short_opt), long_opt: nonempty(long_opt), val: nonempty(val) }
}

/// The three optional texts of an option.
pub fn arg_parts(short_opt: &str, long_opt: &str, val: &str) -> (r: (Option<String>, Option<String>, Option<String>))
    ensures
        opt_text(&r.0) == nonempty(short_opt@),
        opt_text(&r.1) == nonempty(long_opt@),
        opt_text(&r.2) == nonempty(val@),
{
    (owned_if_nonempty(short_opt), owned_if_nonempty(long_opt), owned_if_nonempty(val))
}

} // verus!
