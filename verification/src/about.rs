//! The about screen's text.
use vstd::prelude::*;

verus! {

/// The about screen: the boxed panel's title and its body text. The caller
/// renders and prints them.
pub fn handle_about_command() -> (r: (&'static str, &'static str))
    ensures
        r.0@ == "Lagos Command Line Interface - lcli"@,
        r.1@
            == "Version: 0.1.0\nAuthor: lhagfoss\n\nWebsite: https://lhagfoss.com\nGithub: https://github.com/lhagfoss"@,
{
    (
        "Lagos Command Line Interface - lcli",
        "Version: 0.1.0\nAuthor: lhagfoss\n\nWebsite: https://lhagfoss.com\nGithub: https://github.com/lhagfoss",
    )
}

} // verus!
