//! Addresses that a manifest names: which of them may be shown to the user.

use crate::manifest::PluginManifest;
use crate::text::same_text;
use vstd::prelude::*;

verus! {

/// Whether `text` is an address: what `url::Url::parse` accepts.
pub uninterp spec fn is_address(text: Seq<char>) -> bool;

/// The scheme of the address written `text`: what `url::Url::scheme` gives
/// for the parsed address. Meaningful only where the text is an address.
pub uninterp spec fn address_scheme(text: Seq<char>) -> Seq<char>;

/// The address written `text` in the form that the parser settles on: what
/// `url::Url::as_str` gives for the parsed address. Meaningful only where the
/// text is an address.
pub uninterp spec fn address_text(text: Seq<char>) -> Seq<char>;

/// An address in parts: its scheme, and the whole of it as the parser writes
/// it.
#[derive(Debug)]
pub struct Address {
    pub scheme: String,
    pub text: String,
}

/// Parses `text` with `url::Url::parse` and hands back the scheme
/// (`url::Url::scheme`) and the serialised address (`url::Url::as_str`) of
/// the result. Gives `None` exactly where the text is not an address.
#[verifier::external_body]
fn parse_address(text: &str) -> (r: Option<Address>)
    ensures
        r is Some <==> is_address(text@),
        r is Some ==> r->0.scheme@ == address_scheme(text@),
        r is Some ==> r->0.text@ == address_text(text@),
{
    match url::Url::parse(text) {
        Ok(address) => Some(
            Address { scheme: address.scheme().to_string(), text: address.as_str().to_string() },
        ),
        Err(_) => None,
    }
}

/// The homepage that is shown after an install: the manifest's homepage in
/// its parsed form, if the manifest names one, it is an address, and its
/// scheme is `https`.
pub open spec fn shown_homepage(homepage: Option<Seq<char>>) -> Option<Seq<char>> {
    match homepage {
        Some(text) => if is_address(text) && address_scheme(text) == "https"@ {
            Some(address_text(text))
        } else {
            None
        },
        None => None,
    }
}

/// The homepage to show for a manifest, if any.
pub fn homepage_to_show(manifest: &PluginManifest) -> (r: Option<String>)
    ensures
        crate::manifest::optional_text(r) == shown_homepage(manifest@.homepage),
{
    match manifest.homepage() {
        Some(text) => match parse_address(text.as_str()) {
            Some(address) => {
                if same_text(address.scheme.as_str(), "https") {
                    Some(address.text)
                } else {
                    None
                }
            },
            None => None,
        },
        None => None,
    }
}

} // verus!
