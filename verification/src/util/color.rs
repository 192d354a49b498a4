//! Provider names in the colours of their houses, for the terminal.

use vstd::prelude::*;

verus! {

/// Whether `shown` is the text as a terminal takes it in some style: the
/// text as it is, or the text between an escape sequence that sets the
/// style and the one that resets it.
pub open spec fn is_painted(text: Seq<char>, shown: Seq<char>) -> bool {
    shown == text || exists|style: Seq<char>|
        shown == #[trigger] ("\x1b["@ + style + "m"@ + text + "\x1b[0m"@)
}

/// Calls `Colorize::green`, then `Colorize::truecolor`, which takes the
/// place of the green, and writes the result with `to_string`. Claimed of
/// a text that holds no escape character: it comes back as it is where
/// colored finds that colours are off (by `NO_COLOR`, `CLICOLOR`, or an
/// output that is no terminal), and else between the escape sequence of a
/// style, which follows `COLORTERM`, and the one that resets it.
#[verifier::external_body]
pub(crate) fn paint(text: &str, red: u8, green: u8, blue: u8) -> (r: String)
    requires
        !text@.contains('\x1b'),
    ensures
        is_painted(text@, r@),
{
    colored::Colorize::truecolor(colored::Colorize::green(text), red, green, blue).to_string()
}

/// Whether `label` is the name of a provider as the terminal shows it:
/// `Cloudflare` and `Porkbun` in some style, any other provider as it is.
pub open spec fn is_provider_label(provider: Seq<char>, label: Seq<char>) -> bool {
    if provider == "cloudflare"@ {
        is_painted("Cloudflare"@, label)
    } else if provider == "porkbun"@ {
        is_painted("Porkbun"@, label)
    } else {
        label == provider
    }
}

/// The name of a provider for the terminal: Cloudflare in orange, Porkbun
/// in pink, where the terminal takes colours, and any other provider as it
/// is.
pub fn colorize_provider(provider: &str) -> (r: String)
    ensures
        is_provider_label(provider@, r@),
{
    if provider.eq("cloudflare") {
        proof {
            reveal_strlit("Cloudflare");
        }
        paint("Cloudflare", 244, 129, 32)
    } else if provider.eq("porkbun") {
        proof {
            reveal_strlit("Porkbun");
        }
        paint("Porkbun", 239, 120, 120)
    } else {
        provider.to_owned()
    }
}

} // verus!
