//! Which LLM provider to use.
use vstd::prelude::*;
use crate::text::{cat3, chars_of, lower_ascii_seq, string_of, str_trim, to_ascii_lower, trim};

verus! {

/// The supported LLM providers.
#[derive(Clone, Copy, Debug, PartialEq, Eq, Structural)]
pub enum ProviderKind {
    Anthropic,
    OpenAI,
}

/// The name, trimmed and ASCII-lowercased, as the provider setting is read.
pub open spec fn normalized_kind(value: Seq<char>) -> Seq<char> {
    lower_ascii_seq(trim(value))
}

/// The refusal of an unknown provider name.
pub open spec fn unsupported_text(normalized: Seq<char>) -> Seq<char> {
    "unsupported LLM_PROVIDER '"@ + normalized + "'; expected 'anthropic' or 'openai'"@
}

fn ascii_lower_string(s: &str) -> (r: String)
    ensures
        r@ == lower_ascii_seq(s@),
{
    let v = chars_of(s);
    let mut out: Vec<char> = Vec::new();
    let mut i: usize = 0;
    while i < v.len()
        invariant
            i <= v@.len(),
            v@ == s@,
            out@ == lower_ascii_seq(s@.take(i as int)),
        decreases v@.len() - i,
    {
        out.push(to_ascii_lower(v[i]));
        i = i + 1;
        assert(out@ =~= lower_ascii_seq(s@.take(i as int)));
    }
    assert(s@.take(s@.len() as int) =~= s@);
    string_of(out.as_slice())
}

impl ProviderKind {
    /// Parse a provider setting: `anthropic` or `openai`, ignoring ASCII
    /// case and surrounding whitespace.
    pub fn parse_kind(value: &str) -> (r: Result<ProviderKind, String>)
        ensures
            normalized_kind(value@) == "anthropic"@ ==> r == Ok::<ProviderKind, String>(ProviderKind::Anthropic),
            normalized_kind(value@) == "openai"@ ==> r == Ok::<ProviderKind, String>(ProviderKind::OpenAI),
            normalized_kind(value@) != "anthropic"@ && normalized_kind(value@) != "openai"@
                ==> (r matches Err(e) && e@ == unsupported_text(normalized_kind(value@))),
    {
        proof {
            reveal_strlit("anthropic");
            reveal_strlit("openai");
            assert("openai"@.len() != "anthropic"@.len());
        }
        let t = str_trim(value);
        let l = ascii_lower_string(t.as_str());
        if crate::text::str_eq(l.as_str(), "anthropic") {
            Ok(ProviderKind::Anthropic)
        } else if crate::text::str_eq(l.as_str(), "openai") {
            Ok(ProviderKind::OpenAI)
        } else {
            Err(cat3("unsupported LLM_PROVIDER '", l.as_str(), "'; expected 'anthropic' or 'openai'"))
        }
    }

    /// The environment variable holding this provider's API key.
    pub fn api_key_var(&self) -> (r: &'static str)
        ensures
            *self == ProviderKind::Anthropic ==> r@ == "ANTHROPIC_API_KEY"@,
            *self == ProviderKind::OpenAI ==> r@ == "OPENAI_API_KEY"@,
    {
        proof {
            reveal_strlit("ANTHROPIC_API_KEY");
            reveal_strlit("OPENAI_API_KEY");
        }
        match self {
            ProviderKind::Anthropic => "ANTHROPIC_API_KEY",
            ProviderKind::OpenAI => "OPENAI_API_KEY",
        }
    }
}

impl std::str::FromStr for ProviderKind {
    type Err = String;

    fn from_str(value: &str) -> (r: Result<ProviderKind, String>)
        ensures
            normalized_kind(value@) == "anthropic"@ ==> r == Ok::<ProviderKind, String>(ProviderKind::Anthropic),
            normalized_kind(value@) == "openai"@ ==> r == Ok::<ProviderKind, String>(ProviderKind::OpenAI),
            normalized_kind(value@) != "anthropic"@ && normalized_kind(value@) != "openai"@
                ==> (r matches Err(e) && e@ == unsupported_text(normalized_kind(value@))),
    {
        ProviderKind::parse_kind(value)
    }
}

}
