//! Plain argument types for the command-line surface. The argument parser
//! itself lives with the binary; these types carry the parsed values into
//! the library.

use vstd::prelude::*;

verus! {

/// Which vendor a provider entry is for, as named on the command line.
#[derive(Clone, Copy, Debug, PartialEq, Eq, Structural)]
pub enum ProviderKindArg {
    Google,
    Anthropic,
    Openai,
}

/// Case-insensitive equality against an ASCII lower-case name: each
/// character matches itself or its upper-case form.
pub open spec fn lower_eq(c: char, l: char) -> bool {
    c == l || ('a' <= l && l <= 'z' && c as u32 + 32 == l as u32)
}

pub open spec fn eq_ignore_ascii_case(s: Seq<char>, t: Seq<char>) -> bool {
    s.len() == t.len() && forall|i: int| 0 <= i < s.len() ==> lower_eq(s[i], #[trigger] t[i])
}

fn matches_name(name: &[char], target: &[char]) -> (r: bool)
    ensures
        r == eq_ignore_ascii_case(name@, target@),
{
    if name.len() != target.len() {
        return false;
    }
    let n: usize = name.len();
    let mut i: usize = 0;
    while i < n
        invariant
            0 <= i <= n,
            n == name@.len() == target@.len(),
            forall|j: int| 0 <= j < i ==> lower_eq(name@[j], #[trigger] target@[j]),
        decreases n - i,
    {
        let c = name[i];
        let l = target[i];
        let ok = c == l || ('a' <= l && l <= 'z' && (c as u32) == (l as u32) - 32);
        if !ok {
            assert(!lower_eq(name@[i as int], target@[i as int]));
            return false;
        }
        i = i + 1;
    }
    true
}

impl ProviderKindArg {
    /// Infer the vendor from a provider name, ignoring ASCII case.
    pub fn infer_from_name(name: &str) -> (r: Option<ProviderKindArg>)
        ensures
            eq_ignore_ascii_case(name@, "google"@) ==> r == Some(ProviderKindArg::Google),
            !eq_ignore_ascii_case(name@, "google"@) && eq_ignore_ascii_case(name@, "anthropic"@)
                ==> r == Some(ProviderKindArg::Anthropic),
            !eq_ignore_ascii_case(name@, "google"@) && !eq_ignore_ascii_case(name@, "anthropic"@)
                && eq_ignore_ascii_case(name@, "openai"@) ==> r == Some(ProviderKindArg::Openai),
            !eq_ignore_ascii_case(name@, "google"@) && !eq_ignore_ascii_case(name@, "anthropic"@)
                && !eq_ignore_ascii_case(name@, "openai"@) ==> r is None,
    {
        let cs = crate::text::str_chars(name);
        if matches_name(cs.as_slice(), crate::text::str_chars("google").as_slice()) {
            Some(ProviderKindArg::Google)
        } else if matches_name(cs.as_slice(), crate::text::str_chars("anthropic").as_slice()) {
            Some(ProviderKindArg::Anthropic)
        } else if matches_name(cs.as_slice(), crate::text::str_chars("openai").as_slice()) {
            Some(ProviderKindArg::Openai)
        } else {
            None
        }
    }
}

/// Which on-disk format a transcript is saved in.
#[derive(Clone, Copy, Debug, PartialEq, Eq, Structural)]
pub enum SaveFormatArg {
    Json,
    Markdown,
}

/// Vendor-specific settings of a `config set` invocation for the Google
/// variant.
#[derive(Clone, Debug)]
pub struct GoogleSetArgs {
    pub service_account: Option<String>,
    pub project_id: Option<String>,
    pub location: Option<String>,
    pub default_model: Option<String>,
}

/// Shared settings of a `config set` invocation for API-key vendors.
#[derive(Clone, Debug)]
pub struct ApiKeySetArgs {
    pub api_key: Option<String>,
    pub base_url: Option<String>,
    pub shared_default_model: Option<String>,
}

/// All settings of one `config set` invocation.
#[derive(Clone, Debug)]
pub struct ConfigSetArgs {
    pub provider: String,
    pub provider_kind: Option<ProviderKindArg>,
    pub default: bool,
    pub google: GoogleSetArgs,
    pub shared_api: ApiKeySetArgs,
    pub secret_env: Option<String>,
    pub encrypt_secrets: bool,
}

/// The configuration subcommands.
#[derive(Clone, Debug)]
pub enum ConfigCommand {
    Store(ConfigSetArgs),
    Show,
    Remove { provider: String },
}

} // verus!
