//! The persisted application configuration, modelled as a list of uniquely
//! named provider entries viewed as a map, plus the construction of one
//! provider entry from a `config set` invocation.

use vstd::prelude::*;

use crate::cli::ConfigSetArgs;
use crate::cli::ProviderKindArg;
use crate::secrets;
use crate::secrets::EncryptedSecret;
use crate::secrets::SecretError;

verus! {

/// Settings of a Google-variant provider.
#[derive(Clone, Debug)]
pub struct GoogleProviderConfig {
    pub service_account_file: Option<String>,
    pub api_key: Option<String>,
    pub encrypted_api_key: Option<EncryptedSecret>,
    pub project_id: Option<String>,
    pub location: Option<String>,
    pub default_model: Option<String>,
}

/// Settings of a provider that authenticates with an API key.
#[derive(Clone, Debug)]
pub struct ApiKeyProviderConfig {
    pub api_key: Option<String>,
    pub encrypted_api_key: Option<EncryptedSecret>,
    pub base_url: Option<String>,
    pub default_model: Option<String>,
}

/// One provider entry: which vendor it is for and its settings.
#[derive(Clone, Debug)]
pub enum ProviderConfig {
    Google(GoogleProviderConfig),
    Anthropic(ApiKeyProviderConfig),
    Openai(ApiKeyProviderConfig),
}

/// The vendor a provider entry is for.
#[derive(Clone, Copy, Debug, PartialEq, Eq, Structural)]
pub enum ProviderKind {
    Google,
    Anthropic,
    Openai,
}

impl ProviderConfig {
    /// The vendor of this entry.
    pub fn kind(&self) -> (r: ProviderKind)
        ensures
            self is Google <==> r is Google,
            self is Anthropic <==> r is Anthropic,
            self is Openai <==> r is Openai,
    {
        match self {
            ProviderConfig::Google(_) => ProviderKind::Google,
            ProviderConfig::Anthropic(_) => ProviderKind::Anthropic,
            ProviderConfig::Openai(_) => ProviderKind::Openai,
        }
    }

    /// The default model configured for this entry, if any.
    pub open spec fn default_model_spec(&self) -> Option<Seq<char>> {
        let m = match self {
            ProviderConfig::Google(cfg) => cfg.default_model,
            ProviderConfig::Anthropic(cfg) => cfg.default_model,
            ProviderConfig::Openai(cfg) => cfg.default_model,
        };
        match m {
            Some(s) => Some(s@),
            None => None,
        }
    }

    /// The default model configured for this entry, if any.
    pub fn default_model(&self) -> (r: Option<&str>)
        ensures
            match r {
                Some(s) => self.default_model_spec() == Some(s@),
                None => self.default_model_spec() is None,
            },
    {
        let m = match self {
            ProviderConfig::Google(cfg) => &cfg.default_model,
            ProviderConfig::Anthropic(cfg) => &cfg.default_model,
            ProviderConfig::Openai(cfg) => &cfg.default_model,
        };
        match m {
            Some(s) => Some(s.as_str()),
            None => None,
        }
    }
}

impl ProviderKind {
    fn from_arg(value: ProviderKindArg) -> (r: ProviderKind)
        ensures
            value is Google <==> r is Google,
            value is Anthropic <==> r is Anthropic,
            value is Openai <==> r is Openai,
    {
        match value {
            ProviderKindArg::Google => ProviderKind::Google,
            ProviderKindArg::Anthropic => ProviderKind::Anthropic,
            ProviderKindArg::Openai => ProviderKind::Openai,
        }
    }

    /// Infer the vendor from a provider name, ignoring ASCII case.
    pub fn infer(name: &str) -> (r: Option<ProviderKind>)
        ensures
            crate::cli::eq_ignore_ascii_case(name@, "google"@) ==> r == Some(ProviderKind::Google),
            !crate::cli::eq_ignore_ascii_case(name@, "google"@)
                && crate::cli::eq_ignore_ascii_case(name@, "anthropic"@) ==> r == Some(
                ProviderKind::Anthropic,
            ),
            !crate::cli::eq_ignore_ascii_case(name@, "google"@)
                && !crate::cli::eq_ignore_ascii_case(name@, "anthropic"@)
                && crate::cli::eq_ignore_ascii_case(name@, "openai"@) ==> r == Some(
                ProviderKind::Openai,
            ),
            !crate::cli::eq_ignore_ascii_case(name@, "google"@) && !crate::cli::eq_ignore_ascii_case(
                name@,
                "anthropic"@,
            ) && !crate::cli::eq_ignore_ascii_case(name@, "openai"@) ==> r is None,
    {
        match ProviderKindArg::infer_from_name(name) {
            Some(arg) => Some(Self::from_arg(arg)),
            None => None,
        }
    }
}

/// Why a configuration lookup or construction failed.
#[derive(Clone, Debug)]
pub enum ConfigError {
    /// The named provider is not configured.
    ProviderNotFound,
    /// No provider was named and none is configured as the default.
    NoDefaultProvider,
    /// An API key is required for this vendor but none was given.
    ApiKeyRequired,
    /// Preparing the stored secret failed.
    Secret(SecretError),
}

/// The map a provider list denotes: later entries win, though well-formed
/// lists never hold a name twice.
pub open spec fn entries_map(s: Seq<(String, ProviderConfig)>) -> Map<Seq<char>, ProviderConfig>
    decreases s.len(),
{
    if s.len() == 0 {
        Map::empty()
    } else {
        entries_map(s.drop_last()).insert(s.last().0@, s.last().1)
    }
}

/// No provider name appears twice.
pub open spec fn unique_keys(s: Seq<(String, ProviderConfig)>) -> bool {
    forall|i: int, j: int| 0 <= i < j < s.len() ==> (#[trigger] s[i]).0@ != (#[trigger] s[j]).0@
}

pub proof fn lemma_entries_contains(s: Seq<(String, ProviderConfig)>, k: Seq<char>)
    ensures
        entries_map(s).dom().contains(k) <==> exists|i: int|
            0 <= i < s.len() && (#[trigger] s[i]).0@ == k,
    decreases s.len(),
{
    if s.len() > 0 {
        lemma_entries_contains(s.drop_last(), k);
        if s.last().0@ == k {
            assert(s[s.len() - 1].0@ == k);
        } else {
            if entries_map(s).dom().contains(k) {
                let i = choose|i: int| 0 <= i < s.drop_last().len() && (#[trigger] s.drop_last()[i]).0@
                    == k;
                assert(s[i].0@ == k);
            }
            if exists|i: int| 0 <= i < s.len() && (#[trigger] s[i]).0@ == k {
                let i = choose|i: int| 0 <= i < s.len() && (#[trigger] s[i]).0@ == k;
                assert(i < s.len() - 1);
                assert(s.drop_last()[i].0@ == k);
            }
        }
    }
}

pub proof fn lemma_entries_at(s: Seq<(String, ProviderConfig)>, i: int)
    requires
        unique_keys(s),
        0 <= i < s.len(),
    ensures
        entries_map(s).dom().contains(s[i].0@),
        entries_map(s)[s[i].0@] == s[i].1,
    decreases s.len(),
{
    if i < s.len() - 1 {
        assert(unique_keys(s.drop_last()));
        lemma_entries_at(s.drop_last(), i);
        assert(s.drop_last()[i] == s[i]);
        assert(s[i].0@ != s[s.len() - 1].0@);
    }
}

/// The list with every entry of the given name removed.
pub open spec fn remove_key(s: Seq<(String, ProviderConfig)>, k: Seq<char>) -> Seq<
    (String, ProviderConfig),
>
    decreases s.len(),
{
    if s.len() == 0 {
        Seq::empty()
    } else {
        remove_key(s.drop_last(), k) + (if s.last().0@ == k {
            Seq::empty()
        } else {
            seq![s.last()]
        })
    }
}

pub proof fn lemma_remove_key_map(s: Seq<(String, ProviderConfig)>, k: Seq<char>)
    ensures
        entries_map(remove_key(s, k)) == entries_map(s).remove(k),
        forall|i: int|
            0 <= i < remove_key(s, k).len() ==> (#[trigger] remove_key(s, k)[i]).0@ != k,
        unique_keys(s) ==> unique_keys(remove_key(s, k)),
        forall|i: int|
            0 <= i < remove_key(s, k).len() ==> exists|j: int|
                0 <= j < s.len() && (#[trigger] s[j]) == (#[trigger] remove_key(s, k)[i]),
    decreases s.len(),
{
    if s.len() == 0 {
        assert(entries_map(remove_key(s, k)) =~= entries_map(s).remove(k));
    } else {
        lemma_remove_key_map(s.drop_last(), k);
        let pre = remove_key(s.drop_last(), k);
        if s.last().0@ == k {
            assert(remove_key(s, k) =~= pre);
            assert(entries_map(s).remove(k) =~= entries_map(s.drop_last()).remove(k));
            assert forall|i: int| 0 <= i < remove_key(s, k).len() implies exists|j: int|
                0 <= j < s.len() && (#[trigger] s[j]) == (#[trigger] remove_key(s, k)[i]) by {
                let j = choose|j: int|
                    0 <= j < s.drop_last().len() && (#[trigger] s.drop_last()[j]) == (#[trigger] pre[i]);
                assert(s[j] == remove_key(s, k)[i]);
            }
        } else {
            assert(remove_key(s, k) =~= pre.push(s.last()));
            assert(remove_key(s, k).drop_last() =~= pre);
            assert(entries_map(remove_key(s, k)) == entries_map(pre).insert(
                s.last().0@,
                s.last().1,
            ));
            assert(entries_map(s).remove(k) =~= entries_map(s.drop_last()).remove(k).insert(
                s.last().0@,
                s.last().1,
            ));
            if unique_keys(s) {
                assert(unique_keys(s.drop_last()));
                assert forall|i: int, j: int|
                    0 <= i < j < remove_key(s, k).len() implies (#[trigger] remove_key(s, k)[i]).0@
                    != (#[trigger] remove_key(s, k)[j]).0@ by {
                    let a = remove_key(s, k)[i];
                    let b = remove_key(s, k)[j];
                    if j < pre.len() {
                    } else {
                        assert(b == s.last());
                        let ii = choose|x: int|
                            0 <= x < s.drop_last().len() && (#[trigger] s.drop_last()[x]) == (#[trigger] pre[i]);
                        assert(s[ii] == a);
                        assert(s[ii].0@ != s[s.len() - 1].0@);
                    }
                }
            }
            assert forall|i: int| 0 <= i < remove_key(s, k).len() implies exists|j: int|
                0 <= j < s.len() && (#[trigger] s[j]) == (#[trigger] remove_key(s, k)[i]) by {
                if i < pre.len() {
                    let j = choose|j: int|
                        0 <= j < s.drop_last().len() && (#[trigger] s.drop_last()[j]) == (#[trigger] pre[i]);
                    assert(s[j] == remove_key(s, k)[i]);
                } else {
                    assert(s[s.len() - 1] == remove_key(s, k)[i]);
                }
            }
        }
    }
}

/// The whole persisted configuration: the default provider's name and the
/// configured providers by name.
#[derive(Clone, Debug)]
pub struct AppConfig {
    pub default_provider: Option<String>,
    pub providers: Vec<(String, ProviderConfig)>,
}

impl AppConfig {
    /// Provider names never repeat.
    pub open spec fn wf(&self) -> bool {
        unique_keys(self.providers@)
    }

    /// The providers as a map from name to settings.
    pub open spec fn providers_map(&self) -> Map<Seq<char>, ProviderConfig> {
        entries_map(self.providers@)
    }
}

impl Default for AppConfig {
    /// An empty configuration.
    fn default() -> (r: AppConfig)
        ensures
            r.wf(),
            r.default_provider is None,
            r.providers_map() == Map::<Seq<char>, ProviderConfig>::empty(),
    {
        let r = AppConfig { default_provider: None, providers: Vec::new() };
        proof {
            assert(r.providers_map() =~= Map::<Seq<char>, ProviderConfig>::empty());
        }
        r
    }
}

impl AppConfig {
    fn remove_entries(&mut self, name: &str)
        ensures
            final(self).providers@ == remove_key(old(self).providers@, name@),
            final(self).default_provider == old(self).default_provider,
    {
        let mut olds: Vec<(String, ProviderConfig)> = Vec::new();
        core::mem::swap(&mut olds, &mut self.providers);
        let mut kept: Vec<(String, ProviderConfig)> = Vec::new();
        proof {
            assert(remove_key(Seq::<(String, ProviderConfig)>::empty(), name@)
                =~= Seq::<(String, ProviderConfig)>::empty());
        }
        loop
            invariant
                self.default_provider == old(self).default_provider,
                remove_key(old(self).providers@, name@) == remove_key(olds@, name@) + kept@,
            ensures
                kept@ == remove_key(old(self).providers@, name@),
            decreases olds@.len(),
        {
            let ghost pre = olds@;
            match olds.pop() {
                None => {
                    proof {
                        assert(remove_key(olds@, name@) =~= Seq::<(String,
                        ProviderConfig)>::empty());
                        assert(Seq::<(String, ProviderConfig)>::empty() + kept@ =~= kept@);
                    }
                    break ;
                },
                Some(entry) => {
                    let keep = !crate::text::chars_eq(
                        crate::text::str_chars(entry.0.as_str()).as_slice(),
                        crate::text::str_chars(name).as_slice(),
                    );
                    proof {
                        assert(pre.drop_last() =~= olds@);
                        assert(pre.last() == entry);
                    }
                    if keep {
                        let ghost kept0 = kept@;
                        kept.insert(0, entry);
                        proof {
                            assert(kept@ =~= seq![pre.last()] + kept0);
                            assert(remove_key(pre, name@) =~= remove_key(olds@, name@) + seq![
                                pre.last()
                            ]);
                            assert((remove_key(olds@, name@) + seq![pre.last()]) + kept0
                                =~= remove_key(olds@, name@) + (seq![pre.last()] + kept0));
                        }
                    } else {
                        proof {
                            assert(remove_key(pre, name@) =~= remove_key(olds@, name@));
                        }
                    }
                },
            }
        }
        self.providers = kept;
    }

    /// Insert or replace the provider of the given name.
    pub fn upsert_provider(&mut self, name: String, cfg: ProviderConfig)
        requires
            old(self).wf(),
        ensures
            final(self).wf(),
            final(self).providers_map() == old(self).providers_map().insert(name@, cfg),
            final(self).default_provider == old(self).default_provider,
    {
        proof {
            lemma_remove_key_map(self.providers@, name@);
        }
        self.remove_entries(name.as_str());
        let ghost removed = self.providers@;
        self.providers.push((name, cfg));
        proof {
            assert(self.providers@.drop_last() =~= removed);
            assert(entries_map(self.providers@) == entries_map(removed).insert(
                self.providers@.last().0@,
                self.providers@.last().1,
            ));
            assert(entries_map(self.providers@) =~= old(self).providers_map().insert(
                self.providers@.last().0@,
                cfg,
            ));
            assert forall|i: int, j: int|
                0 <= i < j < self.providers@.len() implies (#[trigger] self.providers@[i]).0@ != (
            #[trigger] self.providers@[j]).0@ by {
                if j < self.providers@.len() - 1 {
                    assert(removed[i] == self.providers@[i] && removed[j] == self.providers@[j]);
                } else {
                    assert(removed[i] == self.providers@[i]);
                    assert(removed[i].0@ != self.providers@[j].0@);
                }
            }
        }
    }

    /// Remove the provider of the given name; says whether one was there.
    pub fn remove_provider(&mut self, name: &str) -> (r: bool)
        requires
            old(self).wf(),
        ensures
            final(self).wf(),
            final(self).providers_map() == old(self).providers_map().remove(name@),
            r == old(self).providers_map().dom().contains(name@),
            final(self).default_provider == old(self).default_provider,
    {
        proof {
            lemma_entries_contains(self.providers@, name@);
            lemma_remove_key_map(self.providers@, name@);
        }
        let before = self.providers.len();
        self.remove_entries(name);
        let after = self.providers.len();
        proof {
            if before == after {
                assert forall|i: int|
                    0 <= i < old(self).providers@.len() implies (#[trigger] old(
                    self,
                ).providers@[i]).0@ != name@ by {
                    lemma_remove_key_keeps(old(self).providers@, name@);
                }
            } else {
                lemma_remove_key_keeps(old(self).providers@, name@);
            }
        }
        before != after
    }

    /// Look a provider up by name.
    pub fn require_provider<'a>(&'a self, provider: &str) -> (r: Result<
        &'a ProviderConfig,
        ConfigError,
    >)
        requires
            self.wf(),
        ensures
            match r {
                Ok(cfg) => self.providers_map().dom().contains(provider@)
                    && self.providers_map()[provider@] == *cfg,
                Err(e) => !self.providers_map().dom().contains(provider@) && e
                    is ProviderNotFound,
            },
    {
        let n: usize = self.providers.len();
        let mut i: usize = 0;
        while i < n
            invariant
                0 <= i <= n,
                n == self.providers@.len(),
                self.wf(),
                forall|j: int| 0 <= j < i ==> (#[trigger] self.providers@[j]).0@ != provider@,
            decreases n - i,
        {
            let entry = &self.providers[i];
            if crate::text::chars_eq(
                crate::text::str_chars(entry.0.as_str()).as_slice(),
                crate::text::str_chars(provider).as_slice(),
            ) {
                proof {
                    lemma_entries_at(self.providers@, i as int);
                }
                return Ok(&self.providers[i].1);
            }
            i = i + 1;
        }
        proof {
            lemma_entries_contains(self.providers@, provider@);
        }
        Err(ConfigError::ProviderNotFound)
    }

    /// The provider a chat call should use: the explicitly named one, else
    /// the configured default.
    pub fn infer_default_provider(&self, explicit: &Option<String>) -> (r: Result<
        String,
        ConfigError,
    >)
        ensures
            match explicit {
                Some(name) => r matches Ok(s) && s@ == name@,
                None => match self.default_provider {
                    Some(d) => r matches Ok(s) && s@ == d@,
                    None => r matches Err(e) && e is NoDefaultProvider,
                },
            },
    {
        match explicit {
            Some(name) => Ok(name.clone()),
            None => match &self.default_provider {
                Some(d) => Ok(d.clone()),
                None => Err(ConfigError::NoDefaultProvider),
            },
        }
    }
}

pub proof fn lemma_remove_key_keeps(s: Seq<(String, ProviderConfig)>, k: Seq<char>)
    ensures
        remove_key(s, k).len() == s.len() <==> (forall|i: int|
            0 <= i < s.len() ==> (#[trigger] s[i]).0@ != k),
        remove_key(s, k).len() <= s.len(),
    decreases s.len(),
{
    if s.len() > 0 {
        lemma_remove_key_keeps(s.drop_last(), k);
        if s.last().0@ == k {
            assert(s[s.len() - 1].0@ == k);
        } else {
            if remove_key(s, k).len() == s.len() {
                assert forall|i: int| 0 <= i < s.len() implies (#[trigger] s[i]).0@ != k by {
                    if i < s.len() - 1 {
                        assert(s.drop_last()[i] == s[i]);
                    }
                }
            } else {
                if forall|i: int| 0 <= i < s.len() ==> (#[trigger] s[i]).0@ != k {
                    assert forall|i: int|
                        0 <= i < s.drop_last().len() implies (#[trigger] s.drop_last()[i]).0@
                        != k by {
                        assert(s.drop_last()[i] == s[i]);
                    }
                }
            }
        }
    }
}

/// Build the provider entry one `config set` invocation describes. The
/// passphrase read from the environment, if any, is handed in by the caller.
pub fn build_provider_config(
    kind: ProviderKind,
    set: &ConfigSetArgs,
    env_passphrase: Option<&str>,
) -> (r: Result<ProviderConfig, ConfigError>)
    ensures
        set.encrypt_secrets && env_passphrase is None ==> (r matches Err(e) && (e
            matches ConfigError::Secret(se) && se is PassphraseRequired)),
        !(set.encrypt_secrets && env_passphrase is None) && (kind is Anthropic || kind is Openai)
            && set.shared_api.api_key is None ==> (r matches Err(e) && e is ApiKeyRequired),
        !set.encrypt_secrets && !((kind is Anthropic || kind is Openai)
            && set.shared_api.api_key is None) ==> r is Ok,
        match r {
            Ok(cfg) => {
                &&& (cfg is Google <==> kind is Google)
                &&& (cfg is Anthropic <==> kind is Anthropic)
                &&& (cfg is Openai <==> kind is Openai)
                &&& cfg.default_model_spec() == google_or_shared_model(kind, set)
            },
            Err(_) => true,
        },
{
    let passphrase: Option<String> = if set.encrypt_secrets {
        match secrets::require_passphrase_from_env("", env_passphrase) {
            Ok(p) => Some(p),
            Err(e) => {
                return Err(ConfigError::Secret(e));
            },
        }
    } else {
        None
    };
    let pass_ref: Option<&str> = match &passphrase {
        Some(p) => Some(p.as_str()),
        None => None,
    };
    match kind {
        ProviderKind::Google => {
            let (api_key, encrypted_api_key) = match secrets::maybe_encrypt_secret(
                set.shared_api.api_key.clone(),
                set.encrypt_secrets,
                pass_ref,
            ) {
                Ok(p) => p,
                Err(e) => {
                    return Err(ConfigError::Secret(e));
                },
            };
            let default_model = match &set.google.default_model {
                Some(m) => Some(m.clone()),
                None => match &set.shared_api.shared_default_model {
                    Some(m) => Some(m.clone()),
                    None => None,
                },
            };
            Ok(
                ProviderConfig::Google(
                    GoogleProviderConfig {
                        service_account_file: set.google.service_account.clone(),
                        api_key,
                        encrypted_api_key,
                        project_id: set.google.project_id.clone(),
                        location: set.google.location.clone(),
                        default_model,
                    },
                ),
            )
        },
        ProviderKind::Anthropic => {
            let provided = match &set.shared_api.api_key {
                Some(k) => k.clone(),
                None => {
                    return Err(ConfigError::ApiKeyRequired);
                },
            };
            let (api_key, encrypted_api_key) = match secrets::maybe_encrypt_secret(
                Some(provided),
                set.encrypt_secrets,
                pass_ref,
            ) {
                Ok(p) => p,
                Err(e) => {
                    return Err(ConfigError::Secret(e));
                },
            };
            Ok(
                ProviderConfig::Anthropic(
                    ApiKeyProviderConfig {
                        api_key,
                        encrypted_api_key,
                        base_url: set.shared_api.base_url.clone(),
                        default_model: set.shared_api.shared_default_model.clone(),
                    },
                ),
            )
        },
        ProviderKind::Openai => {
            let provided = match &set.shared_api.api_key {
                Some(k) => k.clone(),
                None => {
                    return Err(ConfigError::ApiKeyRequired);
                },
            };
            let (api_key, encrypted_api_key) = match secrets::maybe_encrypt_secret(
                Some(provided),
                set.encrypt_secrets,
                pass_ref,
            ) {
                Ok(p) => p,
                Err(e) => {
                    return Err(ConfigError::Secret(e));
                },
            };
            Ok(
                ProviderConfig::Openai(
                    ApiKeyProviderConfig {
                        api_key,
                        encrypted_api_key,
                        base_url: set.shared_api.base_url.clone(),
                        default_model: set.shared_api.shared_default_model.clone(),
                    },
                ),
            )
        },
    }
}

/// The default model a built entry carries: the vendor-specific one wins for
/// the Google variant, else the shared one.
pub open spec fn google_or_shared_model(kind: ProviderKind, set: &ConfigSetArgs) -> Option<
    Seq<char>,
> {
    if kind is Google {
        match set.google.default_model {
            Some(m) => Some(m@),
            None => match set.shared_api.shared_default_model {
                Some(m) => Some(m@),
                None => None,
            },
        }
    } else {
        match set.shared_api.shared_default_model {
            Some(m) => Some(m@),
            None => None,
        }
    }
}

} // verus!
