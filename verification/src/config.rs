//! What the services read from the user's configuration: parameters, secrets, the few
//! environment variables they consult, and the providers declared in provider files.

use vstd::prelude::*;
use vstd::string::*;
use crate::table::StringMap;
use crate::text::same_text;

verus! {

/// The API that a declared provider speaks.
#[derive(Clone, Copy, Debug, PartialEq, Eq, Structural)]
pub enum ProviderEngine {
    OpenAI,
    Ollama,
    Anthropic,
}

/// A provider defined by a provider file.
#[derive(Debug)]
pub struct DeclaredProvider {
    pub name: String,
    pub engine: ProviderEngine,
    /// The base URL; with `env_vars`, each `${NAME}` in it stands for the value of `NAME`.
    pub base_url: String,
    /// The values of the environment variables that the provider file names.
    pub env_vars: Option<StringMap>,
    /// The secret that holds the API key; empty when the provider takes none.
    pub api_key_env: String,
    pub requires_auth: bool,
    pub headers: Option<StringMap>,
}

pub struct ProviderView {
    pub name: Seq<char>,
    pub engine: ProviderEngine,
    pub base_url: Seq<char>,
    pub env_vars: Option<Map<Seq<char>, Seq<char>>>,
    pub api_key_env: Seq<char>,
    pub requires_auth: bool,
    pub headers: Option<Map<Seq<char>, Seq<char>>>,
}

impl View for DeclaredProvider {
    type V = ProviderView;

    open spec fn view(&self) -> ProviderView {
        ProviderView {
            name: self.name@,
            engine: self.engine,
            base_url: self.base_url@,
            env_vars: match self.env_vars {
                Some(v) => Some(v@),
                None => None,
            },
            api_key_env: self.api_key_env@,
            requires_auth: self.requires_auth,
            headers: match self.headers {
                Some(h) => Some(h@),
                None => None,
            },
        }
    }
}

/// The configuration that the services read.
#[derive(Debug)]
pub struct Config {
    /// Named parameters, such as `GOOSE_SERVICE_IMAGE_MODEL` or `OPENAI_HOST`.
    pub params: StringMap,
    /// Secrets, such as API keys.
    pub secrets: StringMap,
    /// Environment variables of the process.
    pub environment: StringMap,
    /// Providers declared in provider files, in the order they are looked up.
    pub providers: Vec<DeclaredProvider>,
}

pub struct ConfigView {
    pub params: Map<Seq<char>, Seq<char>>,
    pub secrets: Map<Seq<char>, Seq<char>>,
    pub environment: Map<Seq<char>, Seq<char>>,
    pub providers: Seq<ProviderView>,
}

impl View for Config {
    type V = ConfigView;

    open spec fn view(&self) -> ConfigView {
        ConfigView {
            params: self.params@,
            secrets: self.secrets@,
            environment: self.environment@,
            providers: self.providers@.map_values(|p: DeclaredProvider| p@),
        }
    }
}

/// The first declared provider with the given name.
pub open spec fn find_provider(providers: Seq<ProviderView>, name: Seq<char>) -> Option<
    ProviderView,
>
    decreases providers.len(),
{
    if providers.len() == 0 {
        None
    } else if providers[0].name == name {
        Some(providers[0])
    } else {
        find_provider(providers.drop_first(), name)
    }
}

impl Config {
    /// An empty configuration.
    pub fn new() -> (c: Config)
        ensures
            c@.params == Map::<Seq<char>, Seq<char>>::empty(),
            c@.secrets == Map::<Seq<char>, Seq<char>>::empty(),
            c@.environment == Map::<Seq<char>, Seq<char>>::empty(),
            c@.providers == Seq::<ProviderView>::empty(),
    {
        let c = Config {
            params: StringMap::new(),
            secrets: StringMap::new(),
            environment: StringMap::new(),
            providers: Vec::new(),
        };
        assert(c@.providers =~= Seq::<ProviderView>::empty());
        c
    }

    pub fn set_param(&mut self, key: &str, value: &str)
        ensures
            final(self)@ == (ConfigView {
                params: old(self)@.params.insert(key@, value@),
                ..old(self)@
            }),
    {
        self.params.insert(String::from_str(key), String::from_str(value));
    }

    pub fn get_param(&self, key: &str) -> (r: Option<String>)
        ensures
            match r {
                Some(v) => self@.params.get(key@) == Some(v@),
                None => self@.params.get(key@) is None,
            },
    {
        self.params.get(key)
    }

    pub fn set_secret(&mut self, key: &str, value: &str)
        ensures
            final(self)@ == (ConfigView {
                secrets: old(self)@.secrets.insert(key@, value@),
                ..old(self)@
            }),
    {
        self.secrets.insert(String::from_str(key), String::from_str(value));
    }

    pub fn get_secret(&self, key: &str) -> (r: Option<String>)
        ensures
            match r {
                Some(v) => self@.secrets.get(key@) == Some(v@),
                None => self@.secrets.get(key@) is None,
            },
    {
        self.secrets.get(key)
    }

    pub fn set_env(&mut self, key: &str, value: &str)
        ensures
            final(self)@ == (ConfigView {
                environment: old(self)@.environment.insert(key@, value@),
                ..old(self)@
            }),
    {
        self.environment.insert(String::from_str(key), String::from_str(value));
    }

    pub fn env_var(&self, key: &str) -> (r: Option<String>)
        ensures
            match r {
                Some(v) => self@.environment.get(key@) == Some(v@),
                None => self@.environment.get(key@) is None,
            },
    {
        self.environment.get(key)
    }

    /// Adds a declared provider after those already known.
    pub fn add_provider(&mut self, provider: DeclaredProvider)
        ensures
            final(self)@ == (ConfigView {
                providers: old(self)@.providers.push(provider@),
                ..old(self)@
            }),
    {
        let ghost p = provider@;
        self.providers.push(provider);
        assert(self@.providers =~= old(self)@.providers.push(p));
    }

    /// The first declared provider with the given name.
    pub fn declared_provider(&self, name: &str) -> (r: Option<&DeclaredProvider>)
        ensures
            match r {
                Some(p) => find_provider(self@.providers, name@) == Some(p@),
                None => find_provider(self@.providers, name@) is None,
            },
    {
        let ghost all = self@.providers;
        assert(all.subrange(0, all.len() as int) =~= all);
        let mut i: usize = 0;
        while i < self.providers.len()
            invariant
                i <= self.providers@.len(),
                all == self@.providers,
                all.len() == self.providers@.len(),
                find_provider(all.subrange(i as int, all.len() as int), name@) == find_provider(
                    all,
                    name@,
                ),
            decreases self.providers@.len() - i,
        {
            let ghost rest = all.subrange(i as int, all.len() as int);
            assert(rest[0] == self.providers@[i as int]@);
            if same_text(self.providers[i].name.as_str(), name) {
                return Some(&self.providers[i]);
            }
            assert(rest.drop_first() =~= all.subrange(i + 1, all.len() as int));
            i = i + 1;
        }
        None
    }
}

} // verus!
