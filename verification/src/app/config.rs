use crate::store;
use crate::store::config::Environment;
use vstd::prelude::*;
use vstd::string::*;

verus! {

/// The configuration of the engine.
#[derive(Debug)]
pub struct Config {
    pub store: store::Config,
}

impl View for Config {
    type V = store::ConfigView;

    open spec fn view(&self) -> store::ConfigView {
        self.store@
    }
}

impl Default for Config {
    fn default() -> (c: Config)
        ensures
            c@ == (store::ConfigView { in_memory: false, redis_address: None, dynamodb: None }),
    {
        Config { store: store::Config::default() }
    }
}

impl Config {
    /// Accepts a configuration whose store chooses exactly one backend.
    pub fn validate(&self) -> (r: store::Result<()>)
        ensures
            match r {
                Ok(_) => self@.is_valid(),
                Err(e) => !self@.is_valid() && e@ == store::ErrorView::Other(
                    "exactly one type of store should be configured"@,
                ),
            },
    {
        self.store.validate()
    }

    /// Lays over the configuration what the environment says under `prefix`
    /// followed by `STORE_`.
    pub fn load_from_env(&mut self, prefix: &str, env: &Environment) -> (r: store::Result<()>)
        ensures
            r.is_ok(),
            final(self)@ == old(self)@.overlaid(prefix@ + "STORE_"@, env@),
    {
        let store_prefix = String::from_str(prefix).concat("STORE_");
        self.store.load_from_env(store_prefix.as_str(), env)
    }
}

} // verus!
