use crate::store::error::{Error, ErrorView, Result};
use vstd::prelude::*;
use vstd::string::*;

verus! {

/// Which backend the store uses. Exactly one is to be chosen.
#[derive(Debug)]
pub struct Config {
    /// Keep everything in memory. Nothing outlives the process.
    pub in_memory: bool,
    /// The address and port of a Redis server, such as "127.0.0.1:6379".
    pub redis_address: Option<String>,
    /// A DynamoDB table.
    pub dynamodb: Option<DynamoDBConfig>,
}

/// Where a DynamoDB table is found.
#[derive(Debug)]
pub struct DynamoDBConfig {
    /// The API endpoint, where it is not the default one of the region.
    pub endpoint: Option<String>,
    pub table_name: String,
}

/// What a `DynamoDBConfig` holds.
pub struct DynamoDBConfigView {
    pub endpoint: Option<Seq<char>>,
    pub table_name: Seq<char>,
}

/// What a `Config` holds.
pub struct ConfigView {
    pub in_memory: bool,
    pub redis_address: Option<Seq<char>>,
    pub dynamodb: Option<DynamoDBConfigView>,
}

/// The text of an optional string.
pub open spec fn text_of(s: Option<String>) -> Option<Seq<char>> {
    match s {
        Some(s) => Some(s@),
        None => None,
    }
}

impl View for DynamoDBConfig {
    type V = DynamoDBConfigView;

    open spec fn view(&self) -> DynamoDBConfigView {
        DynamoDBConfigView { endpoint: text_of(self.endpoint), table_name: self.table_name@ }
    }
}

impl View for Config {
    type V = ConfigView;

    open spec fn view(&self) -> ConfigView {
        ConfigView {
            in_memory: self.in_memory,
            redis_address: text_of(self.redis_address),
            dynamodb: match self.dynamodb {
                Some(d) => Some(d@),
                None => None,
            },
        }
    }
}

/// The variables of the environment, each a name and its value.
pub type Environment = Vec<(String, String)>;

/// The value of the first variable called `name`.
pub open spec fn env_var(env: Seq<(String, String)>, name: Seq<char>) -> Option<Seq<char>>
    decreases env.len(),
{
    if env.len() == 0 {
        None
    } else if env[0].0@ == name {
        Some(env[0].1@)
    } else {
        env_var(env.skip(1), name)
    }
}

/// The value of the first variable of `env` whose name is `prefix` followed
/// by `name`.
pub fn lookup(env: &Environment, prefix: &str, name: &str) -> (value: Option<String>)
    ensures
        text_of(value) == env_var(env@, prefix@ + name@),
{
    let full = String::from_str(prefix).concat(name);
    let mut i: usize = 0;
    proof {
        assert(env@.skip(0) =~= env@);
    }
    while i < env.len()
        invariant
            i <= env@.len(),
            full@ == prefix@ + name@,
            env_var(env@, full@) == env_var(env@.skip(i as int), full@),
        decreases env@.len() - i,
    {
        if env[i].0 == full {
            let value = env[i].1.clone();
            proof {
                assert(env@.skip(i as int)[0] == env@[i as int]);
            }
            return Some(value);
        }
        proof {
            assert(env@.skip(i as int)[0] == env@[i as int]);
            assert(env@.skip(i as int).skip(1) =~= env@.skip(i + 1));
        }
        i = i + 1;
    }
    None
}

impl Default for DynamoDBConfig {
    fn default() -> (c: DynamoDBConfig)
        ensures
            c@ == (DynamoDBConfigView { endpoint: None, table_name: Seq::<char>::empty() }),
    {
        DynamoDBConfig { endpoint: None, table_name: String::new() }
    }
}

impl Default for Config {
    fn default() -> (c: Config)
        ensures
            c@ == (ConfigView { in_memory: false, redis_address: None, dynamodb: None }),
    {
        Config { in_memory: false, redis_address: None, dynamodb: None }
    }
}

impl Clone for DynamoDBConfig {
    fn clone(&self) -> (c: DynamoDBConfig)
        ensures
            c@ == self@,
    {
        DynamoDBConfig {
            endpoint: match &self.endpoint {
                Some(e) => Some(e.clone()),
                None => None,
            },
            table_name: self.table_name.clone(),
        }
    }
}

impl Clone for Config {
    fn clone(&self) -> (c: Config)
        ensures
            c@ == self@,
    {
        Config {
            in_memory: self.in_memory,
            redis_address: match &self.redis_address {
                Some(a) => Some(a.clone()),
                None => None,
            },
            dynamodb: match &self.dynamodb {
                Some(d) => Some(d.clone()),
                None => None,
            },
        }
    }
}

impl DynamoDBConfigView {
    /// What the environment says of the table: the variables `TABLENAME` and
    /// `ENDPOINT` under `prefix`, if either says anything.
    pub open spec fn from_env(prefix: Seq<char>, env: Seq<(String, String)>) -> Option<
        DynamoDBConfigView,
    > {
        let table_name = match env_var(env, prefix + "TABLENAME"@) {
            Some(name) => name,
            None => Seq::<char>::empty(),
        };
        let endpoint = env_var(env, prefix + "ENDPOINT"@);
        if table_name.len() > 0 || endpoint.is_some() {
            Some(DynamoDBConfigView { endpoint, table_name })
        } else {
            None
        }
    }
}

impl ConfigView {
    /// Whether exactly one backend is chosen.
    pub open spec fn is_valid(self) -> bool {
        ||| (self.in_memory && self.redis_address.is_none() && self.dynamodb.is_none())
        ||| (!self.in_memory && self.redis_address.is_some() && self.dynamodb.is_none())
        ||| (!self.in_memory && self.redis_address.is_none() && self.dynamodb.is_some())
    }

    /// The configuration with what the environment says laid over it: the
    /// variables `INMEMORY` (set means "true" or not), `REDISADDRESS` and
    /// those of the table under `DYNAMODB_`, all under `prefix`. What the
    /// environment does not name stays.
    pub open spec fn overlaid(self, prefix: Seq<char>, env: Seq<(String, String)>) -> ConfigView {
        ConfigView {
            in_memory: match env_var(env, prefix + "INMEMORY"@) {
                Some(v) => v == "true"@,
                None => self.in_memory,
            },
            redis_address: match env_var(env, prefix + "REDISADDRESS"@) {
                Some(v) => Some(v),
                None => self.redis_address,
            },
            dynamodb: match DynamoDBConfigView::from_env(prefix + "DYNAMODB_"@, env) {
                Some(d) => Some(d),
                None => self.dynamodb,
            },
        }
    }
}

impl DynamoDBConfig {
    /// What the environment says of the table, if anything.
    pub fn load_from_env(prefix: &str, env: &Environment) -> (c: Option<DynamoDBConfig>)
        ensures
            match c {
                Some(c) => DynamoDBConfigView::from_env(prefix@, env@) == Some(c@),
                None => DynamoDBConfigView::from_env(prefix@, env@).is_none(),
            },
    {
        let mut env_cfg = DynamoDBConfig::default();
        if let Some(table_name) = lookup(env, prefix, "TABLENAME") {
            env_cfg.table_name = table_name;
        }
        if let Some(endpoint) = lookup(env, prefix, "ENDPOINT") {
            env_cfg.endpoint = Some(endpoint);
        }
        if !env_cfg.table_name.as_str().is_empty() || env_cfg.endpoint.is_some() {
            Some(env_cfg)
        } else {
            None
        }
    }
}

impl Config {
    /// Accepts a configuration that chooses exactly one backend.
    pub fn validate(&self) -> (r: Result<()>)
        ensures
            match r {
                Ok(_) => self@.is_valid(),
                Err(e) => !self@.is_valid() && e@ == ErrorView::Other(
                    "exactly one type of store should be configured"@,
                ),
            },
    {
        let chosen = match (self.in_memory, &self.redis_address, &self.dynamodb) {
            (true, None, None) => true,
            (false, Some(_), None) => true,
            (false, None, Some(_)) => true,
            _ => false,
        };
        if chosen {
            Ok(())
        } else {
            Err(Error::Other("exactly one type of store should be configured".to_string()))
        }
    }

    /// Lays what the environment says over the configuration.
    pub fn load_from_env(&mut self, prefix: &str, env: &Environment) -> (r: Result<()>)
        ensures
            r.is_ok(),
            final(self)@ == old(self)@.overlaid(prefix@, env@),
    {
        if let Some(in_memory) = lookup(env, prefix, "INMEMORY") {
            self.in_memory = in_memory == "true".to_string();
        }
        if let Some(redis_address) = lookup(env, prefix, "REDISADDRESS") {
            self.redis_address = Some(redis_address);
        }
        let dynamodb_prefix = String::from_str(prefix).concat("DYNAMODB_");
        if let Some(dynamodb_env) = DynamoDBConfig::load_from_env(dynamodb_prefix.as_str(), env) {
            self.dynamodb = Some(dynamodb_env);
        }
        Ok(())
    }
}

} // verus!
