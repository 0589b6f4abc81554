use crate::store::config::{text_of, Config, ConfigView};
use vstd::prelude::*;
use vstd::string::*;

verus! {

/// Which backend a store talks to, and how.
#[derive(Debug)]
pub enum Backend {
    /// A map in this process.
    Memory,
    /// A Redis server at `url`.
    Redis { url: String },
    /// A DynamoDB table.
    DynamoDB {
        endpoint: Option<String>,
        table_name: String,
        allow_eventually_consistent_reads: bool,
    },
    /// The inner backend behind a cache that remembers what was read through
    /// it and does not notice writes.
    ReadCache(Box<Backend>),
}

/// What a `Backend` holds.
pub enum BackendView {
    Memory,
    Redis { url: Seq<char> },
    DynamoDB {
        endpoint: Option<Seq<char>>,
        table_name: Seq<char>,
        allow_eventually_consistent_reads: bool,
    },
    ReadCache(Box<BackendView>),
}

impl Backend {
    /// What the backend holds.
    pub open spec fn model(self) -> BackendView
        decreases self,
    {
        match self {
            Backend::Memory => BackendView::Memory,
            Backend::Redis { url } => BackendView::Redis { url: url@ },
            Backend::DynamoDB { endpoint, table_name, allow_eventually_consistent_reads } =>
                BackendView::DynamoDB {
                    endpoint: text_of(endpoint),
                    table_name: table_name@,
                    allow_eventually_consistent_reads,
                },
            Backend::ReadCache(inner) => BackendView::ReadCache(Box::new((*inner).model())),
        }
    }
}

impl View for Backend {
    type V = BackendView;

    open spec fn view(&self) -> BackendView {
        self.model()
    }
}

impl BackendView {
    /// The backend that a configuration chooses: memory before Redis before
    /// DynamoDB, and none where it names none.
    pub open spec fn of_config(config: ConfigView) -> Option<BackendView> {
        if config.in_memory {
            Some(BackendView::Memory)
        } else if let Some(address) = config.redis_address {
            Some(BackendView::Redis { url: "redis://"@ + address })
        } else if let Some(table) = config.dynamodb {
            Some(
                BackendView::DynamoDB {
                    endpoint: table.endpoint,
                    table_name: table.table_name,
                    allow_eventually_consistent_reads: false,
                },
            )
        } else {
            None
        }
    }

    /// Whether reads go through a cache.
    pub open spec fn is_cached(self) -> bool {
        self is ReadCache
    }

    /// The same backend read through a cache; one that has a cache keeps it.
    pub open spec fn with_read_cache(self) -> BackendView {
        if self is ReadCache {
            self
        } else {
            BackendView::ReadCache(Box::new(self))
        }
    }

    /// The same backend with relaxed reads where it knows them: a DynamoDB
    /// table, also behind a cache. Any other backend is unchanged.
    pub open spec fn with_eventually_consistent_reads(self) -> BackendView
        decreases self,
    {
        match self {
            BackendView::DynamoDB { endpoint, table_name, allow_eventually_consistent_reads } =>
                BackendView::DynamoDB {
                    endpoint,
                    table_name,
                    allow_eventually_consistent_reads: true,
                },
            BackendView::ReadCache(inner) => BackendView::ReadCache(
                Box::new(inner.with_eventually_consistent_reads()),
            ),
            b => b,
        }
    }
}

/// A copy of an optional string.
pub fn clone_text(s: &Option<String>) -> (copy: Option<String>)
    ensures
        text_of(copy) == text_of(*s),
{
    match s {
        Some(s) => Some(s.clone()),
        None => None,
    }
}

impl Clone for Backend {
    fn clone(&self) -> (b: Backend)
        ensures
            b@ == self@,
        decreases self,
    {
        match self {
            Backend::Memory => Backend::Memory,
            Backend::Redis { url } => Backend::Redis { url: url.clone() },
            Backend::DynamoDB { endpoint, table_name, allow_eventually_consistent_reads } =>
                Backend::DynamoDB {
                    endpoint: clone_text(endpoint),
                    table_name: table_name.clone(),
                    allow_eventually_consistent_reads: *allow_eventually_consistent_reads,
                },
            Backend::ReadCache(inner) => Backend::ReadCache(Box::new((**inner).clone())),
        }
    }
}

impl Backend {
    /// The backend that a configuration chooses, if it names one.
    pub fn of_config(config: &Config) -> (b: Option<Backend>)
        ensures
            match b {
                Some(b) => BackendView::of_config(config@) == Some(b@),
                None => BackendView::of_config(config@).is_none(),
            },
    {
        if config.in_memory {
            Some(Backend::Memory)
        } else if let Some(address) = &config.redis_address {
            Some(Backend::Redis { url: String::from_str("redis://").concat(address.as_str()) })
        } else if let Some(table) = &config.dynamodb {
            Some(
                Backend::DynamoDB {
                    endpoint: clone_text(&table.endpoint),
                    table_name: table.table_name.clone(),
                    allow_eventually_consistent_reads: false,
                },
            )
        } else {
            None
        }
    }

    /// The same backend with relaxed reads where it knows them.
    pub fn with_eventually_consistent_reads(self) -> (b: Backend)
        ensures
            b@ == self@.with_eventually_consistent_reads(),
        decreases self,
    {
        match self {
            Backend::DynamoDB { endpoint, table_name, allow_eventually_consistent_reads: _ } =>
                Backend::DynamoDB { endpoint, table_name, allow_eventually_consistent_reads: true },
            Backend::ReadCache(inner) => Backend::ReadCache(
                Box::new((*inner).with_eventually_consistent_reads()),
            ),
            b => b,
        }
    }

    /// The same backend read through a cache.
    pub fn with_read_cache(self) -> (b: Backend)
        ensures
            b@ == self@.with_read_cache(),
            b@.is_cached(),
    {
        match self {
            Backend::ReadCache(inner) => Backend::ReadCache(inner),
            b => Backend::ReadCache(Box::new(b)),
        }
    }
}

/// Asking twice for relaxed reads changes nothing more.
pub proof fn lemma_eventually_consistent_reads_idempotent(b: BackendView)
    ensures
        b.with_eventually_consistent_reads().with_eventually_consistent_reads()
            == b.with_eventually_consistent_reads(),
    decreases b,
{
    match b {
        BackendView::ReadCache(inner) => {
            lemma_eventually_consistent_reads_idempotent(*inner);
        },
        _ => {},
    }
}

/// A cache is never put behind another cache.
pub proof fn lemma_read_cache_idempotent(b: BackendView)
    ensures
        b.with_read_cache().with_read_cache() == b.with_read_cache(),
{
}

} // verus!
