//! What the gateway is configured with.
use vstd::prelude::*;

verus! {

/// What a look-up of one setting in the configuration came to.
pub enum Setting<T> {
    /// No source has it.
    Absent,
    /// A source has it, but not as a value of the type that is wanted.
    Malformed(String),
    /// Its value.
    Found(T),
}

/// Why a configuration was refused.
#[derive(Debug, PartialEq, Eq)]
pub enum ConfigError {
    /// The named setting is in no source.
    Missing(String),
    /// The named setting has a value of another type: the reason follows.
    Invalid(String, String),
}

/// The gateway's configuration.
#[derive(Debug, Clone)]
pub struct GatewayConfig {
    /// HTTP listen address, e.g. "127.0.0.1:8080"
    pub listen_addr: String,
    /// TCP addresses of KV servers, e.g. ["127.0.0.1:5001", "127.0.0.1:5002", ...]
    pub server_addrs: Vec<String>,
    /// Timeout for waiting for a decided response
    pub request_timeout_ms: u64,
}

/// Whether `e` refuses the setting `name` for what its look-up came to.
pub open spec fn refuses<T>(e: ConfigError, name: Seq<char>, setting: Setting<T>) -> bool {
    match setting {
        Setting::Absent => e matches ConfigError::Missing(n) && n@ == name,
        Setting::Malformed(reason) => e matches ConfigError::Invalid(n, r) && n@ == name && r
            == reason,
        Setting::Found(_) => false,
    }
}

impl GatewayConfig {
    /// Puts the configuration together from what was looked up in its sources. All three settings
    /// have to be there. The values that are there are looked at first: the error is about the
    /// first that is malformed, and where none is, about the first setting that is absent.
    pub fn new(
        listen_addr: Setting<String>,
        server_addrs: Setting<Vec<String>>,
        request_timeout_ms: Setting<u64>,
    ) -> (r: Result<GatewayConfig, ConfigError>)
        ensures
            match r {
                Ok(cfg) => {
                    &&& listen_addr == Setting::Found(cfg.listen_addr)
                    &&& server_addrs == Setting::Found(cfg.server_addrs)
                    &&& request_timeout_ms == Setting::Found(cfg.request_timeout_ms)
                },
                Err(e) => {
                    if listen_addr is Malformed {
                        refuses(e, "listen_addr"@, listen_addr)
                    } else if server_addrs is Malformed {
                        refuses(e, "server_addrs"@, server_addrs)
                    } else if request_timeout_ms is Malformed {
                        refuses(e, "request_timeout_ms"@, request_timeout_ms)
                    } else if listen_addr is Absent {
                        refuses(e, "listen_addr"@, listen_addr)
                    } else if server_addrs is Absent {
                        refuses(e, "server_addrs"@, server_addrs)
                    } else {
                        refuses(e, "request_timeout_ms"@, request_timeout_ms)
                    }
                },
            },
    {
        match (listen_addr, server_addrs, request_timeout_ms) {
            (Setting::Malformed(reason), _, _) => Err(
                ConfigError::Invalid("listen_addr".to_owned(), reason),
            ),
            (_, Setting::Malformed(reason), _) => Err(
                ConfigError::Invalid("server_addrs".to_owned(), reason),
            ),
            (_, _, Setting::Malformed(reason)) => Err(
                ConfigError::Invalid("request_timeout_ms".to_owned(), reason),
            ),
            (Setting::Absent, _, _) => Err(ConfigError::Missing("listen_addr".to_owned())),
            (_, Setting::Absent, _) => Err(ConfigError::Missing("server_addrs".to_owned())),
            (_, _, Setting::Absent) => Err(ConfigError::Missing("request_timeout_ms".to_owned())),
            (
                Setting::Found(listen_addr),
                Setting::Found(server_addrs),
                Setting::Found(request_timeout_ms),
            ) => Ok(GatewayConfig { listen_addr, server_addrs, request_timeout_ms }),
        }
    }
}

/// A refusal names its setting and says what is wrong with it: that it is absent, or the reason why
/// its value was not taken. A setting that was found is never refused.
pub proof fn law_refusal_names_its_setting<T>(
    e: ConfigError,
    name: Seq<char>,
    reason: String,
    value: T,
)
    ensures
        refuses(e, name, Setting::<T>::Absent) <==> e is Missing && e->Missing_0@ == name,
        refuses(e, name, Setting::<T>::Malformed(reason)) <==> e is Invalid && e->Invalid_0@ == name
            && e->Invalid_1 == reason,
        !refuses(e, name, Setting::Found(value)),
{
}

} // verus!
