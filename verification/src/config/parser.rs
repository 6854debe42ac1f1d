use vstd::prelude::*;
use vstd::string::*;
use crate::{ConfigError, ConfigErrorView};
use crate::config::types::{
    dns_mode_from_name, routing_mode_from_name, AppConfig, DnsMode, RoutingMode,
};
use crate::text::{
    chars_of, ends_with, has_prefix, parse_bool, parse_bool_chars, parse_unsigned,
    parse_unsigned_chars, seq_eq, split_chars, split_on, split_once, split_once_chars, starts_with,
    str_eq_chars, string_from_chars, strip_chars, sub_chars, trim, trim_chars, trim_quotes, Strip,
};
use crate::util::{auth_method_from_name, transport_mode_from_name, AuthMethod, TransportMode};

verus! {

/// The settings of a configuration, as values.
pub struct AppConfigView {
    pub client_server: Seq<char>,
    pub server_listen: Seq<char>,
    pub transport_mode: TransportMode,
    pub fallback_timeout_secs: u16,
    pub stealth_profile: Seq<char>,
    pub stealth_profile_path: Option<Seq<char>>,
    pub facade_on_auth_failure: bool,
    pub auth_methods: Seq<AuthMethod>,
    pub post_quantum: bool,
    pub rekey_interval_secs: u32,
    pub rekey_interval_bytes: u64,
    pub routing_mode: RoutingMode,
    pub dns_mode: DnsMode,
}

impl View for AppConfig {
    type V = AppConfigView;

    open spec fn view(&self) -> AppConfigView {
        AppConfigView {
            client_server: self.client.server@,
            server_listen: self.server.listen@,
            transport_mode: self.transport.mode,
            fallback_timeout_secs: self.transport.fallback_timeout_secs,
            stealth_profile: self.stealth.profile@,
            stealth_profile_path: match self.stealth.profile_path {
                Some(p) => Some(p@),
                None => None,
            },
            facade_on_auth_failure: self.stealth.facade_on_auth_failure,
            auth_methods: self.auth.methods@,
            post_quantum: self.crypto.post_quantum,
            rekey_interval_secs: self.crypto.rekey_interval_secs,
            rekey_interval_bytes: self.crypto.rekey_interval_bytes,
            routing_mode: self.routing.mode,
            dns_mode: self.dns.mode,
        }
    }
}

/// The configuration with every default value.
pub open spec fn default_config_view() -> AppConfigView {
    AppConfigView {
        client_server: Seq::empty(),
        server_listen: "0.0.0.0:443"@,
        transport_mode: TransportMode::Auto,
        fallback_timeout_secs: 3,
        stealth_profile: "chrome_131"@,
        stealth_profile_path: None,
        facade_on_auth_failure: true,
        auth_methods: Seq::empty(),
        post_quantum: true,
        rekey_interval_secs: 60,
        rekey_interval_bytes: 1_073_741_824,
        routing_mode: RoutingMode::Full,
        dns_mode: DnsMode::Doh,
    }
}

/// The keys a configuration may set.
pub open spec fn supported_key(key: Seq<char>) -> bool {
    ||| key == "client.server"@
    ||| key == "server.listen"@
    ||| key == "transport.mode"@
    ||| key == "transport.fallback_timeout"@
    ||| key == "stealth.profile"@
    ||| key == "stealth.profile_path"@
    ||| key == "stealth.facade_on_auth_failure"@
    ||| key == "auth.methods"@
    ||| key == "crypto.post_quantum"@
    ||| key == "crypto.rekey_interval_secs"@
    ||| key == "crypto.rekey_interval_bytes"@
    ||| key == "routing.mode"@
    ||| key == "dns.mode"@
}

/// A value with surrounding blanks and double quotes taken off.
pub open spec fn string_value(v: Seq<char>) -> Seq<char> {
    trim_quotes(trim(v))
}

/// What one line of a configuration holds: nothing (blank or a `#` comment), or a supported
/// key and its value, both trimmed.
pub open spec fn config_line(raw: Seq<char>) -> Result<Option<(Seq<char>, Seq<char>)>, ConfigErrorView> {
    let line = trim(raw);
    if line.len() == 0 || starts_with(line, "#"@) {
        Ok(None)
    } else {
        match split_once(line, '=') {
            None => Err(ConfigErrorView::InvalidValue("line_format"@)),
            Some(kv) => if supported_key(trim(kv.0)) {
                Ok(Some((trim(kv.0), trim(kv.1))))
            } else {
                Err(ConfigErrorView::UnsupportedKey(trim(kv.0)))
            },
        }
    }
}

/// The settings of the lines, in order; the first bad line's error.
pub open spec fn config_entries(lines: Seq<Seq<char>>) -> Result<
    Seq<(Seq<char>, Seq<char>)>,
    ConfigErrorView,
>
    decreases lines.len(),
{
    if lines.len() == 0 {
        Ok(Seq::empty())
    } else {
        match config_entries(lines.drop_last()) {
            Err(e) => Err(e),
            Ok(kv) => match config_line(lines.last()) {
                Err(e) => Err(e),
                Ok(None) => Ok(kv),
                Ok(Some(p)) => Ok(kv.push(p)),
            },
        }
    }
}

/// The value last set for the key.
pub open spec fn config_lookup(kv: Seq<(Seq<char>, Seq<char>)>, key: Seq<char>) -> Option<Seq<char>>
    decreases kv.len(),
{
    if kv.len() == 0 {
        None
    } else if kv.last().0 == key {
        Some(kv.last().1)
    } else {
        config_lookup(kv.drop_last(), key)
    }
}

/// The authentication methods a value lists, in brackets, separated by commas.
pub open spec fn auth_methods_spec(value: Seq<char>) -> Result<Seq<AuthMethod>, ConfigErrorView> {
    let n = trim(string_value(value));
    if !(starts_with(n, "["@) && ends_with(n, "]"@)) {
        Err(ConfigErrorView::InvalidValue("auth.methods"@))
    } else {
        let inner = n.subrange(1, n.len() - 1);
        if trim(inner).len() == 0 {
            Ok(Seq::empty())
        } else {
            auth_method_list(split_on(inner, ','))
        }
    }
}

/// The methods the items name, each trimmed of blanks and quotes.
pub open spec fn auth_method_list(items: Seq<Seq<char>>) -> Result<Seq<AuthMethod>, ConfigErrorView>
    decreases items.len(),
{
    if items.len() == 0 {
        Ok(Seq::empty())
    } else {
        match auth_method_list(items.drop_last()) {
            Err(e) => Err(e),
            Ok(ms) => match auth_method_from_name(trim_quotes(trim(items.last()))) {
                None => Err(ConfigErrorView::InvalidValue("auth.methods"@)),
                Some(m) => Ok(ms.push(m)),
            },
        }
    }
}

/// The setting of the key read as a number no larger than `max`: `None` where it is not set.
pub open spec fn number_setting(kv: Seq<(Seq<char>, Seq<char>)>, key: Seq<char>, max: nat) -> Result<
    Option<nat>,
    ConfigErrorView,
> {
    match config_lookup(kv, key) {
        None => Ok(None),
        Some(v) => match parse_unsigned(string_value(v), max) {
            None => Err(ConfigErrorView::InvalidValue(key)),
            Some(n) => Ok(Some(n)),
        },
    }
}

/// The setting of the key read as `true` or `false`: `None` where it is not set.
pub open spec fn bool_setting(kv: Seq<(Seq<char>, Seq<char>)>, key: Seq<char>) -> Result<
    Option<bool>,
    ConfigErrorView,
> {
    match config_lookup(kv, key) {
        None => Ok(None),
        Some(v) => match parse_bool(string_value(v)) {
            None => Err(ConfigErrorView::InvalidValue(key)),
            Some(b) => Ok(Some(b)),
        },
    }
}

/// The settings up to the transport mode applied to the defaults.
pub open spec fn settings_transport(kv: Seq<(Seq<char>, Seq<char>)>) -> Result<AppConfigView, ConfigErrorView> {
    let d = default_config_view();
    let c = AppConfigView {
        client_server: match config_lookup(kv, "client.server"@) {
            Some(v) => string_value(v),
            None => d.client_server,
        },
        server_listen: match config_lookup(kv, "server.listen"@) {
            Some(v) => string_value(v),
            None => d.server_listen,
        },
        ..d
    };
    let c = match config_lookup(kv, "transport.mode"@) {
        None => Ok(c),
        Some(v) => match transport_mode_from_name(string_value(v)) {
            None => Err(ConfigErrorView::InvalidValue("transport.mode"@)),
            Some(m) => Ok(AppConfigView { transport_mode: m, ..c }),
        },
    };
    match c {
        Err(e) => Err(e),
        Ok(c) => match number_setting(kv, "transport.fallback_timeout"@, 65535) {
            Err(e) => Err(e),
            Ok(None) => Ok(c),
            Ok(Some(n)) => Ok(AppConfigView { fallback_timeout_secs: n as u16, ..c }),
        },
    }
}

/// The stealth and authentication settings applied.
pub open spec fn settings_stealth(kv: Seq<(Seq<char>, Seq<char>)>, c: AppConfigView) -> Result<
    AppConfigView,
    ConfigErrorView,
> {
    let c = AppConfigView {
        stealth_profile: match config_lookup(kv, "stealth.profile"@) {
            Some(v) => string_value(v),
            None => c.stealth_profile,
        },
        stealth_profile_path: match config_lookup(kv, "stealth.profile_path"@) {
            Some(v) => if string_value(v).len() == 0 {
                None
            } else {
                Some(string_value(v))
            },
            None => c.stealth_profile_path,
        },
        ..c
    };
    match bool_setting(kv, "stealth.facade_on_auth_failure"@) {
        Err(e) => Err(e),
        Ok(f) => {
            let c = match f {
                Some(b) => AppConfigView { facade_on_auth_failure: b, ..c },
                None => c,
            };
            match config_lookup(kv, "auth.methods"@) {
                None => Ok(c),
                Some(v) => match auth_methods_spec(v) {
                    Err(e) => Err(e),
                    Ok(ms) => Ok(AppConfigView { auth_methods: ms, ..c }),
                },
            }
        },
    }
}

/// The cryptography settings applied.
pub open spec fn settings_crypto(kv: Seq<(Seq<char>, Seq<char>)>, c: AppConfigView) -> Result<
    AppConfigView,
    ConfigErrorView,
> {
    match bool_setting(kv, "crypto.post_quantum"@) {
        Err(e) => Err(e),
        Ok(pq) => {
            let c = match pq {
                Some(b) => AppConfigView { post_quantum: b, ..c },
                None => c,
            };
            match number_setting(kv, "crypto.rekey_interval_secs"@, 0xFFFF_FFFF) {
                Err(e) => Err(e),
                Ok(s) => {
                    let c = match s {
                        Some(n) => AppConfigView { rekey_interval_secs: n as u32, ..c },
                        None => c,
                    };
                    match number_setting(kv, "crypto.rekey_interval_bytes"@, 0xFFFF_FFFF_FFFF_FFFF) {
                        Err(e) => Err(e),
                        Ok(None) => Ok(c),
                        Ok(Some(n)) => Ok(AppConfigView { rekey_interval_bytes: n as u64, ..c }),
                    }
                },
            }
        },
    }
}

/// The routing and DNS settings applied.
pub open spec fn settings_routing(kv: Seq<(Seq<char>, Seq<char>)>, c: AppConfigView) -> Result<
    AppConfigView,
    ConfigErrorView,
> {
    let r = match config_lookup(kv, "routing.mode"@) {
        None => Ok(c),
        Some(v) => match routing_mode_from_name(string_value(v)) {
            None => Err(ConfigErrorView::InvalidValue("routing.mode"@)),
            Some(m) => Ok(AppConfigView { routing_mode: m, ..c }),
        },
    };
    match r {
        Err(e) => Err(e),
        Ok(c) => match config_lookup(kv, "dns.mode"@) {
            None => Ok(c),
            Some(v) => match dns_mode_from_name(string_value(v)) {
                None => Err(ConfigErrorView::InvalidValue("dns.mode"@)),
                Some(m) => Ok(AppConfigView { dns_mode: m, ..c }),
            },
        },
    }
}

/// The configuration a text describes: its settings applied to the defaults in a fixed order,
/// then validated.
pub open spec fn parse_config_spec(input: Seq<char>) -> Result<AppConfigView, ConfigErrorView> {
    match config_entries(split_on(input, '\n')) {
        Err(e) => Err(e),
        Ok(kv) => match settings_transport(kv) {
            Err(e) => Err(e),
            Ok(c) => match settings_stealth(kv, c) {
                Err(e) => Err(e),
                Ok(c) => match settings_crypto(kv, c) {
                    Err(e) => Err(e),
                    Ok(c) => match settings_routing(kv, c) {
                        Err(e) => Err(e),
                        Ok(c) => if c.fallback_timeout_secs == 0 {
                            Err(ConfigErrorView::InvalidValue("transport.fallback_timeout"@))
                        } else {
                            Ok(c)
                        },
                    },
                },
            },
        },
    }
}


/// The settings as values.
pub open spec fn entries_view(kv: Seq<(Vec<char>, Vec<char>)>) -> Seq<(Seq<char>, Seq<char>)> {
    kv.map_values(|p: (Vec<char>, Vec<char>)| (p.0@, p.1@))
}

fn is_supported_key(key: &[char]) -> (r: bool)
    ensures
        r == supported_key(key@),
{
    seq_eq(key, &chars_of("client.server")) || seq_eq(key, &chars_of("server.listen")) || seq_eq(
        key,
        &chars_of("transport.mode"),
    ) || seq_eq(key, &chars_of("transport.fallback_timeout")) || seq_eq(
        key,
        &chars_of("stealth.profile"),
    ) || seq_eq(key, &chars_of("stealth.profile_path")) || seq_eq(
        key,
        &chars_of("stealth.facade_on_auth_failure"),
    ) || seq_eq(key, &chars_of("auth.methods")) || seq_eq(key, &chars_of("crypto.post_quantum"))
        || seq_eq(key, &chars_of("crypto.rekey_interval_secs")) || seq_eq(
        key,
        &chars_of("crypto.rekey_interval_bytes"),
    ) || seq_eq(key, &chars_of("routing.mode")) || seq_eq(key, &chars_of("dns.mode"))
}

fn parse_string_value(value: &[char]) -> (r: Vec<char>)
    ensures
        r@ == string_value(value@),
{
    strip_chars(&trim_chars(value), Strip::Quote)
}

fn parse_auth_methods(value: &[char]) -> (r: Result<Vec<AuthMethod>, ConfigError>)
    ensures
        r matches Ok(ms) ==> auth_methods_spec(value@) == Ok::<Seq<AuthMethod>, ConfigErrorView>(
            ms@,
        ),
        r matches Err(e) ==> auth_methods_spec(value@) == Err::<Seq<AuthMethod>, ConfigErrorView>(
            e@,
        ),
{
    let raw = parse_string_value(value);
    let normalized = trim_chars(&raw);
    proof {
        reveal_strlit("[");
        reveal_strlit("]");
    }
    let n = normalized.len();
    let bracketed = n > 0 && normalized[0] == '[' && normalized[n - 1] == ']';
    proof {
        let s = normalized@;
        assert("["@.len() == 1 && "["@[0] == '[');
        assert("]"@.len() == 1 && "]"@[0] == ']');
        if starts_with(s, "["@) {
            assert(s.take(1)[0] == s[0]);
        }
        if ends_with(s, "]"@) {
            assert(s.skip(s.len() - 1)[0] == s[s.len() - 1]);
        }
        if bracketed {
            assert(s.take(1) =~= "["@);
            assert(s.skip(s.len() - 1) =~= "]"@);
        }
        assert(bracketed == (starts_with(s, "["@) && ends_with(s, "]"@)));
    }
    if !bracketed {
        proof {
            assert(normalized@ == trim(string_value(value@)));
            assert(!(starts_with(normalized@, "["@) && ends_with(normalized@, "]"@)));
            assert(auth_methods_spec(value@) == Err::<Seq<AuthMethod>, ConfigErrorView>(
                ConfigErrorView::InvalidValue("auth.methods"@),
            ));
        }
        return Err(ConfigError::invalid_value("auth.methods"));
    }
    if n < 2 {
        proof {
            assert(false);
        }
        return Err(ConfigError::invalid_value("auth.methods"));
    }
    let inner = sub_chars(&normalized, 1, n - 1);
    if trim_chars(&inner).len() == 0 {
        return Ok(Vec::new());
    }
    let items = split_chars(&inner, ',');
    let ghost all = split_on(inner@, ',');
    let mut methods: Vec<AuthMethod> = Vec::new();
    let mut i: usize = 0;
    proof {
        assert(normalized@ == trim(string_value(value@)));
        assert(inner@ == normalized@.subrange(1, normalized@.len() - 1));
        assert(auth_methods_spec(value@) == auth_method_list(all));
        assert(all.take(0) =~= Seq::<Seq<char>>::empty());
    }
    while i < items.len()
        invariant
            i <= items@.len(),
            items@.len() == all.len(),
            forall|j: int| 0 <= j < items@.len() ==> #[trigger] items@[j]@ == all[j],
            auth_methods_spec(value@) == auth_method_list(all),
            auth_method_list(all.take(i as int)) == Ok::<Seq<AuthMethod>, ConfigErrorView>(
                methods@,
            ),
        decreases items@.len() - i,
    {
        proof {
            assert(all.take(i + 1).drop_last() =~= all.take(i as int));
        }
        let token = strip_chars(&trim_chars(items[i].as_slice()), Strip::Quote);
        match AuthMethod::parse(&token) {
            None => {
                proof {
                    assert(all.take(i + 1).last() == all[i as int]);
                    assert(auth_method_list(all.take(i + 1)) == Err::<
                        Seq<AuthMethod>,
                        ConfigErrorView,
                    >(ConfigErrorView::InvalidValue("auth.methods"@)));
                    lemma_auth_list_err(all, i as int + 1);
                }
                return Err(ConfigError::invalid_value("auth.methods"));
            },
            Some(m) => {
                methods.push(m);
                proof {
                    assert(all.take(i + 1).last() == all[i as int]);
                }
            },
        }
        i = i + 1;
    }
    proof {
        assert(all.take(all.len() as int) =~= all);
    }
    Ok(methods)
}

proof fn lemma_auth_list_err(items: Seq<Seq<char>>, k: int)
    requires
        0 < k <= items.len(),
        auth_method_list(items.take(k)) is Err,
    ensures
        auth_method_list(items) == auth_method_list(items.take(k)),
    decreases items.len() - k,
{
    if k < items.len() {
        assert(items.take(k + 1).drop_last() =~= items.take(k));
        lemma_auth_list_err(items, k + 1);
    } else {
        assert(items.take(k) =~= items);
    }
}

proof fn lemma_entries_err(lines: Seq<Seq<char>>, k: int)
    requires
        0 < k <= lines.len(),
        config_entries(lines.take(k)) is Err,
    ensures
        config_entries(lines) == config_entries(lines.take(k)),
    decreases lines.len() - k,
{
    if k < lines.len() {
        assert(lines.take(k + 1).drop_last() =~= lines.take(k));
        lemma_entries_err(lines, k + 1);
    } else {
        assert(lines.take(k) =~= lines);
    }
}

fn unsupported_key(key: &[char]) -> (e: ConfigError)
    ensures
        e@ == ConfigErrorView::UnsupportedKey(key@),
{
    ConfigError::UnsupportedKey { key: string_from_chars(key) }
}

/// The key and value of each setting line, in order.
fn read_entries(input: &str) -> (r: Result<Vec<(Vec<char>, Vec<char>)>, ConfigError>)
    ensures
        r matches Ok(kv) ==> config_entries(split_on(input@, '\n')) == Ok::<
            Seq<(Seq<char>, Seq<char>)>,
            ConfigErrorView,
        >(entries_view(kv@)),
        r matches Err(e) ==> config_entries(split_on(input@, '\n')) == Err::<
            Seq<(Seq<char>, Seq<char>)>,
            ConfigErrorView,
        >(e@),
{
    let text = chars_of(input);
    let lines = split_chars(&text, '\n');
    let ghost all = split_on(input@, '\n');
    let hash = chars_of("#");
    let mut kv: Vec<(Vec<char>, Vec<char>)> = Vec::new();
    let mut i: usize = 0;
    proof {
        assert(all.take(0) =~= Seq::<Seq<char>>::empty());
        assert(entries_view(kv@) =~= Seq::<(Seq<char>, Seq<char>)>::empty());
    }
    while i < lines.len()
        invariant
            i <= lines@.len(),
            lines@.len() == all.len(),
            all == split_on(input@, '\n'),
            hash@ == "#"@,
            forall|j: int| 0 <= j < lines@.len() ==> #[trigger] lines@[j]@ == all[j],
            config_entries(all.take(i as int)) == Ok::<Seq<(Seq<char>, Seq<char>)>, ConfigErrorView>(
                entries_view(kv@),
            ),
        decreases lines@.len() - i,
    {
        proof {
            assert(all.take(i + 1).drop_last() =~= all.take(i as int));
            assert(all.take(i + 1).last() == all[i as int]);
        }
        let line = trim_chars(lines[i].as_slice());
        if line.len() == 0 || has_prefix(&line, &hash) {
            i = i + 1;
            continue;
        }
        match split_once_chars(&line, '=') {
            None => {
                let e = ConfigError::invalid_value("line_format");
                proof {
                    assert(config_line(all[i as int]) == Err::<
                        Option<(Seq<char>, Seq<char>)>,
                        ConfigErrorView,
                    >(e@));
                    assert(config_entries(all.take(i + 1)) == Err::<
                        Seq<(Seq<char>, Seq<char>)>,
                        ConfigErrorView,
                    >(e@));
                    lemma_entries_err(all, i + 1);
                }
                return Err(e);
            },
            Some(pair) => {
                let key = trim_chars(&pair.0);
                if !is_supported_key(&key) {
                    let e = unsupported_key(&key);
                    proof {
                        assert(config_line(all[i as int]) == Err::<
                            Option<(Seq<char>, Seq<char>)>,
                            ConfigErrorView,
                        >(e@));
                        assert(config_entries(all.take(i + 1)) == Err::<
                            Seq<(Seq<char>, Seq<char>)>,
                            ConfigErrorView,
                        >(e@));
                        lemma_entries_err(all, i + 1);
                    }
                    return Err(e);
                }
                let value = trim_chars(&pair.1);
                let ghost before = kv@;
                kv.push((key, value));
                proof {
                    assert(entries_view(kv@) =~= entries_view(before).push((key@, value@)));
                }
            },
        }
        i = i + 1;
    }
    proof {
        assert(all.take(all.len() as int) =~= all);
    }
    Ok(kv)
}

/// The value last set for the key.
fn setting(kv: &Vec<(Vec<char>, Vec<char>)>, key: &str) -> (r: Option<Vec<char>>)
    ensures
        r matches Some(v) ==> config_lookup(entries_view(kv@), key@) == Some(v@),
        r is None ==> config_lookup(entries_view(kv@), key@) is None,
{
    let ghost all = entries_view(kv@);
    let mut i: usize = kv.len();
    proof {
        assert(all.take(kv@.len() as int) =~= all);
    }
    while i > 0
        invariant
            i <= kv@.len(),
            all == entries_view(kv@),
            config_lookup(all, key@) == config_lookup(all.take(i as int), key@),
        decreases i,
    {
        proof {
            assert(all.take(i as int).drop_last() =~= all.take(i - 1));
            assert(all.take(i as int).last() == all[i - 1]);
        }
        let entry = &kv[i - 1];
        if str_eq_chars(key, entry.0.as_slice()) {
            return Some(sub_chars(entry.1.as_slice(), 0, entry.1.len()));
        }
        i = i - 1;
    }
    None
}

fn settings_transport_exec(kv: &Vec<(Vec<char>, Vec<char>)>) -> (r: Result<AppConfig, ConfigError>)
    ensures
        r matches Ok(c) ==> settings_transport(entries_view(kv@)) == Ok::<
            AppConfigView,
            ConfigErrorView,
        >(c@),
        r matches Err(e) ==> settings_transport(entries_view(kv@)) == Err::<
            AppConfigView,
            ConfigErrorView,
        >(e@),
{
    let mut config = AppConfig::default();
    if let Some(value) = setting(kv, "client.server") {
        config.client.server = string_from_chars(&parse_string_value(&value));
    }
    if let Some(value) = setting(kv, "server.listen") {
        config.server.listen = string_from_chars(&parse_string_value(&value));
    }
    if let Some(value) = setting(kv, "transport.mode") {
        match TransportMode::parse(&parse_string_value(&value)) {
            None => {
                return Err(ConfigError::invalid_value("transport.mode"));
            },
            Some(m) => {
                config.transport.mode = m;
            },
        }
    }
    if let Some(value) = setting(kv, "transport.fallback_timeout") {
        match parse_unsigned_chars(&parse_string_value(&value), 65535) {
            None => {
                return Err(ConfigError::invalid_value("transport.fallback_timeout"));
            },
            Some(n) => {
                config.transport.fallback_timeout_secs = n as u16;
            },
        }
    }
    Ok(config)
}

fn settings_stealth_exec(kv: &Vec<(Vec<char>, Vec<char>)>, config: AppConfig) -> (r: Result<
    AppConfig,
    ConfigError,
>)
    ensures
        r matches Ok(c) ==> settings_stealth(entries_view(kv@), config@) == Ok::<
            AppConfigView,
            ConfigErrorView,
        >(c@),
        r matches Err(e) ==> settings_stealth(entries_view(kv@), config@) == Err::<
            AppConfigView,
            ConfigErrorView,
        >(e@),
{
    let mut config = config;
    if let Some(value) = setting(kv, "stealth.profile") {
        config.stealth.profile = string_from_chars(&parse_string_value(&value));
    }
    if let Some(value) = setting(kv, "stealth.profile_path") {
        let parsed = parse_string_value(&value);
        config.stealth.profile_path = if parsed.len() == 0 {
            None
        } else {
            Some(string_from_chars(&parsed))
        };
    }
    if let Some(value) = setting(kv, "stealth.facade_on_auth_failure") {
        match parse_bool_chars(&parse_string_value(&value)) {
            None => {
                return Err(ConfigError::invalid_value("stealth.facade_on_auth_failure"));
            },
            Some(b) => {
                config.stealth.facade_on_auth_failure = b;
            },
        }
    }
    if let Some(value) = setting(kv, "auth.methods") {
        config.auth.methods = parse_auth_methods(&value)?;
    }
    Ok(config)
}

fn settings_crypto_exec(kv: &Vec<(Vec<char>, Vec<char>)>, config: AppConfig) -> (r: Result<
    AppConfig,
    ConfigError,
>)
    ensures
        r matches Ok(c) ==> settings_crypto(entries_view(kv@), config@) == Ok::<
            AppConfigView,
            ConfigErrorView,
        >(c@),
        r matches Err(e) ==> settings_crypto(entries_view(kv@), config@) == Err::<
            AppConfigView,
            ConfigErrorView,
        >(e@),
{
    let mut config = config;
    if let Some(value) = setting(kv, "crypto.post_quantum") {
        match parse_bool_chars(&parse_string_value(&value)) {
            None => {
                return Err(ConfigError::invalid_value("crypto.post_quantum"));
            },
            Some(b) => {
                config.crypto.post_quantum = b;
            },
        }
    }
    if let Some(value) = setting(kv, "crypto.rekey_interval_secs") {
        match parse_unsigned_chars(&parse_string_value(&value), 0xFFFF_FFFF) {
            None => {
                return Err(ConfigError::invalid_value("crypto.rekey_interval_secs"));
            },
            Some(n) => {
                config.crypto.rekey_interval_secs = n as u32;
            },
        }
    }
    if let Some(value) = setting(kv, "crypto.rekey_interval_bytes") {
        match parse_unsigned_chars(&parse_string_value(&value), 0xFFFF_FFFF_FFFF_FFFF) {
            None => {
                return Err(ConfigError::invalid_value("crypto.rekey_interval_bytes"));
            },
            Some(n) => {
                config.crypto.rekey_interval_bytes = n;
            },
        }
    }
    Ok(config)
}

fn settings_routing_exec(kv: &Vec<(Vec<char>, Vec<char>)>, config: AppConfig) -> (r: Result<
    AppConfig,
    ConfigError,
>)
    ensures
        r matches Ok(c) ==> settings_routing(entries_view(kv@), config@) == Ok::<
            AppConfigView,
            ConfigErrorView,
        >(c@),
        r matches Err(e) ==> settings_routing(entries_view(kv@), config@) == Err::<
            AppConfigView,
            ConfigErrorView,
        >(e@),
{
    let mut config = config;
    if let Some(value) = setting(kv, "routing.mode") {
        match RoutingMode::parse_chars(&parse_string_value(&value)) {
            None => {
                return Err(ConfigError::invalid_value("routing.mode"));
            },
            Some(m) => {
                config.routing.mode = m;
            },
        }
    }
    if let Some(value) = setting(kv, "dns.mode") {
        match DnsMode::parse_chars(&parse_string_value(&value)) {
            None => {
                return Err(ConfigError::invalid_value("dns.mode"));
            },
            Some(m) => {
                config.dns.mode = m;
            },
        }
    }
    Ok(config)
}

/// Reads a configuration: one `key = value` setting per line, blank lines and `#` comments
/// skipped, the last setting of a key winning; settings applied to the defaults, then
/// validated.
pub fn parse_config(input: &str) -> (r: Result<AppConfig, ConfigError>)
    ensures
        r matches Ok(c) ==> parse_config_spec(input@) == Ok::<AppConfigView, ConfigErrorView>(c@),
        r matches Err(e) ==> parse_config_spec(input@) == Err::<AppConfigView, ConfigErrorView>(
            e@,
        ),
{
    let kv = read_entries(input)?;
    let config = settings_transport_exec(&kv)?;
    let config = settings_stealth_exec(&kv, config)?;
    let config = settings_crypto_exec(&kv, config)?;
    let config = settings_routing_exec(&kv, config)?;
    config.validate()?;
    Ok(config)
}

/// Every configuration that parsing accepts passes validation.
pub proof fn lemma_parsed_config_is_valid(input: Seq<char>, c: AppConfig)
    requires
        parse_config_spec(input) == Ok::<AppConfigView, ConfigErrorView>(c@),
    ensures
        c.transport.fallback_timeout_secs != 0,
{
}

} // verus!
