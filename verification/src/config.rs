use vstd::prelude::*;
use vstd::string::StrSliceExecFns;

verus! {

/// The three values the relay is configured by: the bind address, the TCP
/// port, and the HTTP path that an upgrade must ask for.
#[derive(Debug)]
pub struct Config {
    pub host: String,
    pub port: u16,
    pub route: String,
}

/// A port number the relay may bind: any value a TCP port field can
/// carry. Zero is allowed and asks the system for an ephemeral port at
/// bind time, as the original relay did.
pub open spec fn port_ok(port: int) -> bool {
    0 <= port <= 65535
}

/// A route the handshake gate can match: a non-empty path starting with a
/// slash.
pub open spec fn route_ok(route: Seq<char>) -> bool {
    route.len() > 0 && route[0] == '/'
}

impl Config {
    /// A well-formed configuration: the port is in the valid range and the
    /// route is an absolute path.
    pub open spec fn wf(self) -> bool {
        port_ok(self.port as int) && route_ok(self.route@)
    }
}

/// Why a configuration was refused.
#[derive(PartialEq, Eq, Structural, Clone, Copy, Debug)]
pub enum ConfigError {
    /// The document is not well-formed JSON.
    Parse,
    /// No object under the key for the relay's section.
    MissingSection,
    /// No string under the host key.
    MissingHost,
    /// No integer under the port key.
    MissingPort,
    /// No string under the route key.
    MissingRoute,
    /// The port does not fit a TCP port field.
    PortOutOfRange,
    /// The route does not start with a slash.
    RouteNotAbsolute,
}

/// Whether the configuration text parses as a JSON document. A function
/// of the text alone.
pub uninterp spec fn cfg_parses(text: Seq<char>) -> bool;

/// Whether the parsed document holds the relay's section under its key.
/// Meaningful only when the text parses; a function of the text alone.
pub uninterp spec fn cfg_section_ok(text: Seq<char>) -> bool;

/// What the JSON library extracts as the relay's host: the string under
/// the host key of the relay's section, present exactly when the text
/// parses as JSON and holds it. A function of the text alone.
pub uninterp spec fn cfg_host_of(text: Seq<char>) -> Option<Seq<char>>;

/// What the JSON library extracts as the relay's port: the integer under
/// the port key of the relay's section, present exactly when the text
/// parses as JSON and holds it. A function of the text alone.
pub uninterp spec fn cfg_port_of(text: Seq<char>) -> Option<i64>;

/// What the JSON library extracts as the relay's route: the string under
/// the route key of the relay's section, present exactly when the text
/// parses as JSON and holds it. A function of the text alone.
pub uninterp spec fn cfg_route_of(text: Seq<char>) -> Option<Seq<char>>;

/// Relies on serde_json's `from_str`, `Value::get` and `Value::as_str`:
/// parses the text, looks the relay's section up and reads the host from
/// it. Succeeds exactly when the named extraction does, with the same
/// value; the error names the first step that failed, as the underlying
/// calls report it.
#[verifier::external_body]
fn extract_host(text: &str) -> (r: Result<String, ConfigError>)
    ensures
        r is Ok <==> cfg_host_of(text@) is Some,
        r is Ok ==> cfg_host_of(text@) == Some(r->Ok_0@),
        (r matches Err(e) && e == ConfigError::Parse) <==> !cfg_parses(text@),
        (r matches Err(e) && e == ConfigError::MissingSection) <==> (cfg_parses(text@) && !cfg_section_ok(text@)),
        (r matches Err(e) && e == ConfigError::MissingHost) <==> (cfg_parses(text@) && cfg_section_ok(text@) && cfg_host_of(text@) is None),
{
    let doc: serde_json::Value = match serde_json::from_str(text) {
        Ok(v) => v,
        Err(_) => return Err(ConfigError::Parse),
    };
    let sect = match doc.get("websocket") {
        Some(w) => w,
        None => return Err(ConfigError::MissingSection),
    };
    match sect.get("host") {
        Some(v) => match v.as_str() {
            Some(h) => Ok(h.to_owned()),
            None => Err(ConfigError::MissingHost),
        },
        None => Err(ConfigError::MissingHost),
    }
}

/// Relies on serde_json's `from_str`, `Value::get` and `Value::as_i64`:
/// parses the text, looks the relay's section up and reads the port from
/// it. Succeeds exactly when the named extraction does, with the same
/// value; the error names the first step that failed.
#[verifier::external_body]
fn extract_port(text: &str) -> (r: Result<i64, ConfigError>)
    ensures
        r is Ok <==> cfg_port_of(text@) is Some,
        r is Ok ==> cfg_port_of(text@) == Some(r->Ok_0),
        (r matches Err(e) && e == ConfigError::Parse) <==> !cfg_parses(text@),
        (r matches Err(e) && e == ConfigError::MissingSection) <==> (cfg_parses(text@) && !cfg_section_ok(text@)),
        (r matches Err(e) && e == ConfigError::MissingPort) <==> (cfg_parses(text@) && cfg_section_ok(text@) && cfg_port_of(text@) is None),
{
    let doc: serde_json::Value = match serde_json::from_str(text) {
        Ok(v) => v,
        Err(_) => return Err(ConfigError::Parse),
    };
    let sect = match doc.get("websocket") {
        Some(w) => w,
        None => return Err(ConfigError::MissingSection),
    };
    match sect.get("port") {
        Some(v) => match v.as_i64() {
            Some(p) => Ok(p),
            None => Err(ConfigError::MissingPort),
        },
        None => Err(ConfigError::MissingPort),
    }
}

/// Relies on serde_json's `from_str`, `Value::get` and `Value::as_str`:
/// parses the text, looks the relay's section up and reads the route from
/// it. Succeeds exactly when the named extraction does, with the same
/// value; the error names the first step that failed.
#[verifier::external_body]
fn extract_route(text: &str) -> (r: Result<String, ConfigError>)
    ensures
        r is Ok <==> cfg_route_of(text@) is Some,
        r is Ok ==> cfg_route_of(text@) == Some(r->Ok_0@),
        (r matches Err(e) && e == ConfigError::Parse) <==> !cfg_parses(text@),
        (r matches Err(e) && e == ConfigError::MissingSection) <==> (cfg_parses(text@) && !cfg_section_ok(text@)),
        (r matches Err(e) && e == ConfigError::MissingRoute) <==> (cfg_parses(text@) && cfg_section_ok(text@) && cfg_route_of(text@) is None),
{
    let doc: serde_json::Value = match serde_json::from_str(text) {
        Ok(v) => v,
        Err(_) => return Err(ConfigError::Parse),
    };
    let sect = match doc.get("websocket") {
        Some(w) => w,
        None => return Err(ConfigError::MissingSection),
    };
    match sect.get("route") {
        Some(v) => match v.as_str() {
            Some(q) => Ok(q.to_owned()),
            None => Err(ConfigError::MissingRoute),
        },
        None => Err(ConfigError::MissingRoute),
    }
}

/// Builds a configuration from the three raw values, validating them: the
/// port must lie in the valid TCP range and the route must be an absolute
/// path. Exactly the valid triples are accepted, and an accepted triple is
/// stored unchanged.
pub fn config_from_values(host: String, port: i64, route: String) -> (r: Result<
    Config,
    ConfigError,
>)
    ensures
        r is Ok <==> port_ok(port as int) && route_ok(route@),
        r is Ok ==> r->Ok_0.host@ == host@ && r->Ok_0.port == port && r->Ok_0.route@ == route@
            && r->Ok_0.wf(),
        !port_ok(port as int) ==> r == Err::<Config, ConfigError>(ConfigError::PortOutOfRange),
        port_ok(port as int) && !route_ok(route@) ==> r == Err::<Config, ConfigError>(
            ConfigError::RouteNotAbsolute,
        ),
{
    if port < 0 || port > 65535 {
        return Err(ConfigError::PortOutOfRange);
    }
    let route_str = route.as_str();
    if route_str.unicode_len() == 0 {
        return Err(ConfigError::RouteNotAbsolute);
    }
    if route_str.get_char(0) != '/' {
        return Err(ConfigError::RouteNotAbsolute);
    }
    Ok(Config { host, port: port as u16, route })
}

/// Loads a configuration from the text of a JSON document: the relay's
/// section is looked up, the host, port and route are read from it, and
/// the triple is validated as `config_from_values` does. Success is owed
/// exactly when the three named extractions yield their fields and the
/// fields validate; accepted values are stored unchanged, and each error
/// names the first step that failed — unparsable text, the missing
/// section, a missing key, or the rule the values broke.
pub fn load_config(text: &str) -> (r: Result<Config, ConfigError>)
    ensures
        r is Ok <==> (cfg_host_of(text@) is Some && (cfg_port_of(text@) matches Some(p)
            && port_ok(p as int)) && (cfg_route_of(text@) matches Some(q) && route_ok(q))),
        r is Ok ==> (cfg_host_of(text@) matches Some(h) && r->Ok_0.host@ == h),
        r is Ok ==> (cfg_port_of(text@) matches Some(p) && r->Ok_0.port == p),
        r is Ok ==> (cfg_route_of(text@) matches Some(q) && r->Ok_0.route@ == q),
        r is Ok ==> r->Ok_0.wf(),
        !cfg_parses(text@) ==> r == Err::<Config, ConfigError>(ConfigError::Parse),
        cfg_parses(text@) && !cfg_section_ok(text@) ==> r == Err::<Config, ConfigError>(
            ConfigError::MissingSection,
        ),
        cfg_parses(text@) && cfg_section_ok(text@) && cfg_host_of(text@) is None ==> r == Err::<
            Config,
            ConfigError,
        >(ConfigError::MissingHost),
        cfg_host_of(text@) is Some && cfg_port_of(text@) is None ==> r == Err::<
            Config,
            ConfigError,
        >(ConfigError::MissingPort),
        cfg_host_of(text@) is Some && cfg_port_of(text@) is Some && cfg_route_of(text@) is None
            ==> r == Err::<Config, ConfigError>(ConfigError::MissingRoute),
        cfg_host_of(text@) is Some && cfg_route_of(text@) is Some && (cfg_port_of(text@)
            matches Some(p) && !port_ok(p as int)) ==> r == Err::<Config, ConfigError>(
            ConfigError::PortOutOfRange,
        ),
        cfg_host_of(text@) is Some && cfg_route_of(text@) is Some && (cfg_port_of(text@)
            matches Some(p) && port_ok(p as int)) && (cfg_route_of(text@) matches Some(q)
            && !route_ok(q)) ==> r == Err::<Config, ConfigError>(ConfigError::RouteNotAbsolute),
{
    let host = match extract_host(text) {
        Ok(h) => h,
        Err(e) => {
            return Err(e);
        },
    };
    let port = match extract_port(text) {
        Ok(p) => p,
        Err(e) => {
            return Err(e);
        },
    };
    let route = match extract_route(text) {
        Ok(q) => q,
        Err(e) => {
            return Err(e);
        },
    };
    config_from_values(host, port, route)
}

} // verus!
