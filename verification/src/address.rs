//! Bind addresses: what counts as one, and the default.

use vstd::prelude::*;
use vstd::string::StringExecFns;

verus! {

/// The address to bind to when none is configured.
pub const DEFAULT_ADDRESS: &'static str = "127.0.0.1:8080";

/// Ports below this one are privileged.
pub const FIRST_USER_PORT: u16 = 1024;

/// What kind of host a URL names.
#[derive(Clone, Copy, PartialEq, Eq, Structural, Debug)]
pub enum HostKind {
    /// A name, to be resolved.
    Domain,
    /// An IPv4 address.
    Ipv4,
    /// An IPv6 address.
    Ipv6,
    /// The URL has no host.
    Absent,
}

/// What a URL parser found in a URL: the kind of its host and its port. A
/// port that is the default of the URL's scheme reads as absent.
#[derive(Clone, Copy, Debug)]
pub struct Endpoint {
    pub host: HostKind,
    pub port: Option<u16>,
}

/// Why an address cannot be bound to.
#[derive(Clone, Copy, PartialEq, Eq, Structural, Debug)]
pub enum BindError {
    /// The text is no address.
    InvalidAddress,
    /// The address names a host and no port.
    PortNotSpecified,
    /// The port is below 1024.
    PrivilegedPort,
}

impl BindError {
    /// The text shown to the user for this error.
    pub open spec fn text(self) -> Seq<char> {
        match self {
            BindError::InvalidAddress => "Invalid address passed to server.start. Example valid address: 127.0.0.1:8080"@,
            BindError::PortNotSpecified => "Port not specified in address. Example valid address: 127.0.0.1:8080"@,
            BindError::PrivilegedPort => "Port numbers below 1024 (excluding special cases) are privileged and non-writable by users. More information: https://www.w3.org/Daemon/User/Installation/PrivilegedPorts.html"@,
        }
    }

    /// The text shown to the user for this error.
    pub fn message(&self) -> (text: &'static str)
        ensures
            text@ == self.text(),
    {
        match self {
            BindError::InvalidAddress => "Invalid address passed to server.start. Example valid address: 127.0.0.1:8080",
            BindError::PortNotSpecified => "Port not specified in address. Example valid address: 127.0.0.1:8080",
            BindError::PrivilegedPort => "Port numbers below 1024 (excluding special cases) are privileged and non-writable by users. More information: https://www.w3.org/Daemon/User/Installation/PrivilegedPorts.html",
        }
    }
}

/// What `url::Url::parse` finds in a text: `None` where it refuses the text,
/// else the kind of host and the port of the URL it returns.
pub uninterp spec fn url_endpoint(text: Seq<char>) -> Option<Endpoint>;

/// Calls `url::Url::parse` and reads the host and the port of the URL with
/// `Url::host` and `Url::port`. The contract names what comes back and
/// claims nothing of it.
#[verifier::external_body]
fn read_url(text: &str) -> (found: Option<Endpoint>)
    ensures
        found == url_endpoint(text@),
{
    match url::Url::parse(text) {
        Ok(parsed) => Some(
            Endpoint {
                host: match parsed.host() {
                    Some(url::Host::Domain(_)) => HostKind::Domain,
                    Some(url::Host::Ipv4(_)) => HostKind::Ipv4,
                    Some(url::Host::Ipv6(_)) => HostKind::Ipv6,
                    None => HostKind::Absent,
                },
                port: parsed.port(),
            },
        ),
        Err(_) => None,
    }
}

/// The port that an address states. The parser hides a port that is the
/// default of its scheme, so the address is read under two schemes whose
/// defaults differ: what is absent under both was not written.
pub open spec fn stated_port(secure: Endpoint, plain: Option<Endpoint>) -> Option<u16> {
    if secure.port is Some {
        secure.port
    } else {
        match plain {
            Some(endpoint) => endpoint.port,
            None => None,
        }
    }
}

/// Whether an address can be bound to, given what the parser found in it
/// under the scheme `https` and under the scheme `http`.
///
/// - What does not parse is no address.
/// - An address without a port lacks its port where its host is an IP
///   address; any other text without a port is no address.
/// - A port below 1024 is privileged.
pub open spec fn verdict(secure: Option<Endpoint>, plain: Option<Endpoint>) -> Result<
    (),
    BindError,
> {
    match secure {
        None => Err(BindError::InvalidAddress),
        Some(endpoint) => match stated_port(endpoint, plain) {
            None => if endpoint.host is Ipv4 || endpoint.host is Ipv6 {
                Err(BindError::PortNotSpecified)
            } else {
                Err(BindError::InvalidAddress)
            },
            Some(port) => if port < FIRST_USER_PORT {
                Err(BindError::PrivilegedPort)
            } else {
                Ok(())
            },
        },
    }
}

/// Judges an address from what the parser found in it.
pub fn judge(secure: Option<Endpoint>, plain: Option<Endpoint>) -> (verdict: Result<(), BindError>)
    ensures
        verdict == self::verdict(secure, plain),
{
    let endpoint = match secure {
        Some(endpoint) => endpoint,
        None => {
            return Err(BindError::InvalidAddress);
        },
    };
    let port = match endpoint.port {
        Some(port) => Some(port),
        None => match plain {
            Some(other) => other.port,
            None => None,
        },
    };
    match port {
        None => match endpoint.host {
            HostKind::Ipv4 => Err(BindError::PortNotSpecified),
            HostKind::Ipv6 => Err(BindError::PortNotSpecified),
            _ => Err(BindError::InvalidAddress),
        },
        Some(port) => if port < FIRST_USER_PORT {
            Err(BindError::PrivilegedPort)
        } else {
            Ok(())
        },
    }
}

/// The verdict on an address as a text.
pub open spec fn address_verdict(address: Seq<char>) -> Result<(), BindError> {
    verdict(url_endpoint("https://"@ + address), url_endpoint("http://"@ + address))
}

/// Says whether `address` can be bound to: a host and a port of 1024 or
/// above.
pub fn validate_address(address: &str) -> (verdict: Result<(), BindError>)
    ensures
        verdict == address_verdict(address@),
{
    let secure = read_url(String::from_str("https://").concat(address).as_str());
    let hidden = match secure {
        Some(endpoint) => endpoint.port.is_none(),
        None => false,
    };
    let plain = if hidden {
        read_url(String::from_str("http://").concat(address).as_str())
    } else {
        None
    };
    judge(secure, plain)
}

/// The address to bind to: the one configured, or the default.
pub fn bind_address(configured: Option<String>) -> (address: String)
    ensures
        address@ == match configured {
            Some(given) => given@,
            None => DEFAULT_ADDRESS@,
        },
{
    match configured {
        Some(given) => given,
        None => String::from_str(DEFAULT_ADDRESS),
    }
}

} // verus!
