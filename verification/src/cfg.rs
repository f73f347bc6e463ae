//! The server's configuration: where it listens and whom it signs in as.
//!
//! Reading the command line and the credentials file is the caller's part;
//! what is decided from them is here.

use crate::text::str_eq;
use vstd::prelude::*;
use vstd::string::StringExecFns;

verus! {

/// The port the server listens on unless told otherwise.
pub const DEFAULT_PORT: u16 = 4040;

/// An IP address.
#[derive(Clone, Copy, Debug, PartialEq, Eq, Structural)]
pub enum IpAddress {
    /// The four bytes of an IPv4 address, first to last.
    V4(u8, u8, u8, u8),
    /// An IPv6 address as one number.
    V6(u128),
}

/// An address and a port to listen on.
#[derive(Clone, Copy, Debug, PartialEq, Eq, Structural)]
pub struct ListenAddr {
    pub ip: IpAddress,
    pub port: u16,
}

/// A network interface of this machine with one of its addresses.
pub struct NetInterface {
    pub name: String,
    pub ip: IpAddress,
}

/// The address `127.0.0.1`.
pub open spec fn localhost() -> IpAddress {
    IpAddress::V4(127, 0, 0, 1)
}

/// An address in `127.0.0.0/8`.
pub open spec fn is_loopback(ip: IpAddress) -> bool {
    ip matches IpAddress::V4(a, _, _, _) && a == 127
}

/// An address in `169.254.0.0/16`.
pub open spec fn is_link_local(ip: IpAddress) -> bool {
    ip matches IpAddress::V4(a, b, _, _) && a == 169 && b == 254
}

/// An interface the server may listen on by default: wired or wireless,
/// by its name, with an IPv4 address that reaches beyond this machine and
/// this link.
pub open spec fn is_eligible(iface: NetInterface) -> bool {
    &&& iface.ip is V4
    &&& !is_loopback(iface.ip)
    &&& !is_link_local(iface.ip)
    &&& (iface.name@ == "Ethernet"@ || iface.name@ == "Wi-Fi"@)
}

/// The address of the first eligible interface.
pub open spec fn first_eligible(ifaces: Seq<NetInterface>) -> Option<IpAddress>
    decreases ifaces.len(),
{
    if ifaces.len() == 0 {
        None
    } else if is_eligible(ifaces[0]) {
        Some(ifaces[0].ip)
    } else {
        first_eligible(ifaces.skip(1))
    }
}

/// Whether the server may listen on `iface` by default.
fn eligible(iface: &NetInterface) -> (yes: bool)
    ensures
        yes == is_eligible(*iface),
{
    match iface.ip {
        IpAddress::V4(a, b, _, _) => {
            a != 127 && !(a == 169 && b == 254) && (str_eq(iface.name.as_str(), "Ethernet")
                || str_eq(iface.name.as_str(), "Wi-Fi"))
        },
        IpAddress::V6(_) => false,
    }
}

/// The address to listen on when none is given: that of the first
/// eligible interface, else `127.0.0.1`; the default port.
pub fn local_addr(ifaces: &Vec<NetInterface>) -> (addr: ListenAddr)
    ensures
        addr.port == DEFAULT_PORT,
        addr.ip == match first_eligible(ifaces@) {
            Some(ip) => ip,
            None => localhost(),
        },
{
    let mut i: usize = 0;
    assert(ifaces@.skip(0) =~= ifaces@);
    while i < ifaces.len()
        invariant
            i <= ifaces.len(),
            first_eligible(ifaces@) == first_eligible(ifaces@.skip(i as int)),
        decreases ifaces.len() - i,
    {
        if eligible(&ifaces[i]) {
            assert(ifaces@.skip(i as int)[0] == ifaces@[i as int]);
            return ListenAddr { ip: ifaces[i].ip, port: DEFAULT_PORT };
        }
        assert(ifaces@.skip(i as int)[0] == ifaces@[i as int]);
        assert(ifaces@.skip(i as int).skip(1) =~= ifaces@.skip(i + 1));
        i += 1;
    }
    assert(ifaces@.skip(i as int).len() == 0);
    ListenAddr { ip: IpAddress::V4(127, 0, 0, 1), port: DEFAULT_PORT }
}

/// The credentials file as it is read.
pub struct CredentialsConfig {
    pub user: String,
    pub pass: String,
    pub client_id: String,
    pub client_secret: String,
}

/// What an account is, seen from outside.
pub struct AccountView {
    pub user: Seq<char>,
    pub pass: Seq<char>,
}

/// The account clients sign in with.
#[derive(Clone, Debug)]
pub struct Account {
    user: String,
    pass: String,
}

impl View for Account {
    type V = AccountView;

    closed spec fn view(&self) -> AccountView {
        AccountView { user: self.user@, pass: self.pass@ }
    }
}

impl Account {
    /// An account with the given name and password.
    pub fn new(user: String, pass: String) -> (a: Self)
        ensures
            a@ == (AccountView { user: user@, pass: pass@ }),
    {
        Account { user, pass }
    }

    /// The account's name.
    pub fn user(&self) -> (s: &str)
        ensures
            s@ == self@.user,
    {
        self.user.as_str()
    }

    /// The account's password.
    pub fn pass(&self) -> (s: &str)
        ensures
            s@ == self@.pass,
    {
        self.pass.as_str()
    }

    /// A copy of the account.
    pub fn duplicate(&self) -> (a: Self)
        ensures
            a@ == self@,
    {
        Account { user: self.user.clone(), pass: self.pass.clone() }
    }
}

/// What developer credentials are, seen from outside.
pub struct DevView {
    pub client_id: Seq<char>,
    pub client_secret: Seq<char>,
}

/// The credentials the server presents to the metadata provider.
#[derive(Clone, Debug)]
pub struct Dev {
    client_id: String,
    client_secret: String,
}

impl View for Dev {
    type V = DevView;

    closed spec fn view(&self) -> DevView {
        DevView { client_id: self.client_id@, client_secret: self.client_secret@ }
    }
}

impl Dev {
    /// Developer credentials with the given id and secret.
    pub fn new(client_id: String, client_secret: String) -> (d: Self)
        ensures
            d@ == (DevView { client_id: client_id@, client_secret: client_secret@ }),
    {
        Dev { client_id, client_secret }
    }

    /// The client id.
    pub fn client_id(&self) -> (s: &str)
        ensures
            s@ == self@.client_id,
    {
        self.client_id.as_str()
    }

    /// The client secret.
    pub fn client_secret(&self) -> (s: &str)
        ensures
            s@ == self@.client_secret,
    {
        self.client_secret.as_str()
    }

    /// A copy of the credentials.
    pub fn duplicate(&self) -> (d: Self)
        ensures
            d@ == self@,
    {
        Dev { client_id: self.client_id.clone(), client_secret: self.client_secret.clone() }
    }
}

/// What credentials are, seen from outside.
pub struct CredentialsView {
    pub account: AccountView,
    pub dev: DevView,
}

/// Everything the server signs in with.
#[derive(Clone, Debug)]
pub struct Credentials {
    account: Account,
    dev: Dev,
}

impl View for Credentials {
    type V = CredentialsView;

    closed spec fn view(&self) -> CredentialsView {
        CredentialsView { account: self.account@, dev: self.dev@ }
    }
}

impl Credentials {
    /// The credentials a credentials file holds.
    pub fn from_config(file: CredentialsConfig) -> (c: Self)
        ensures
            c@ == (CredentialsView {
                account: AccountView { user: file.user@, pass: file.pass@ },
                dev: DevView { client_id: file.client_id@, client_secret: file.client_secret@ },
            }),
    {
        Credentials {
            account: Account::new(file.user, file.pass),
            dev: Dev::new(file.client_id, file.client_secret),
        }
    }

    /// The account clients sign in with.
    pub fn account(&self) -> (a: &Account)
        ensures
            a@ == self@.account,
    {
        &self.account
    }

    /// The credentials for the metadata provider.
    pub fn dev(&self) -> (d: &Dev)
        ensures
            d@ == self@.dev,
    {
        &self.dev
    }

    /// A copy of the credentials.
    pub fn duplicate(&self) -> (c: Self)
        ensures
            c@ == self@,
    {
        Credentials { account: self.account.duplicate(), dev: self.dev.duplicate() }
    }
}

/// What the command line says.
pub struct ArgsConfig {
    /// The address to listen on.
    pub addr: ListenAddr,
    /// The credentials file, where one is named.
    pub config_path: Option<String>,
}

/// Where the credentials file is looked for.
pub enum ConfigSource {
    /// At the path named on the command line.
    Given(String),
    /// In the home directory, under the name `config_file_name` gives.
    HomeFile,
}

/// Why no configuration could be made.
#[derive(Clone, Copy, Debug, PartialEq, Eq, Structural)]
pub enum ConfigError {
    /// No file was named and the home directory is not known.
    NoHomeDirectory,
}

/// What the configuration is, seen from outside.
pub struct ConfigView {
    pub addr: ListenAddr,
    pub cred: CredentialsView,
}

/// The server's configuration.
#[derive(Debug)]
pub struct Config {
    addr: ListenAddr,
    cred: Credentials,
}

impl View for Config {
    type V = ConfigView;

    closed spec fn view(&self) -> ConfigView {
        ConfigView { addr: self.addr, cred: self.cred@ }
    }
}

/// The name of the credentials file in the home directory.
pub fn config_file_name() -> (name: String)
    ensures
        name@ == "spotisub.json"@,
{
    String::from_str("spotisub.json")
}

/// Where to look for the credentials file: where the command line says,
/// else in the home directory, which must then be known.
pub fn config_source(args: &ArgsConfig, home_known: bool) -> (r: Result<ConfigSource, ConfigError>)
    ensures
        match args.config_path {
            Some(path) => r matches Ok(ConfigSource::Given(p)) && p@ == path@,
            None => if home_known {
                r matches Ok(ConfigSource::HomeFile)
            } else {
                r == Err::<ConfigSource, ConfigError>(ConfigError::NoHomeDirectory)
            },
        },
{
    match &args.config_path {
        Some(path) => Ok(ConfigSource::Given(path.clone())),
        None => if home_known {
            Ok(ConfigSource::HomeFile)
        } else {
            Err(ConfigError::NoHomeDirectory)
        },
    }
}

impl Config {
    /// The configuration made of the address the command line gave and
    /// the credentials file as read.
    pub fn new(addr: ListenAddr, file: CredentialsConfig) -> (c: Self)
        ensures
            c@ == (ConfigView {
                addr,
                cred: CredentialsView {
                    account: AccountView { user: file.user@, pass: file.pass@ },
                    dev: DevView { client_id: file.client_id@, client_secret: file.client_secret@ },
                },
            }),
    {
        Config { addr, cred: Credentials::from_config(file) }
    }

    /// The address to listen on.
    pub fn addr(&self) -> (a: ListenAddr)
        ensures
            a == self@.addr,
    {
        self.addr
    }

    /// A copy of the credentials.
    pub fn cred(&self) -> (c: Credentials)
        ensures
            c@ == self@.cred,
    {
        self.cred.duplicate()
    }
}

} // verus!
