use spotisub::cfg::config_file_name;
use spotisub::cfg::config_source;
use spotisub::cfg::local_addr;
use spotisub::cfg::Account;
use spotisub::cfg::ArgsConfig;
use spotisub::cfg::Config;
use spotisub::cfg::ConfigError;
use spotisub::cfg::ConfigSource;
use spotisub::cfg::Credentials;
use spotisub::cfg::CredentialsConfig;
use spotisub::cfg::Dev;
use spotisub::cfg::IpAddress;
use spotisub::cfg::ListenAddr;
use spotisub::cfg::NetInterface;
use spotisub::cfg::DEFAULT_PORT;

fn iface(name: &str, ip: IpAddress) -> NetInterface {
    NetInterface { name: name.to_string(), ip }
}

fn file() -> CredentialsConfig {
    CredentialsConfig {
        user: "alice".to_string(),
        pass: "sesame".to_string(),
        client_id: "id123".to_string(),
        client_secret: "SECRET-REDACTED".to_string(),
    }
}

#[test]
fn without_interfaces_the_server_listens_on_localhost() {
    let addr = local_addr(&Vec::new());
    assert_eq!(addr, ListenAddr { ip: IpAddress::V4(127, 0, 0, 1), port: 4040 });
    assert_eq!(DEFAULT_PORT, 4040);
}

#[test]
fn the_first_eligible_interface_is_taken() {
    let ifaces = vec![
        iface("lo", IpAddress::V4(127, 0, 0, 1)),
        iface("Ethernet", IpAddress::V6(1)),
        iface("Ethernet", IpAddress::V4(127, 0, 0, 5)),
        iface("Wi-Fi", IpAddress::V4(169, 254, 3, 4)),
        iface("eth0", IpAddress::V4(10, 0, 0, 1)),
        iface("Wi-Fi", IpAddress::V4(192, 168, 1, 20)),
        iface("Ethernet", IpAddress::V4(192, 168, 1, 30)),
    ];
    let addr = local_addr(&ifaces);
    assert_eq!(addr.ip, IpAddress::V4(192, 168, 1, 20));
    assert_eq!(addr.port, 4040);
}

#[test]
fn interfaces_by_other_names_are_passed_over() {
    let ifaces = vec![
        iface("eth0", IpAddress::V4(10, 0, 0, 1)),
        iface("ethernet", IpAddress::V4(10, 0, 0, 2)),
        iface("Wi-Fi ", IpAddress::V4(10, 0, 0, 3)),
    ];
    assert_eq!(local_addr(&ifaces).ip, IpAddress::V4(127, 0, 0, 1));
}

#[test]
fn an_address_next_to_the_link_local_range_is_eligible() {
    let ifaces = vec![iface("Ethernet", IpAddress::V4(169, 253, 0, 1))];
    assert_eq!(local_addr(&ifaces).ip, IpAddress::V4(169, 253, 0, 1));
    let ifaces = vec![iface("Ethernet", IpAddress::V4(128, 0, 0, 1))];
    assert_eq!(local_addr(&ifaces).ip, IpAddress::V4(128, 0, 0, 1));
}

#[test]
fn an_account_gives_back_its_name_and_password() {
    let account = Account::new("alice".to_string(), "sesame".to_string());
    assert_eq!(account.user(), "alice");
    assert_eq!(account.pass(), "sesame");
    let copy = account.duplicate();
    assert_eq!(copy.user(), "alice");
    assert_eq!(copy.pass(), "sesame");
}

#[test]
fn developer_credentials_give_back_id_and_secret() {
    let dev = Dev::new("id123".to_string(), "SECRET-REDACTED".to_string());
    assert_eq!(dev.client_id(), "id123");
    assert_eq!(dev.client_secret(), "SECRET-REDACTED");
    assert_eq!(dev.duplicate().client_id(), "id123");
}

#[test]
fn credentials_are_those_of_the_file() {
    let cred = Credentials::from_config(file());
    assert_eq!(cred.account().user(), "alice");
    assert_eq!(cred.account().pass(), "sesame");
    assert_eq!(cred.dev().client_id(), "id123");
    assert_eq!(cred.dev().client_secret(), "SECRET-REDACTED");
    let copy = cred.duplicate();
    assert_eq!(copy.account().user(), "alice");
    assert_eq!(copy.dev().client_secret(), "SECRET-REDACTED");
}

#[test]
fn a_configuration_holds_address_and_credentials() {
    let addr = ListenAddr { ip: IpAddress::V4(10, 1, 2, 3), port: 8080 };
    let config = Config::new(addr, file());
    assert_eq!(config.addr(), addr);
    let cred = config.cred();
    assert_eq!(cred.account().user(), "alice");
    assert_eq!(cred.account().pass(), "sesame");
    assert_eq!(cred.dev().client_id(), "id123");
}

#[test]
fn the_credentials_file_is_looked_for_where_the_command_line_says() {
    let addr = ListenAddr { ip: IpAddress::V4(127, 0, 0, 1), port: 4040 };
    let args = ArgsConfig { addr, config_path: Some("/etc/music.json".to_string()) };
    match config_source(&args, false) {
        Ok(ConfigSource::Given(path)) => assert_eq!(path, "/etc/music.json"),
        _ => panic!("expected the given path"),
    }
    match config_source(&args, true) {
        Ok(ConfigSource::Given(path)) => assert_eq!(path, "/etc/music.json"),
        _ => panic!("expected the given path"),
    }
}

#[test]
fn without_a_path_the_home_directory_is_used_if_known() {
    let addr = ListenAddr { ip: IpAddress::V4(127, 0, 0, 1), port: 4040 };
    let args = ArgsConfig { addr, config_path: None };
    assert!(matches!(config_source(&args, true), Ok(ConfigSource::HomeFile)));
    assert!(matches!(config_source(&args, false), Err(ConfigError::NoHomeDirectory)));
    assert_eq!(config_file_name(), "spotisub.json");
}
