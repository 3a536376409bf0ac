use speakrs::config::{
    config_dir_named, config_home, try_config_home, is_valid_channel_name, is_valid_username, ClientConfig, ClientConfigDatabase,
    ClientArguments, Config, EnvValue, EnvVar, ListenAddress, ServerArguments, ServerConfig,
    ServerConfigDatabase,
};

fn v(s: &str) -> EnvValue {
    EnvValue::Value(s.to_string())
}

#[test]
fn config_home_override_wins() {
    let r = config_home(v("/etc/sp"), v("/x"), v("/home/a"));
    assert_eq!(r.dir, vec!["/etc/sp".to_string()]);
    assert!(r.warnings.is_empty());
}

#[test]
fn config_home_xdg_then_home() {
    let r = config_home(EnvValue::NotPresent, v("/x"), v("/home/a"));
    assert_eq!(r.dir, vec!["/x".to_string(), "speakrs".to_string()]);
    let r = config_home(EnvValue::NotUnicode, EnvValue::NotPresent, v("/home/a"));
    assert_eq!(
        r.dir,
        vec!["/home/a".to_string(), ".config".to_string(), "speakrs".to_string()]
    );
    assert_eq!(r.warnings, vec![EnvVar::ConfigDirOverride]);
}

#[test]
fn config_home_unreadable_home() {
    let r = try_config_home(EnvValue::NotPresent, EnvValue::NotUnicode, EnvValue::NotUnicode);
    assert_eq!(r.unwrap_err(), vec![EnvVar::XdgConfigHome, EnvVar::Home]);
    let r = try_config_home(EnvValue::NotUnicode, EnvValue::NotPresent, EnvValue::NotPresent);
    assert_eq!(r.unwrap_err(), vec![EnvVar::ConfigDirOverride]);
    let r = try_config_home(EnvValue::NotUnicode, EnvValue::NotPresent, v("/h"));
    let h = r.unwrap();
    assert_eq!(h.dir, vec!["/h".to_string(), ".config".to_string(), "speakrs".to_string()]);
    assert_eq!(h.warnings, vec![EnvVar::ConfigDirOverride]);
    assert!(!config_dir_named(&EnvValue::NotPresent, &EnvValue::NotUnicode, &EnvValue::NotPresent));
    assert!(config_dir_named(&EnvValue::NotPresent, &EnvValue::NotPresent, &v("/h")));
    assert_eq!(EnvVar::Home.name(), "HOME");
    assert_eq!(EnvVar::ConfigDirOverride.name(), "SPEAKRS_CONFIG_HOME");
}

#[test]
fn database_directories() {
    let home = vec!["/home/a".to_string(), ".config".to_string(), "speakrs".to_string()];
    let client = ClientConfig { database: ClientConfigDatabase { directory: None } };
    assert_eq!(
        client.get_database_directory(&home),
        vec!["/home/a", ".config", "speakrs", "databases", "client"]
    );
    let client = ClientConfig { database: ClientConfigDatabase { directory: Some("/d".to_string()) } };
    assert_eq!(client.get_database_directory(&home), vec!["/d", "client"]);
    let server = ServerConfig { database: ServerConfigDatabase { directory: None } };
    assert_eq!(
        server.get_database_directory(&home),
        vec!["/home/a", ".config", "speakrs", "databases", "server"]
    );
    let server = ServerConfig { database: ServerConfigDatabase { directory: Some("/s".to_string()) } };
    assert_eq!(server.get_database_directory(&home), vec!["/s", "server"]);
}

#[test]
fn config_sections() {
    let config = Config {
        server: Some(ServerConfig { database: ServerConfigDatabase { directory: Some("/s".to_string()) } }),
        client: None,
    };
    assert_eq!(config.clone_server().unwrap().database.directory, Some("/s".to_string()));
    assert!(config.clone_client().is_none());
}

#[test]
fn valid_names() {
    assert!(is_valid_username("alice"));
    assert!(!is_valid_username("al ice"));
    assert!(is_valid_username(""));
    assert!(is_valid_channel_name("general"));
    assert!(!is_valid_channel_name("gen eral"));
    assert!(!is_valid_username("a\tb"));
    assert!(!is_valid_channel_name("a\nb"));
    assert!(!is_valid_username("x\u{3000}y"));
}

#[test]
fn listen_address() {
    let args = ServerArguments { port: 51777, name: "default_server".to_string(), verbose: false, ipv6: false };
    assert_eq!(args.listen_address(), ListenAddress::LocalhostV4(51777));
    let args = ServerArguments { port: 1, name: "x".to_string(), verbose: true, ipv6: true };
    assert_eq!(args.listen_address(), ListenAddress::LocalhostV6(1));
    let c = ClientArguments { gui: false };
    assert!(!c.gui);
}
