use swiss_transport_mcp::config::{Cli, Config, TokenVariables};

fn cli() -> Cli {
    Cli {
        api_token: Some("a".to_string()),
        api_token_env: "OJP2_TOKEN".to_string(),
        gtfs_rt_token: Some("b".to_string()),
        gtfs_rt_token_env: "GTFS_RT_TOKEN".to_string(),
        ojp_endpoint: "https://ojp".to_string(),
        gtfs_rt_endpoint: "https://gtfs".to_string(),
        formation_endpoint: "https://formation".to_string(),
        formation_token: Some("c".to_string()),
        formation_token_env: "FORMATION_TOKEN".to_string(),
        server_name: "sbb-transport".to_string(),
        cache_ttl_seconds: 300,
    }
}

fn none() -> TokenVariables {
    TokenVariables { api_token: None, gtfs_rt_token: None, formation_token: None }
}

fn message(cli: Cli, variables: TokenVariables) -> String {
    Config::from_cli(cli, variables).expect_err("a fault").message
}

#[test]
fn command_line_gives_the_configuration() {
    let config = Config::from_cli(cli(), none()).expect("a configuration");
    assert_eq!(config.api_token, "a");
    assert_eq!(config.gtfs_rt_token, "b");
    assert_eq!(config.formation_token, "c");
    assert_eq!(config.ojp_endpoint, "https://ojp");
    assert_eq!(config.gtfs_rt_endpoint, "https://gtfs");
    assert_eq!(config.formation_endpoint, "https://formation");
    assert_eq!(config.server_name, "sbb-transport");
    assert_eq!(config.cache_ttl_seconds, 300);
}

#[test]
fn command_line_wins_over_variables() {
    let variables = TokenVariables {
        api_token: Some("x".to_string()),
        gtfs_rt_token: Some("y".to_string()),
        formation_token: Some("z".to_string()),
    };
    let config = Config::from_cli(cli(), variables).expect("a configuration");
    assert_eq!(config.api_token, "a");
    let mut bare = cli();
    bare.api_token = None;
    let variables = TokenVariables { api_token: Some("x".to_string()), ..none() };
    let config = Config::from_cli(bare, variables).expect("a configuration");
    assert_eq!(config.api_token, "x");
}

#[test]
fn missing_tokens_are_reported_in_order() {
    let mut bare = cli();
    bare.api_token = None;
    bare.gtfs_rt_token = None;
    assert_eq!(
        message(bare, none()),
        "missing OJP token: set OJP2_TOKEN or pass --api-token (Codex MCP stdio: whitelist this env via mcp_servers.<id>.env_vars)"
    );
    let mut bare = cli();
    bare.gtfs_rt_token = None;
    assert_eq!(
        message(bare, none()),
        "missing GTFS-RT token: set GTFS_RT_TOKEN or pass --gtfs-rt-token (Codex MCP stdio: whitelist this env via mcp_servers.<id>.env_vars)"
    );
    let mut bare = cli();
    bare.formation_token = None;
    assert_eq!(
        message(bare, none()),
        "missing Train Formation token: set FORMATION_TOKEN or pass --formation-token (Codex MCP stdio: whitelist this env via mcp_servers.<id>.env_vars)"
    );
}

#[test]
fn blank_tokens_and_a_zero_lifetime_are_refused() {
    let mut blank = cli();
    blank.api_token = Some(" ".to_string());
    assert_eq!(message(blank, none()), "OJP token must not be empty");
    let mut blank = cli();
    blank.gtfs_rt_token = Some(String::new());
    assert_eq!(message(blank, none()), "GTFS-RT token must not be empty");
    let mut blank = cli();
    blank.formation_token = Some("\t".to_string());
    assert_eq!(message(blank, none()), "Train Formation token must not be empty");
    let mut zero = cli();
    zero.cache_ttl_seconds = 0;
    zero.api_token = None;
    assert_eq!(message(zero, none()), "cache ttl seconds must be greater than 0");
}
