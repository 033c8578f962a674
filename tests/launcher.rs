use prismlauncher::address::{resolve, Address, GameMode, Hostname};
use prismlauncher::launcher::{self, launch, query_arguments, LaunchParameters, LauncherError, Query};

fn strings(v: &[&str]) -> Vec<String> {
    v.iter().map(|s| s.to_string()).collect()
}

#[test]
fn data_directory() {
    let output = launcher::data_directory(b"/home/user/.local/share/PrismLauncher".to_vec());
    assert_eq!(output, Ok("/home/user/.local/share/PrismLauncher".to_string()));
    println!("data directory located at {}", output.unwrap());
}

#[test]
fn list_accounts() {
    let output = launcher::list_accounts(b"alice bob\n  carol\t\n".to_vec());
    assert_eq!(output, Ok(strings(&["alice", "bob", "carol"])));
    println!("Accounts: {:#?}", output);
}

#[test]
fn version() {
    let output = launcher::version(b"PrismLauncher 9.4".to_vec());
    assert_eq!(output, Ok("9.4".to_string()));
    println!("Version {}", output.unwrap());
}

#[test]
fn launch_args_for_instance_only() {
    let args = launch(LaunchParameters {
        instance_id: "test".to_string(),
        gamemode: None,
        profile: None,
    });
    assert_eq!(args, strings(&["--launch", "test"]));
}

#[test]
fn launch_args_for_server_from_submitted_text() {
    let gamemode = resolve(true, "192.168.1.5".to_string());
    let args = launch(LaunchParameters {
        instance_id: "test".to_string(),
        gamemode: Some(gamemode),
        profile: None,
    });
    assert_eq!(args, strings(&["--launch", "test", "--server", "192.168.1.5:25565"]));
}

#[test]
fn launch_args_for_world() {
    let gamemode = resolve(false, "myworld".to_string());
    let args = launch(LaunchParameters {
        instance_id: "test".to_string(),
        gamemode: Some(gamemode),
        profile: None,
    });
    assert_eq!(args, strings(&["--launch", "test", "--world", "myworld"]));
}

#[test]
fn launch_args_with_profile_and_ipv6_server() {
    let gamemode = resolve(true, "2001:DB8:0:0:0:0:0:1".to_string());
    let args = launch(LaunchParameters {
        instance_id: "inst".to_string(),
        gamemode: Some(gamemode),
        profile: Some("alice".to_string()),
    });
    assert_eq!(
        args,
        strings(&["--launch", "inst", "--server", "2001:db8::1:25565", "--profile", "alice"])
    );
}

#[test]
fn launch_args_with_dns_server_and_port() {
    let gamemode = GameMode::MultiPlayer(Address {
        hostname: Hostname::Dns("play.example.org".to_string()),
        port: 7,
    });
    let args = launch(LaunchParameters {
        instance_id: "i".to_string(),
        gamemode: Some(gamemode),
        profile: None,
    });
    assert_eq!(args, strings(&["--launch", "i", "--server", "play.example.org:7"]));
}

#[test]
fn query_argument_lists() {
    assert_eq!(query_arguments(Query::DataDirectory), strings(&["--get-directory"]));
    assert_eq!(query_arguments(Query::ListAccounts), strings(&["--list-accounts"]));
    assert_eq!(query_arguments(Query::Version), strings(&["--version"]));
}

#[test]
fn output_that_is_not_utf8_is_refused() {
    let bad = vec![0x66, 0xff, 0x6f];
    assert_eq!(launcher::data_directory(bad.clone()), Err(LauncherError::EncodingError));
    assert_eq!(launcher::list_accounts(bad.clone()), Err(LauncherError::EncodingError));
    assert_eq!(launcher::version(bad), Err(LauncherError::EncodingError));
}

#[test]
fn utf8_output_is_decoded() {
    let output = launcher::data_directory("/home/zoë".as_bytes().to_vec());
    assert_eq!(output, Ok("/home/zoë".to_string()));
}

#[test]
fn accounts_split_on_unicode_spaces() {
    let output = launcher::list_accounts("a\u{3000}b\u{a0}c  ".as_bytes().to_vec());
    assert_eq!(output, Ok(strings(&["a", "b", "c"])));
    assert_eq!(launcher::list_accounts(b"   \n".to_vec()), Ok(vec![]));
    assert_eq!(launcher::list_accounts(vec![]), Ok(vec![]));
}

#[test]
fn version_without_prefix_is_kept() {
    assert_eq!(launcher::version(b"9.4".to_vec()), Ok("9.4".to_string()));
    assert_eq!(launcher::version(b"PrismLauncher".to_vec()), Ok("PrismLauncher".to_string()));
    assert_eq!(launcher::version(b"PrismLauncher 8.0\n".to_vec()), Ok("8.0\n".to_string()));
}
