use moneropay::boot::{
    accepts_self_signed, bootstrap_announcement, bootstrap_self_hosted_tenant, count_failure,
    first_scan, network_name, next_delivery, next_scan, parse_args, supervise,
    wallet_to_bootstrap, Args, BootFailure, LoopEnd, PaymentConfig, ScanAction, WalletConfig,
};
use moneropay::http::Network;
use moneropay::wallets::{register_all_tenants, WalletHandles};

fn args(words: &[&str]) -> Args {
    parse_args(&words.iter().map(|w| w.to_string()).collect::<Vec<String>>())
}

fn wallet() -> WalletConfig {
    WalletConfig {
        primary_address: "5primary".to_string(),
        network: "stagenet".to_string(),
        allowed_origins: vec!["https://a.example".to_string(), "https://b.example".to_string()],
    }
}

fn payment(zero_conf_max_xmr: Option<&str>) -> PaymentConfig {
    PaymentConfig {
        confirmations_required: 10,
        zero_conf_max_xmr: zero_conf_max_xmr.map(|s| s.to_string()),
        order_expiry_minutes: 15,
    }
}

#[test]
fn no_arguments_mean_the_default_configuration() {
    let parsed = args(&[]);
    assert_eq!(parsed.config_path, "moneropay.toml");
    assert!(!parsed.strict_tls);
}

#[test]
fn the_flag_may_stand_anywhere() {
    for words in [
        ["--strict-tls", "a.toml"],
        ["a.toml", "--strict-tls"],
    ] {
        let parsed = args(&words);
        assert_eq!(parsed.config_path, "a.toml");
        assert!(parsed.strict_tls);
    }
    assert_eq!(args(&["--strict-tls"]).config_path, "moneropay.toml");
}

#[test]
fn the_last_name_wins() {
    assert_eq!(args(&["a.toml", "b.toml"]).config_path, "b.toml");
    assert_eq!(args(&["a.toml", "--strict"]).config_path, "--strict");
}

#[test]
fn strict_tls_refuses_self_signed_certificates() {
    let lax = args(&[]);
    let strict = args(&["--strict-tls"]);
    assert!(accepts_self_signed(true, &lax));
    assert!(!accepts_self_signed(false, &lax));
    assert!(!accepts_self_signed(true, &strict));
    assert!(!accepts_self_signed(false, &strict));
}

#[test]
fn boot_failures_are_worded() {
    let load = BootFailure::Load { path: "a.toml".to_string(), reason: "gone".to_string() };
    assert_eq!(load.message(), "failed to load config from a.toml: gone");
    let invalid = BootFailure::Invalid { reason: "no node".to_string() };
    assert_eq!(invalid.message(), "invalid config: no node");
    let node = BootFailure::Node { network: Network::Mainnet, reason: "bad host".to_string() };
    assert_eq!(
        node.message(),
        "failed to build Monero daemon RPC client for Mainnet: bad host"
    );
}

#[test]
fn a_tenant_is_bootstrapped_once() {
    let configured = Some(wallet());
    let chosen = wallet_to_bootstrap(&configured, Some(0));
    assert_eq!(chosen.map(|w| w.primary_address.as_str()), Some("5primary"));
    assert!(wallet_to_bootstrap(&configured, None).is_none());
    assert!(wallet_to_bootstrap(&configured, Some(1)).is_none());
    assert!(wallet_to_bootstrap(&None, Some(0)).is_none());
}

#[test]
fn the_bootstrapped_tenant_takes_over_the_configuration() {
    let tenant =
        bootstrap_self_hosted_tenant(&wallet(), &payment(Some("0.0067")), vec![1, 2, 3]);
    assert_eq!(tenant.key_custody_backend, "plain");
    assert_eq!(tenant.sealed_key_material, vec![1, 2, 3]);
    assert_eq!(tenant.primary_address, "5primary");
    assert_eq!(tenant.network, "stagenet");
    assert_eq!(tenant.allowed_origins, vec!["https://a.example", "https://b.example"]);
    assert_eq!(tenant.confirmations_required, Some(10));
    assert_eq!(tenant.zero_conf_max_piconero, Some(6_700_000_000));
    assert_eq!(tenant.order_expiry_seconds, Some(900));
}

#[test]
fn a_zero_conf_limit_that_is_no_amount_is_dropped() {
    for limit in [None, Some("abc"), Some("99999999")] {
        let tenant = bootstrap_self_hosted_tenant(&wallet(), &payment(limit), vec![]);
        assert_eq!(tenant.zero_conf_max_piconero, None);
    }
}

#[test]
fn the_operator_is_told_of_the_tenant() {
    let (public_line, secret_line) = bootstrap_announcement("pk_1", "sk_1");
    assert_eq!(
        public_line,
        "bootstrapped self-hosted tenant: public_key=pk_1 (save this - it goes in your site's JS)"
    );
    assert_eq!(
        secret_line,
        "bootstrap admin secret: sk_1 (shown once - store it now, e.g. in a password manager)"
    );
}

#[test]
fn a_loop_that_returns_is_restarted() {
    let done = supervise("chain scanner", &LoopEnd::Returned);
    assert_eq!(
        done.line,
        "BUG: chain scanner loop returned; it is not supposed to terminate. Restarting in 5s."
    );
    assert_eq!(done.restart_after_seconds, Some(5));
}

#[test]
fn a_loop_that_panics_is_restarted() {
    let done = supervise("webhook delivery", &LoopEnd::Panicked { error: "boom".to_string() });
    assert_eq!(
        done.line,
        "FATAL: webhook delivery loop PANICKED: boom. No webhook delivery work is happening \
         until it restarts. Restarting in 5s."
    );
    assert_eq!(done.restart_after_seconds, Some(5));
}

#[test]
fn a_cancelled_loop_stays_down() {
    let done = supervise("chain scanner", &LoopEnd::Cancelled { error: "shutdown".to_string() });
    assert_eq!(done.line, "chain scanner loop was cancelled: shutdown. Not restarting.");
    assert_eq!(done.restart_after_seconds, None);
}

#[test]
fn a_failed_count_is_told_of() {
    assert_eq!(
        count_failure("locked"),
        "failed to count tenants, so none is bootstrapped: locked"
    );
}

#[test]
fn deliveries_go_on_whatever_came_of_the_last() {
    let quiet = next_delivery(&Ok(()));
    assert_eq!((quiet.line, quiet.tick_after_seconds), (None, 5));
    let failed = next_delivery(&Err("timeout".to_string()));
    assert_eq!(failed.line, Some("webhook delivery tick failed: timeout".to_string()));
    assert_eq!(failed.tick_after_seconds, 5);
}

#[test]
fn a_round_scans_every_network_whatever_fails() {
    let networks = vec![Network::Mainnet, Network::Testnet];
    assert_eq!(
        first_scan(&networks),
        ScanAction::Tick { index: 0, network: Network::Mainnet }
    );
    let failed = next_scan(&networks, 0, &Err("no node".to_string()));
    assert_eq!(failed.line, Some("scan tick failed for Mainnet: no node".to_string()));
    assert_eq!(failed.action, ScanAction::Tick { index: 1, network: Network::Testnet });
    let quiet = next_scan(&networks, 0, &Ok(()));
    assert_eq!((quiet.line, quiet.action), (None, failed.action));
    let last = next_scan(&networks, 1, &Err("slow".to_string()));
    assert_eq!(last.line, Some("scan tick failed for Testnet: slow".to_string()));
    assert_eq!(last.action, ScanAction::PauseThenSnapshot);
    assert_eq!(first_scan(&vec![]), ScanAction::PauseThenSnapshot);
    assert_eq!(network_name(Network::Stagenet), "Stagenet");
}

#[test]
fn tenants_that_cannot_be_unsealed_do_not_stop_the_others() {
    let (wallets, log) = register_all_tenants(vec![
        ("a".to_string(), Ok(1u32)),
        ("b".to_string(), Err("bad seal".to_string())),
        ("c".to_string(), Ok(3u32)),
    ]);
    let mut handles = wallets.snapshot();
    handles.sort();
    assert_eq!(handles, vec![("a".to_string(), 1), ("c".to_string(), 3)]);
    assert_eq!(log, vec!["failed to register tenant b with key custody: bad seal"]);
}

#[test]
fn a_later_handle_replaces_an_earlier_one() {
    let mut wallets: WalletHandles<u32> = WalletHandles::new();
    assert_eq!(wallets.snapshot(), vec![]);
    wallets.insert("a".to_string(), 1);
    wallets.insert("b".to_string(), 2);
    wallets.insert("a".to_string(), 3);
    assert_eq!(wallets.register("b".to_string(), Ok(4)), None);
    let mut handles = wallets.snapshot();
    handles.sort();
    assert_eq!(handles, vec![("a".to_string(), 3), ("b".to_string(), 4)]);
}
