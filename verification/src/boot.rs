//! Starting the service, and keeping its background work alive.

use vstd::prelude::*;

use crate::exchange_rate;
use crate::exchange_rate::parse_xmr_to_piconero;
use crate::http::Network;
use crate::store::NewTenant;
use crate::text;

verus! {

/// The configuration file that is read when the command line names none.
pub const DEFAULT_CONFIG_PATH: &'static str = "moneropay.toml";

/// The flag that refuses self-signed certificates whatever the configuration says.
pub const STRICT_TLS_FLAG: &'static str = "--strict-tls";

/// How long a background loop that died stays down, and how long webhook delivery pauses
/// between two rounds.
pub const PAUSE_SECONDS: u64 = 5;

/// The command line.
#[derive(Debug)]
pub struct Args {
    pub config_path: String,
    pub strict_tls: bool,
}

/// The flag stands among the arguments.
pub open spec fn asks_for_strict_tls(args: Seq<String>) -> bool {
    exists|i: int| 0 <= i < args.len() && #[trigger] args[i]@ == STRICT_TLS_FLAG@
}

/// The configuration file that the arguments name: the last of them that is no flag.
pub open spec fn named_config(args: Seq<String>) -> Seq<char>
    decreases args.len(),
{
    if args.len() == 0 {
        DEFAULT_CONFIG_PATH@
    } else if args.last()@ != STRICT_TLS_FLAG@ {
        args.last()@
    } else {
        named_config(args.drop_last())
    }
}

/// Reads the arguments, without the name of the program.
pub fn parse_args(args: &Vec<String>) -> (r: Args)
    ensures
        r.config_path@ == named_config(args@),
        r.strict_tls == asks_for_strict_tls(args@),
        r.strict_tls == (exists|i: int|
            0 <= i < args@.len() && #[trigger] args@[i]@ == "--strict-tls"@),
        forall|i: int|
            0 <= i < args@.len() && #[trigger] args@[i]@ != "--strict-tls"@ && (forall|j: int|
                i < j < args@.len() ==> #[trigger] args@[j]@ == "--strict-tls"@)
                ==> r.config_path@ == args@[i]@,
        (forall|i: int| 0 <= i < args@.len() ==> #[trigger] args@[i]@ == "--strict-tls"@)
            ==> r.config_path@ == "moneropay.toml"@,
{
    proof {
        the_last_argument_names_the_config(args@);
    }
    let mut config_path: String = DEFAULT_CONFIG_PATH.to_string();
    let mut strict_tls: bool = false;
    let mut i: usize = 0;
    assert(args@.take(0) =~= Seq::empty());
    while i < args.len()
        invariant
            i <= args@.len(),
            config_path@ == named_config(args@.take(i as int)),
            strict_tls == asks_for_strict_tls(args@.take(i as int)),
        decreases args@.len() - i,
    {
        let ghost before = args@.take(i as int);
        let ghost after = args@.take(i + 1);
        assert(after.drop_last() =~= before);
        assert(after.last() == args@[i as int]);
        if text::str_eq(args[i].as_str(), STRICT_TLS_FLAG) {
            strict_tls = true;
            assert(after[i as int]@ == STRICT_TLS_FLAG@);
        } else {
            config_path = args[i].clone();
            assert(asks_for_strict_tls(after) == asks_for_strict_tls(before)) by {
                assert forall|j: int| 0 <= j < i implies before[j] == after[j] by {}
                if asks_for_strict_tls(before) {
                    let j = choose|j: int|
                        0 <= j < before.len() && #[trigger] before[j]@ == STRICT_TLS_FLAG@;
                    assert(after[j]@ == STRICT_TLS_FLAG@);
                }
                if asks_for_strict_tls(after) {
                    let j = choose|j: int|
                        0 <= j < after.len() && #[trigger] after[j]@ == STRICT_TLS_FLAG@;
                    assert(before[j]@ == STRICT_TLS_FLAG@);
                }
            }
        }
        i = i + 1;
    }
    assert(args@.take(i as int) =~= args@);
    Args { config_path, strict_tls }
}

/// A node's self-signed certificate is accepted.
pub open spec fn accepted(configured: bool, strict_tls: bool) -> bool {
    configured && !strict_tls
}

/// Whether a node's self-signed certificate is accepted, given what its configuration says.
pub fn accepts_self_signed(configured: bool, args: &Args) -> (r: bool)
    ensures
        r == accepted(configured, args.strict_tls),
        r <==> configured && !args.strict_tls,
{
    configured && !args.strict_tls
}

/// Law: the flag, wherever it stands on the command line, overrides every node's
/// configuration; without it the configuration stands.
pub proof fn strict_tls_overrides_every_node(args: Seq<String>, configured: bool)
    ensures
        accepted(configured, asks_for_strict_tls(args)) == (configured && forall|i: int|
            0 <= i < args.len() ==> #[trigger] args[i]@ != STRICT_TLS_FLAG@),
{
}

/// Law: flags do not hide the name of the configuration file, nor stand in for it.
pub proof fn flags_do_not_name_the_config(args: Seq<String>, flag: String)
    requires
        flag@ == STRICT_TLS_FLAG@,
    ensures
        named_config(args.push(flag)) == named_config(args),
        named_config(args) != STRICT_TLS_FLAG@,
    decreases args.len(),
{
    assert(args.push(flag).drop_last() =~= args);
    if args.len() == 0 {
        reveal_strlit("moneropay.toml");
        reveal_strlit("--strict-tls");
        assert(DEFAULT_CONFIG_PATH@.len() == 14);
        assert(STRICT_TLS_FLAG@.len() == 12);
    } else {
        flags_do_not_name_the_config(args.drop_last(), flag);
    }
}

/// Why the service could not start.
#[derive(Debug)]
pub enum BootFailure {
    /// The configuration file could not be loaded.
    Load { path: String, reason: String },
    /// The configuration makes no sense.
    Invalid { reason: String },
    /// The client of a network's node could not be built.
    Node { network: Network, reason: String },
}

/// The name of a network.
pub open spec fn network_text(network: Network) -> Seq<char> {
    match network {
        Network::Mainnet => "Mainnet"@,
        Network::Stagenet => "Stagenet"@,
        Network::Testnet => "Testnet"@,
    }
}

/// The name of a network, as it is logged.
pub fn network_name(network: Network) -> (r: &'static str)
    ensures
        r@ == network_text(network),
        network is Mainnet ==> r@ == "Mainnet"@,
        network is Stagenet ==> r@ == "Stagenet"@,
        network is Testnet ==> r@ == "Testnet"@,
{
    match network {
        Network::Mainnet => "Mainnet",
        Network::Stagenet => "Stagenet",
        Network::Testnet => "Testnet",
    }
}

/// The words for a [`BootFailure`].
pub open spec fn boot_failure_text(e: BootFailure) -> Seq<char> {
    match e {
        BootFailure::Load { path, reason } => "failed to load config from "@ + path@ + ": "@
            + reason@,
        BootFailure::Invalid { reason } => "invalid config: "@ + reason@,
        BootFailure::Node { network, reason } => "failed to build Monero daemon RPC client for "@
            + network_text(network) + ": "@ + reason@,
    }
}

impl BootFailure {
    /// What is told before the service ends.
    pub fn message(&self) -> (r: String)
        ensures
            r@ == boot_failure_text(*self),
            *self matches BootFailure::Load { path, reason } ==> r@
                == "failed to load config from "@ + path@ + ": "@ + reason@,
            *self matches BootFailure::Invalid { reason } ==> r@ == "invalid config: "@ + reason@,
            *self matches BootFailure::Node { network, reason } ==> r@
                == "failed to build Monero daemon RPC client for "@ + (match network {
                Network::Mainnet => "Mainnet"@,
                Network::Stagenet => "Stagenet"@,
                Network::Testnet => "Testnet"@,
            }) + ": "@ + reason@,
    {
        match self {
            BootFailure::Load { path, reason } => {
                let mut out = text::join("failed to load config from ", path.as_str());
                out.append(": ");
                out.append(reason.as_str());
                out
            },
            BootFailure::Invalid { reason } => text::join("invalid config: ", reason.as_str()),
            BootFailure::Node { network, reason } => {
                let mut out = text::join(
                    "failed to build Monero daemon RPC client for ",
                    network_name(*network),
                );
                out.append(": ");
                out.append(reason.as_str());
                out
            },
        }
    }
}

/// The wallet of a self-hosted deployment, as far as its tenant takes it over.
#[derive(Debug)]
pub struct WalletConfig {
    pub primary_address: String,
    pub network: String,
    pub allowed_origins: Vec<String>,
}

/// How a self-hosted deployment takes payments.
#[derive(Debug)]
pub struct PaymentConfig {
    pub confirmations_required: u64,
    /// The most, in XMR, that counts as paid before it is mined.
    pub zero_conf_max_xmr: Option<String>,
    pub order_expiry_minutes: i64,
}

/// The deployment still needs its tenant: it has a wallet, and storage is known to hold no
/// tenant. A count that failed may hide one.
pub open spec fn lacks_its_tenant(has_wallet: bool, tenants: Option<u64>) -> bool {
    has_wallet && (tenants matches Some(n) && n == 0)
}

/// The wallet to create the self-hosted tenant for, if it is to be created, given the number
/// of tenants, or `None` when they could not be counted.
pub fn wallet_to_bootstrap(wallet: &Option<WalletConfig>, tenants: Option<u64>) -> (r: Option<
    &WalletConfig,
>)
    ensures
        match r {
            Some(chosen) => lacks_its_tenant(wallet is Some, tenants) && *wallet == Some(*chosen),
            None => !lacks_its_tenant(wallet is Some, tenants),
        },
        r is Some <==> wallet is Some && tenants == Some(0u64),
        r matches Some(chosen) ==> *wallet == Some(*chosen),
{
    match (wallet, tenants) {
        (Some(wallet), Some(n)) => if n == 0 {
            Some(wallet)
        } else {
            None
        },
        _ => None,
    }
}

/// Law: a deployment is given its tenant once, on its first boot. No restart creates another:
/// neither when storage counts a tenant, nor when it cannot count them.
pub proof fn bootstrap_happens_once(has_wallet: bool, tenants: Option<u64>)
    requires
        tenants != Some(0u64),
    ensures
        !lacks_its_tenant(has_wallet, tenants),
{
}

/// What the operator is told when the tenants could not be counted.
pub fn count_failure(reason: &str) -> (r: String)
    ensures
        r@ == "failed to count tenants, so none is bootstrapped: "@ + reason@,
{
    text::join("failed to count tenants, so none is bootstrapped: ", reason)
}

/// The most that counts as paid before it is mined, in piconero. A limit that is no amount
/// is no limit at all: nothing counts before it is mined.
pub open spec fn zero_conf_limit(configured: Option<String>) -> Option<nat> {
    match configured {
        None => None,
        Some(xmr) => match exchange_rate::piconero(xmr@) {
            Ok(n) => Some(n),
            Err(_) => None,
        },
    }
}

/// `tenant` is the self-hosted tenant of this configuration and these sealed keys.
pub open spec fn is_self_hosted(
    tenant: NewTenant,
    wallet: WalletConfig,
    payment: PaymentConfig,
    sealed: Vec<u8>,
) -> bool {
    &&& tenant.key_custody_backend@ == "plain"@
    &&& tenant.sealed_key_material == sealed
    &&& tenant.primary_address == wallet.primary_address
    &&& tenant.network == wallet.network
    &&& tenant.allowed_origins@ == wallet.allowed_origins@
    &&& tenant.confirmations_required == Some(payment.confirmations_required)
    &&& match zero_conf_limit(payment.zero_conf_max_xmr) {
        Some(n) => tenant.zero_conf_max_piconero matches Some(limit) && limit == n,
        None => tenant.zero_conf_max_piconero is None,
    }
    &&& tenant.order_expiry_seconds matches Some(seconds) && seconds == payment.order_expiry_minutes
        * 60
}

/// The tenant that a self-hosted deployment creates on its first boot, for the wallet that
/// [`wallet_to_bootstrap`] gave.
pub fn bootstrap_self_hosted_tenant(
    wallet: &WalletConfig,
    payment: &PaymentConfig,
    sealed: Vec<u8>,
) -> (r: NewTenant)
    requires
        i64::MIN <= payment.order_expiry_minutes * 60 <= i64::MAX,
    ensures
        is_self_hosted(r, *wallet, *payment, sealed),
        r.key_custody_backend@ == "plain"@,
        r.sealed_key_material == sealed,
        r.primary_address == wallet.primary_address,
        r.network == wallet.network,
        r.allowed_origins@ == wallet.allowed_origins@,
        r.confirmations_required == Some(payment.confirmations_required),
        r.order_expiry_seconds matches Some(seconds) && seconds == 60
            * payment.order_expiry_minutes,
        match payment.zero_conf_max_xmr {
            None => r.zero_conf_max_piconero is None,
            Some(xmr) => match exchange_rate::piconero(xmr@) {
                Ok(n) => r.zero_conf_max_piconero matches Some(limit) && limit == n,
                Err(_) => r.zero_conf_max_piconero is None,
            },
        },
{
    let zero_conf_max_piconero: Option<u64> = match &payment.zero_conf_max_xmr {
        Some(xmr) => match parse_xmr_to_piconero(xmr.as_str()) {
            Ok(n) => Some(n),
            Err(_) => None,
        },
        None => None,
    };
    NewTenant {
        key_custody_backend: "plain".to_string(),
        sealed_key_material: sealed,
        primary_address: wallet.primary_address.clone(),
        network: wallet.network.clone(),
        allowed_origins: text::clone_texts(&wallet.allowed_origins),
        confirmations_required: Some(payment.confirmations_required),
        zero_conf_max_piconero,
        order_expiry_seconds: Some(payment.order_expiry_minutes * 60),
    }
}

/// What the operator is told of the tenant that was created: its public key, and its admin
/// secret, which is shown this once.
pub fn bootstrap_announcement(public_key: &str, secret_token: &str) -> (r: (String, String))
    ensures
        r.0@ == "bootstrapped self-hosted tenant: public_key="@ + public_key@
            + " (save this - it goes in your site's JS)"@,
        r.1@ == "bootstrap admin secret: "@ + secret_token@
            + " (shown once - store it now, e.g. in a password manager)"@,
{
    let mut public_line = text::join("bootstrapped self-hosted tenant: public_key=", public_key);
    public_line.append(" (save this - it goes in your site's JS)");
    let mut secret_line = text::join("bootstrap admin secret: ", secret_token);
    secret_line.append(" (shown once - store it now, e.g. in a password manager)");
    (public_line, secret_line)
}

/// How a background loop ended.
#[derive(Debug)]
pub enum LoopEnd {
    Returned,
    Panicked { error: String },
    Cancelled { error: String },
}

/// What a supervisor does about it: a line for the log, and the seconds after which the
/// loop is started again, or `None` when it is not.
#[derive(Debug)]
pub struct Supervision {
    pub line: String,
    pub restart_after_seconds: Option<u64>,
}

/// What is logged of a loop that ended.
pub open spec fn loop_end_text(name: Seq<char>, end: LoopEnd) -> Seq<char> {
    match end {
        LoopEnd::Returned => "BUG: "@ + name
            + " loop returned; it is not supposed to terminate. Restarting in 5s."@,
        LoopEnd::Panicked { error } => "FATAL: "@ + name + " loop PANICKED: "@ + error@ + ". No "@
            + name + " work is happening until it restarts. Restarting in 5s."@,
        LoopEnd::Cancelled { error } => name + " loop was cancelled: "@ + error@
            + ". Not restarting."@,
    }
}

/// Decides what becomes of a background loop that ended.
///
/// A loop that dies unseen is the worst that can happen here: orders are still taken and
/// paid, and nobody notices the payments. So it is told of and started again, after a
/// pause, because what made it panic is likely to hold for a moment longer.
pub fn supervise(name: &str, end: &LoopEnd) -> (r: Supervision)
    ensures
        r.line@ == loop_end_text(name@, *end),
        r.restart_after_seconds == (if end is Cancelled {
            None::<u64>
        } else {
            Some(PAUSE_SECONDS)
        }),
        *end is Returned ==> r.restart_after_seconds == Some(5u64) && r.line@ == "BUG: "@ + name@
            + " loop returned; it is not supposed to terminate. Restarting in 5s."@,
        *end matches LoopEnd::Panicked { error } ==> r.restart_after_seconds == Some(5u64)
            && r.line@ == "FATAL: "@ + name@ + " loop PANICKED: "@ + error@ + ". No "@ + name@
            + " work is happening until it restarts. Restarting in 5s."@,
        *end matches LoopEnd::Cancelled { error } ==> r.restart_after_seconds is None && r.line@
            == name@ + " loop was cancelled: "@ + error@ + ". Not restarting."@,
{
    match end {
        LoopEnd::Returned => {
            let mut line = text::join("BUG: ", name);
            line.append(" loop returned; it is not supposed to terminate. Restarting in 5s.");
            Supervision { line, restart_after_seconds: Some(PAUSE_SECONDS) }
        },
        LoopEnd::Panicked { error } => {
            let mut line = text::join("FATAL: ", name);
            line.append(" loop PANICKED: ");
            line.append(error.as_str());
            line.append(". No ");
            line.append(name);
            line.append(" work is happening until it restarts. Restarting in 5s.");
            Supervision { line, restart_after_seconds: Some(PAUSE_SECONDS) }
        },
        LoopEnd::Cancelled { error } => {
            let mut line = text::join(name, " loop was cancelled: ");
            line.append(error.as_str());
            line.append(". Not restarting.");
            Supervision { line, restart_after_seconds: None }
        },
    }
}

/// What follows a round of webhook deliveries: a line for the log, if anything, and the
/// seconds after which the next round starts.
#[derive(Debug)]
pub struct DeliveryStep {
    pub line: Option<String>,
    pub tick_after_seconds: u64,
}

/// Decides what follows a round of webhook deliveries. Whatever came of it, the next one
/// follows after a pause.
pub fn next_delivery(outcome: &Result<(), String>) -> (r: DeliveryStep)
    ensures
        r.tick_after_seconds == PAUSE_SECONDS,
        r.tick_after_seconds == 5,
        match outcome {
            Ok(_) => r.line is None,
            Err(error) => r.line matches Some(line) && line@ == "webhook delivery tick failed: "@
                + error@,
        },
{
    let line: Option<String> = match outcome {
        Ok(_) => None,
        Err(error) => Some(text::join("webhook delivery tick failed: ", error.as_str())),
    };
    DeliveryStep { line, tick_after_seconds: PAUSE_SECONDS }
}

/// What the chain scanner does next.
#[derive(Debug, Clone, Copy, PartialEq, Eq, Structural)]
pub enum ScanAction {
    /// Scans this network, which stands at `index` in the round.
    Tick { index: usize, network: Network },
    /// Pauses, then starts a new round with a fresh snapshot of the wallets.
    PauseThenSnapshot,
}

/// What follows a network's turn: a line for the log, if anything, and what is next.
#[derive(Debug)]
pub struct ScanStep {
    pub line: Option<String>,
    pub action: ScanAction,
}

/// What a round does when it reaches `index`: the turn of the network there, or, behind the
/// last one, the pause.
pub open spec fn scan_at(networks: Seq<Network>, index: int) -> ScanAction {
    if 0 <= index < networks.len() {
        ScanAction::Tick { index: index as usize, network: networks[index] }
    } else {
        ScanAction::PauseThenSnapshot
    }
}

/// Starts a round of the chain scanner.
pub fn first_scan(networks: &Vec<Network>) -> (r: ScanAction)
    ensures
        r == scan_at(networks@, 0),
        networks@.len() == 0 ==> r is PauseThenSnapshot,
        networks@.len() > 0 ==> r == (ScanAction::Tick { index: 0, network: networks@[0] }),
{
    if networks.len() > 0 {
        ScanAction::Tick { index: 0, network: networks[0] }
    } else {
        ScanAction::PauseThenSnapshot
    }
}

/// Decides what follows the turn of the network at `done`. A network that fails does not end
/// the round: the next network has its turn.
pub fn next_scan(networks: &Vec<Network>, done: usize, outcome: &Result<(), String>) -> (r:
    ScanStep)
    requires
        done < networks@.len(),
    ensures
        r.action == scan_at(networks@, done + 1),
        done + 1 == networks@.len() ==> r.action is PauseThenSnapshot,
        done + 1 < networks@.len() ==> r.action == (ScanAction::Tick {
            index: (done + 1) as usize,
            network: networks@[done + 1],
        }),
        match outcome {
            Ok(_) => r.line is None,
            Err(error) => r.line matches Some(line) && line@ == "scan tick failed for "@
                + network_text(networks@[done as int]) + ": "@ + error@,
        },
{
    let line: Option<String> = match outcome {
        Ok(_) => None,
        Err(error) => {
            let mut line = text::join("scan tick failed for ", network_name(networks[done]));
            line.append(": ");
            line.append(error.as_str());
            Some(line)
        },
    };
    let n: usize = networks.len();
    let action: ScanAction = if done + 1 < n {
        ScanAction::Tick { index: done + 1, network: networks[done + 1] }
    } else {
        ScanAction::PauseThenSnapshot
    };
    ScanStep { line, action }
}

/// A round of the chain scanner: it starts where rounds start, each turn is followed by what
/// follows it, and it ends with the pause.
pub open spec fn is_scan_round(networks: Seq<Network>, actions: Seq<ScanAction>) -> bool {
    &&& actions.len() > 0
    &&& actions[0] == scan_at(networks, 0)
    &&& forall|i: int|
        0 <= i < actions.len() - 1 ==> (#[trigger] actions[i] matches ScanAction::Tick {
            index,
            ..
        } && actions[i + 1] == scan_at(networks, index + 1))
    &&& actions.last() is PauseThenSnapshot
}

/// Law: a round gives every configured network exactly one turn, in order, whatever comes of
/// the turns before.
pub proof fn every_network_has_its_turn(networks: Vec<Network>, actions: Seq<ScanAction>)
    requires
        is_scan_round(networks@, actions),
    ensures
        actions.len() == networks@.len() + 1,
        forall|i: int|
            0 <= i < networks@.len() ==> #[trigger] actions[i] == (ScanAction::Tick {
                index: i as usize,
                network: networks@[i],
            }),
{
    lemma_scan_order(networks, actions, actions.len() - 1);
    let last = actions.len() - 1;
    assert(actions[last] == scan_at(networks@, last));
    if last < networks@.len() {
        assert(actions[last] is Tick);
    }
    assert forall|i: int| 0 <= i < networks@.len() implies #[trigger] actions[i] == (
    ScanAction::Tick { index: i as usize, network: networks@[i] }) by {
        lemma_scan_order(networks, actions, i);
    }
}

/// The action at `i` of a round is the turn at `i`, and what stands before it are turns.
proof fn lemma_scan_order(networks: Vec<Network>, actions: Seq<ScanAction>, i: int)
    requires
        is_scan_round(networks@, actions),
        0 <= i < actions.len(),
    ensures
        i <= networks@.len(),
        actions[i] == scan_at(networks@, i),
    decreases i,
{
    assert(networks@.len() == networks.len());
    if i > 0 {
        lemma_scan_order(networks, actions, i - 1);
        assert(actions[i - 1] is Tick);
    }
}

/// Law: the last argument that is not the flag names the configuration file, and a file of the
/// usual name is read when there is none.
pub proof fn the_last_argument_names_the_config(args: Seq<String>)
    ensures
        forall|i: int|
            0 <= i < args.len() && #[trigger] args[i]@ != "--strict-tls"@ && (forall|j: int|
                i < j < args.len() ==> #[trigger] args[j]@ == "--strict-tls"@) ==> named_config(
                args,
            ) == args[i]@,
        (forall|i: int| 0 <= i < args.len() ==> #[trigger] args[i]@ == "--strict-tls"@)
            ==> named_config(args) == "moneropay.toml"@,
    decreases args.len(),
{
    if args.len() > 0 && args.last()@ == "--strict-tls"@ {
        let rest = args.drop_last();
        the_last_argument_names_the_config(rest);
        assert forall|i: int|
            0 <= i < args.len() && #[trigger] args[i]@ != "--strict-tls"@ && (forall|j: int|
                i < j < args.len() ==> #[trigger] args[j]@ == "--strict-tls"@) implies named_config(
            args,
        ) == args[i]@ by {
            assert(rest[i] == args[i]);
            assert forall|j: int| i < j < rest.len() implies #[trigger] rest[j]@
                == "--strict-tls"@ by {
                assert(rest[j] == args[j]);
            }
        }
        if forall|i: int| 0 <= i < args.len() ==> #[trigger] args[i]@ == "--strict-tls"@ {
            assert forall|j: int| 0 <= j < rest.len() implies #[trigger] rest[j]@
                == "--strict-tls"@ by {
                assert(rest[j] == args[j]);
            }
        }
    } else if args.len() > 0 {
        assert forall|i: int|
            0 <= i < args.len() && #[trigger] args[i]@ != "--strict-tls"@ && (forall|j: int|
                i < j < args.len() ==> #[trigger] args[j]@ == "--strict-tls"@) implies named_config(
            args,
        ) == args[i]@ by {
            if i < args.len() - 1 {
                assert(args[args.len() - 1]@ == "--strict-tls"@);
            }
        }
    }
}

/// Law: a deployment with a wallet is given its tenant when storage counts none, and only then.
pub proof fn a_new_deployment_is_given_its_tenant(has_wallet: bool, tenants: Option<u64>)
    ensures
        lacks_its_tenant(has_wallet, tenants) <==> has_wallet && tenants == Some(0u64),
{
}

/// Law: the self-hosted tenant is its configuration's: orders expire after as many minutes as
/// configured, and what counts before it is mined is what the configured amount is worth.
pub proof fn the_self_hosted_tenant_is_as_configured(
    tenant: NewTenant,
    wallet: WalletConfig,
    payment: PaymentConfig,
    sealed: Vec<u8>,
)
    requires
        is_self_hosted(tenant, wallet, payment, sealed),
    ensures
        tenant.key_custody_backend@ == "plain"@,
        tenant.sealed_key_material == sealed,
        tenant.primary_address == wallet.primary_address,
        tenant.network == wallet.network,
        tenant.allowed_origins@ == wallet.allowed_origins@,
        tenant.confirmations_required == Some(payment.confirmations_required),
        tenant.order_expiry_seconds matches Some(seconds) && seconds == 60
            * payment.order_expiry_minutes,
        payment.zero_conf_max_xmr is None ==> tenant.zero_conf_max_piconero is None,
        payment.zero_conf_max_xmr matches Some(xmr) ==> match exchange_rate::piconero(xmr@) {
            Ok(n) => tenant.zero_conf_max_piconero matches Some(limit) && limit == n,
            Err(_) => tenant.zero_conf_max_piconero is None,
        },
{
}

/// Law: a round starts with the first network and goes on to the next one, until it pauses
/// behind the last.
pub proof fn rounds_go_from_network_to_network(networks: Seq<Network>, i: int)
    ensures
        0 <= i < networks.len() && i <= usize::MAX ==> scan_at(networks, i) == (ScanAction::Tick {
            index: i as usize,
            network: networks[i],
        }),
        scan_at(networks, networks.len() as int) is PauseThenSnapshot,
{
}

} // verus!
