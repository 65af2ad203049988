//! The Lightning node a torrc file selects, and the plain bodies exchanged with the
//! wallet endpoints.

use vstd::prelude::*;
use crate::text::{append, chars_of, eq_str, owned, parse_bool, parse_bool_chars};
use crate::torrc_parser::{opt_view, LightningConfig, LightningConfigView};

verus! {

/// How to reach a Lightning node.
#[derive(Debug, Clone)]
pub struct NodeConfig {
    pub node_type: String,
    pub url: String,
    /// The credential: a macaroon for LND, a rune for CLN, a password for phoenixd.
    pub auth_token: Option<String>,
    pub socks5_proxy: Option<String>,
    pub accept_invalid_certs: Option<bool>,
}

/// A request for an invoice.
#[derive(Debug, Clone)]
pub struct CreateInvoiceRequest {
    pub amount_sats: Option<u64>,
    pub description: Option<String>,
    pub expiry_seconds: Option<u64>,
}

/// An invoice or an offer.
#[derive(Debug, Clone)]
pub struct CreateInvoiceResponse {
    pub payment_request: String,
    pub payment_hash: String,
    pub amount_sats: Option<u64>,
    pub expiry: Option<u64>,
}

/// The outcome of a payment.
#[derive(Debug, Clone)]
pub struct PayInvoiceResponse {
    pub payment_hash: String,
    pub payment_preimage: Option<String>,
    pub amount_paid_sats: u64,
    pub fee_paid_sats: u64,
    /// `succeeded`, `failed` or `pending`.
    pub status: String,
}

/// A wallet's balances.
#[derive(Debug, Clone)]
pub struct WalletBalanceResponse {
    pub total_balance_sats: u64,
    pub confirmed_balance_sats: u64,
    pub unconfirmed_balance_sats: u64,
    pub locked_balance_sats: Option<u64>,
}

/// One transaction of the wallet.
#[derive(Debug, Clone)]
pub struct TransactionResponse {
    pub payment_hash: String,
    pub created_at: i64,
    pub amount_msats: i64,
    pub preimage: Option<String>,
    pub payer_note: Option<String>,
    pub settled_at: Option<i64>,
}

/// The wallet's transactions.
#[derive(Debug, Clone)]
pub struct ListTransactionsResponse {
    pub transactions: Vec<TransactionResponse>,
}

/// Whether certificates that do not verify are accepted: `ACCEPT_INVALID_CERTS` when it
/// reads `true` or `false`, else yes.
pub open spec fn accept_invalid_spec(var: Option<Seq<char>>) -> bool {
    match var {
        Some(v) => match parse_bool(v) {
            Some(b) => b,
            None => true,
        },
        None => true,
    }
}

/// The node a torrc file selects: the node types `phoenixd`, `lnd` and `cln` are
/// supported, with the credential as their token.
pub open spec fn node_config_spec(
    parsed: Result<Option<LightningConfigView>, Seq<char>>,
) -> Result<LightningConfigView, Seq<char>> {
    match parsed {
        Err(e) => Err(e),
        Ok(None) => Err("No PaymentLightningNodeConfig found in torrc file"@),
        Ok(Some(c)) => if c.node_type == "phoenixd"@ || c.node_type == "lnd"@ || c.node_type == "cln"@ {
            Ok(c)
        } else {
            Err("Unsupported node type from torrc: "@ + c.node_type)
        },
    }
}

/// The view of the result of reading a torrc file's node configuration.
pub open spec fn parsed_view(p: Result<Option<LightningConfig>, String>) -> Result<
    Option<LightningConfigView>,
    Seq<char>,
> {
    match p {
        Ok(Some(c)) => Ok(Some(c@)),
        Ok(None) => Ok(None),
        Err(e) => Err(e@),
    }
}

/// How to reach the node a torrc file selects, given what was read from the file
/// (see `parse_lightning_config_from_torrc`), `ACCEPT_INVALID_CERTS` and `SOCKS5_PROXY`.
pub fn node_config_from_torrc(
    parsed: Result<Option<LightningConfig>, String>,
    accept_invalid_var: &Option<String>,
    socks5_var: &Option<String>,
) -> (r: Result<NodeConfig, String>)
    ensures
        match node_config_spec(parsed_view(parsed)) {
            Ok(c) => r matches Ok(n) && n.node_type@ == c.node_type && n.url@ == c.url && opt_view(n.auth_token)
                == Some(c.password) && opt_view(n.socks5_proxy) == opt_view(*socks5_var)
                && n.accept_invalid_certs == Some(accept_invalid_spec(opt_view(*accept_invalid_var))),
            Err(e) => r matches Err(m) && m@ == e,
        },
{
    let accept = match accept_invalid_var {
        Some(v) => {
            let cs = chars_of(v.as_str());
            match parse_bool_chars(cs.as_slice()) {
                Some(b) => b,
                None => true,
            }
        },
        None => true,
    };
    let config = match parsed {
        Err(e) => {
            return Err(e);
        },
        Ok(None) => {
            return Err(owned("No PaymentLightningNodeConfig found in torrc file"));
        },
        Ok(Some(c)) => c,
    };
    let nt = config.node_type.as_str();
    if eq_str(nt, "phoenixd") || eq_str(nt, "lnd") || eq_str(nt, "cln") {
        let socks5_proxy = match socks5_var {
            Some(s) => Some(s.clone()),
            None => None,
        };
        Ok(
            NodeConfig {
                node_type: config.node_type.clone(),
                url: config.url.clone(),
                auth_token: Some(config.password.clone()),
                socks5_proxy,
                accept_invalid_certs: Some(accept),
            },
        )
    } else {
        let mut m = owned("Unsupported node type from torrc: ");
        append(&mut m, nt);
        Err(m)
    }
}

/// The wallet status message for the node type in use, if any.
pub fn wallet_status_message(node_type: &Option<String>) -> (r: String)
    ensures
        r@ == match opt_view(*node_type) {
            Some(t) => "Lightning wallet connected ("@ + t + ")"@,
            None => "Lightning wallet not connected"@,
        },
{
    match node_type {
        Some(t) => {
            let mut m = owned("Lightning wallet connected (");
            append(&mut m, t.as_str());
            append(&mut m, ")");
            m
        },
        None => owned("Lightning wallet not connected"),
    }
}

} // verus!
