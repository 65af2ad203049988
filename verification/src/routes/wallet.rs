//! Managing the payment node configurations through the wallet endpoints.

use vstd::prelude::*;
use crate::lightning::CreateInvoiceResponse;
use crate::state::MessageResponse;
use crate::text::{append, eq_str, is_ws, lacks, lines, owned, string_views};
use crate::torrc_parser::{
    all_configs, config_views, get_all_payment_lightning_configs, get_torrc_config, law_set_then_get,
    modify_payment_lightning_config, modify_spec, opt_view, set_setting_spec, set_torrc_config_line,
    values_of_lines, LightningConfig, LightningConfigView, NodeType, Operation,
};

verus! {

/// A request to add or replace a payment node configuration.
#[derive(Debug, Clone)]
pub struct UpsertLightningConfigRequest {
    /// `phoenixd`, `cln` or `lnd`.
    pub node_type: String,
    pub url: String,
    /// A password, a rune or a macaroon, depending on the node type.
    pub password: String,
    pub set_as_default: bool,
    pub is_embedded: Option<bool>,
}

/// A request to remove a payment node configuration.
#[derive(Debug, Clone)]
pub struct DeleteLightningConfigRequest {
    /// `phoenixd`, `cln` or `lnd`.
    pub node_type: String,
    /// The url of the configuration to remove; without it, the first one of the type.
    pub url: Option<String>,
}

/// A payment node configuration as listed to the user.
#[derive(Debug, Clone)]
pub struct LightningConfigResponse {
    pub node_type: String,
    pub url: String,
    /// `password`, `rune` or `macaroon`.
    pub password_type: String,
    pub password: String,
    pub is_default: bool,
    /// Whether the configuration is for the embedded phoenixd.
    pub is_embedded: Option<bool>,
}

/// All payment node configurations.
#[derive(Debug, Clone)]
pub struct ListLightningConfigsResponse {
    pub configs: Vec<LightningConfigResponse>,
}

/// Why an endpoint refused or failed a request.
#[derive(Debug, Clone)]
pub enum RouteError {
    /// The request itself is wrong (400).
    BadRequest(String),
    /// The server failed (500).
    Internal(String),
    /// No Lightning node is available (503).
    Unavailable(String),
}

/// The node type named exactly by a request.
pub open spec fn request_node_type(s: Seq<char>) -> Option<NodeType> {
    if s == "phoenixd"@ {
        Some(NodeType::Phoenixd)
    } else if s == "cln"@ {
        Some(NodeType::Cln)
    } else if s == "lnd"@ {
        Some(NodeType::Lnd)
    } else {
        None
    }
}

/// The answer to a request naming an unknown node type.
pub open spec fn invalid_type_message() -> Seq<char> {
    "Invalid node type. Must be 'phoenixd', 'cln', or 'lnd'"@
}

/// The node type named by a request; anything but the exact names is refused.
pub fn parse_request_node_type(s: &str) -> (r: Result<NodeType, RouteError>)
    ensures
        match request_node_type(s@) {
            Some(t) => r matches Ok(u) && u == t,
            None => r matches Err(RouteError::BadRequest(m)) && m@ == invalid_type_message(),
        },
{
    if eq_str(s, "phoenixd") {
        Ok(NodeType::Phoenixd)
    } else if eq_str(s, "cln") {
        Ok(NodeType::Cln)
    } else if eq_str(s, "lnd") {
        Ok(NodeType::Lnd)
    } else {
        Err(RouteError::BadRequest(owned("Invalid node type. Must be 'phoenixd', 'cln', or 'lnd'")))
    }
}

/// The position of the first default configuration.
pub open spec fn first_default(cs: Seq<LightningConfigView>) -> Option<int>
    decreases cs.len(),
{
    if cs.len() == 0 {
        None
    } else {
        match first_default(cs.drop_last()) {
            Some(i) => Some(i),
            None => if cs.last().is_default {
                Some(cs.len() - 1)
            } else {
                None
            },
        }
    }
}

/// Whether setting a new default changes the default node's type: only when a default
/// is being set and a previous default exists with another type name.
pub open spec fn type_changed_spec(set_default: bool, prev: Seq<LightningConfigView>, new_type: Seq<char>) -> bool {
    set_default && match first_default(prev) {
        Some(i) => prev[i].node_type != new_type,
        None => false,
    }
}

/// Whether setting a new default changes the default node's type.
pub fn node_type_changed(set_as_default: bool, previous: &Vec<LightningConfig>, new_type: &str) -> (r: bool)
    ensures
        r == type_changed_spec(set_as_default, config_views(previous@), new_type@),
{
    if !set_as_default {
        return false;
    }
    let ghost cv = config_views(previous@);
    let mut i: usize = 0;
    assert(cv.take(0) =~= Seq::<LightningConfigView>::empty());
    while i < previous.len()
        invariant
            i <= previous.len(),
            set_as_default,
            cv == config_views(previous@),
            first_default(cv.take(i as int)) is None,
        decreases previous.len() - i,
    {
        assert(cv.take(i + 1).drop_last() =~= cv.take(i as int));
        assert(cv[i as int] == previous@[i as int]@);
        if previous[i].is_default {
            proof {
                assert(cv.take(i + 1).last() == cv[i as int]);
                assert(first_default(cv.take(i + 1)) == Some(i as int));
                lemma_first_default_prefix(cv, i as int + 1);
                assert(first_default(cv) == Some(i as int));
                assert(cv[i as int].node_type == previous@[i as int].node_type@);
            }
            let same = eq_str(previous[i].node_type.as_str(), new_type);
            return !same;
        }
        i = i + 1;
    }
    assert(cv.take(previous.len() as int) =~= cv);
    false
}

proof fn lemma_first_default_prefix(cs: Seq<LightningConfigView>, n: int)
    requires
        0 <= n <= cs.len(),
        first_default(cs.take(n)) is Some,
    ensures
        first_default(cs) == first_default(cs.take(n)),
    decreases cs.len() - n,
{
    if n < cs.len() {
        assert(cs.take(n + 1).drop_last() =~= cs.take(n));
        lemma_first_default_prefix(cs, n + 1);
    } else {
        assert(cs.take(n) =~= cs);
    }
}

/// The view of a text result.
pub open spec fn text_result(r: Result<String, String>) -> Result<Seq<char>, Seq<char>> {
    match r {
        Ok(s) => Ok(s@),
        Err(e) => Err(e@),
    }
}

/// What an upsert produces: the new torrc text, the new relay torrc text (or why it could
/// not be updated, which does not fail the request), whether the default node's type
/// changed, and the answer.
#[derive(Debug)]
pub struct UpsertOutcome {
    pub torrc: String,
    pub relay: Result<String, String>,
    pub node_type_changed: bool,
    pub response: MessageResponse,
}

/// Adds or replaces a payment node configuration in the client torrc text and, when it
/// could be read, in the relay torrc text.
pub fn upsert_lightning_config(
    request: &UpsertLightningConfigRequest,
    torrc: &str,
    relay: &Result<String, String>,
) -> (r: Result<UpsertOutcome, RouteError>)
    ensures
        match request_node_type(request.node_type@) {
            None => r matches Err(RouteError::BadRequest(m)) && m@ == invalid_type_message(),
            Some(nt) => match modify_spec(
                torrc@,
                Operation::Upsert,
                nt,
                Some(request.url@),
                Some(request.password@),
                request.set_as_default,
            ) {
                Err(e) => r matches Err(RouteError::Internal(m)) && m@ == "Failed to upsert lightning config: "@ + e,
                Ok(s) => r matches Ok(o) && o.torrc@ == s && text_result(o.relay) == match *relay {
                    Ok(c) => modify_spec(
                        c@,
                        Operation::Upsert,
                        nt,
                        Some(request.url@),
                        Some(request.password@),
                        request.set_as_default,
                    ),
                    Err(e) => Err(e@),
                } && o.node_type_changed == type_changed_spec(
                    request.set_as_default,
                    all_configs(torrc@),
                    request.node_type@,
                ) && o.response.message@ == "Successfully upserted "@ + request.node_type@
                    + " lightning config for "@ + request.url@,
            },
        },
{
    let nt = parse_request_node_type(request.node_type.as_str())?;
    let previous = get_all_payment_lightning_configs(torrc);
    let changed = node_type_changed(request.set_as_default, &previous, request.node_type.as_str());
    let new_torrc = match modify_payment_lightning_config(
        torrc,
        Operation::Upsert,
        nt,
        Some(request.url.clone()),
        Some(request.password.clone()),
        request.set_as_default,
    ) {
        Ok(s) => s,
        Err(e) => {
            let mut m = owned("Failed to upsert lightning config: ");
            append(&mut m, e.as_str());
            return Err(RouteError::Internal(m));
        },
    };
    let new_relay = match relay {
        Ok(c) => modify_payment_lightning_config(
            c.as_str(),
            Operation::Upsert,
            nt,
            Some(request.url.clone()),
            Some(request.password.clone()),
            request.set_as_default,
        ),
        Err(e) => Err(e.clone()),
    };
    let mut message = owned("Successfully upserted ");
    append(&mut message, request.node_type.as_str());
    append(&mut message, " lightning config for ");
    append(&mut message, request.url.as_str());
    Ok(
        UpsertOutcome {
            torrc: new_torrc,
            relay: new_relay,
            node_type_changed: changed,
            response: MessageResponse { message },
        },
    )
}

/// What a deletion produces: the new torrc text, the new relay torrc text (or why it
/// could not be updated), and the answer.
#[derive(Debug)]
pub struct DeleteOutcome {
    pub torrc: String,
    pub relay: Result<String, String>,
    pub response: MessageResponse,
}

/// Removes a payment node configuration from the client torrc text and, when it could be
/// read, from the relay torrc text.
pub fn delete_lightning_config(
    request: &DeleteLightningConfigRequest,
    torrc: &str,
    relay: &Result<String, String>,
) -> (r: Result<DeleteOutcome, RouteError>)
    ensures
        match request_node_type(request.node_type@) {
            None => r matches Err(RouteError::BadRequest(m)) && m@ == invalid_type_message(),
            Some(nt) => match modify_spec(torrc@, Operation::Delete, nt, opt_view(request.url), None, false) {
                Err(e) => r matches Err(RouteError::Internal(m)) && m@ == "Failed to delete lightning config: "@ + e,
                Ok(s) => r matches Ok(o) && o.torrc@ == s && text_result(o.relay) == match *relay {
                    Ok(c) => modify_spec(c@, Operation::Delete, nt, opt_view(request.url), None, false),
                    Err(e) => Err(e@),
                } && o.response.message@ == "Successfully deleted "@ + request.node_type@ + match opt_view(
                    request.url,
                ) {
                    Some(u) => " lightning config for "@ + u,
                    None => " lightning config"@,
                },
            },
        },
{
    let nt = parse_request_node_type(request.node_type.as_str())?;
    let url = match &request.url {
        Some(u) => Some(u.clone()),
        None => None,
    };
    let new_torrc = match modify_payment_lightning_config(torrc, Operation::Delete, nt, url, None, false) {
        Ok(s) => s,
        Err(e) => {
            let mut m = owned("Failed to delete lightning config: ");
            append(&mut m, e.as_str());
            return Err(RouteError::Internal(m));
        },
    };
    let url2 = match &request.url {
        Some(u) => Some(u.clone()),
        None => None,
    };
    let new_relay = match relay {
        Ok(c) => modify_payment_lightning_config(c.as_str(), Operation::Delete, nt, url2, None, false),
        Err(e) => Err(e.clone()),
    };
    let mut message = owned("Successfully deleted ");
    append(&mut message, request.node_type.as_str());
    match &request.url {
        Some(u) => {
            append(&mut message, " lightning config for ");
            append(&mut message, u.as_str());
        },
        None => {
            append(&mut message, " lightning config");
        },
    }
    Ok(DeleteOutcome { torrc: new_torrc, relay: new_relay, response: MessageResponse { message } })
}

/// The kind of credential a node type uses, by its name.
pub open spec fn password_type_spec(node_type: Seq<char>) -> Seq<char> {
    if node_type == "cln"@ {
        "rune"@
    } else if node_type == "lnd"@ {
        "macaroon"@
    } else {
        "password"@
    }
}

/// Whether a configuration is for the embedded phoenixd, found by its address.
pub open spec fn embedded_spec(c: LightningConfigView) -> bool {
    c.node_type == "phoenixd"@ && (c.url == "http://127.0.0.1:9740"@ || c.url == "http://localhost:9740"@)
}

/// What the listing shows of a configuration.
pub open spec fn response_matches(r: LightningConfigResponse, c: LightningConfigView) -> bool {
    &&& r.node_type@ == c.node_type
    &&& r.url@ == c.url
    &&& r.password_type@ == password_type_spec(c.node_type)
    &&& r.password@ == c.password
    &&& r.is_default == c.is_default
    &&& r.is_embedded == Some(embedded_spec(c))
}

/// How a configuration is listed.
pub fn config_response(c: &LightningConfig) -> (r: LightningConfigResponse)
    ensures
        response_matches(r, c@),
{
    let nt = c.node_type.as_str();
    let password_type = if eq_str(nt, "cln") {
        owned("rune")
    } else if eq_str(nt, "lnd") {
        owned("macaroon")
    } else {
        owned("password")
    };
    let embedded = eq_str(nt, "phoenixd") && (eq_str(c.url.as_str(), "http://127.0.0.1:9740") || eq_str(
        c.url.as_str(),
        "http://localhost:9740",
    ));
    LightningConfigResponse {
        node_type: c.node_type.clone(),
        url: c.url.clone(),
        password_type,
        password: c.password.clone(),
        is_default: c.is_default,
        is_embedded: Some(embedded),
    }
}

/// Every active payment node configuration of a torrc text, as listed to the user.
pub fn list_lightning_configs(torrc: &str) -> (r: ListLightningConfigsResponse)
    ensures
        r.configs@.len() == all_configs(torrc@).len(),
        forall|i: int| 0 <= i < r.configs@.len() ==> response_matches(#[trigger] r.configs@[i], all_configs(torrc@)[i]),
{
    let configs = get_all_payment_lightning_configs(torrc);
    let mut out: Vec<LightningConfigResponse> = Vec::new();
    let mut i: usize = 0;
    while i < configs.len()
        invariant
            i <= configs.len(),
            config_views(configs@) == all_configs(torrc@),
            out@.len() == i,
            forall|j: int| 0 <= j < i ==> response_matches(#[trigger] out@[j], all_configs(torrc@)[j]),
        decreases configs.len() - i,
    {
        assert(config_views(configs@)[i as int] == configs@[i as int]@);
        out.push(config_response(&configs[i]));
        i = i + 1;
    }
    ListLightningConfigsResponse { configs: out }
}

/// The offer already recorded in the relay torrc text, if its first `PaymentBolt12Offer`
/// value is not empty.
pub open spec fn recorded_offer(relay: Seq<char>) -> Option<Seq<char>> {
    let offers = values_of_lines(lines(relay), "PaymentBolt12Offer"@);
    if offers.len() > 0 && offers[0].len() > 0 {
        Some(offers[0])
    } else {
        None
    }
}

/// The recorded offer, answered as it is (no hash, amount or expiry).
pub fn cached_offer(relay: &str) -> (r: Option<CreateInvoiceResponse>)
    ensures
        match recorded_offer(relay@) {
            Some(o) => r matches Some(c) && c.payment_request@ == o && c.payment_hash@.len() == 0
                && c.amount_sats is None && c.expiry is None,
            None => r is None,
        },
{
    let offers = get_torrc_config(relay, "PaymentBolt12Offer");
    if offers.len() > 0 {
        assert(string_views(offers@)[0] == offers@[0]@);
        if crate::text::chars_of(offers[0].as_str()).len() > 0 {
            return Some(
                CreateInvoiceResponse {
                    payment_request: offers[0].clone(),
                    payment_hash: String::new(),
                    amount_sats: None,
                    expiry: None,
                },
            );
        }
    }
    None
}

/// Whether a new offer is fetched after a default node was set: when the node type
/// changed, or when the relay torrc text records no offer.
pub fn should_fetch_new_offer(node_type_changed: bool, relay: &str) -> (r: bool)
    ensures
        r == (node_type_changed || recorded_offer(relay@) is None),
{
    if node_type_changed {
        return true;
    }
    cached_offer(relay).is_none()
}


/// The relay torrc text with `offer` recorded as its `PaymentBolt12Offer`.
pub fn record_offer(relay: &str, offer: &str) -> (r: String)
    ensures
        r@ == set_setting_spec(relay@, "PaymentBolt12Offer"@, offer@),
{
    set_torrc_config_line(relay, "PaymentBolt12Offer", offer)
}

/// An offer once recorded is the one the cache answers with afterwards, so no new offer
/// is fetched until the node type changes. (An empty offer, one with whitespace at
/// either end, or one that spans lines reads back otherwise.)
pub proof fn law_recorded_offer_is_cached(relay: Seq<char>, offer: Seq<char>)
    requires
        offer.len() > 0,
        !is_ws(offer[0]),
        !is_ws(offer.last()),
        lacks(offer, '\n'),
    ensures
        recorded_offer(set_setting_spec(relay, "PaymentBolt12Offer"@, offer)) == Some(offer),
{
    reveal_strlit("PaymentBolt12Offer");
    let key = "PaymentBolt12Offer"@;
    assert(key[0] == 'P');
    assert forall|i: int| 0 <= i < key.len() implies !is_ws(#[trigger] key[i]) by {}
    law_set_then_get(relay, key, offer);
}

} // verus!
