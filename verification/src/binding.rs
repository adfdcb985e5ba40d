//! Whether an export's metadata belongs to the broker profile it is bound to,
//! and how the quote sidecar of a bound M1 pack is read.
use vstd::prelude::*;
use crate::text::{contains, contains_str, owned, push_str, str_eq, trim, trim_str};

verus! {

/// What a market export's metadata says about its instrument. The symbol and
/// time zone are read by the metadata loader, which may refuse them.
pub struct MetadataIdentity {
    pub symbol: Result<String, String>,
    pub timezone: Result<String, String>,
    pub account_currency: Option<String>,
    pub currency_base: Option<String>,
    pub currency_profit: Option<String>,
    pub currency_margin: Option<String>,
}

/// The identity of a broker profile.
pub struct BrokerIdentity {
    pub symbol: String,
    pub timezone: String,
    pub account_currency: String,
    pub base_currency: String,
    pub profit_currency: String,
    pub margin_currency: String,
}

pub open spec fn currency_mismatch(property: Seq<char>, actual: Option<String>, expected: Seq<char>) -> Option<Seq<char>> {
    match actual {
        Some(a) => if a@ != expected {
            Some("metadata "@ + property + " "@ + a@ + " does not match broker profile "@ + expected)
        } else {
            None
        },
        None => None,
    }
}

/// The first disagreement between metadata and broker profile, in the order
/// checked: symbol, time zone, then the account, base, profit and margin
/// currencies (a currency the metadata does not state is not compared).
pub open spec fn binding_refusal(m: MetadataIdentity, b: BrokerIdentity) -> Option<Seq<char>> {
    match m.symbol {
        Err(e) => Some(e@),
        Ok(symbol) => if symbol@ != b.symbol@ {
            Some("metadata symbol does not match broker profile "@ + b.symbol@)
        } else {
            match m.timezone {
                Err(e) => Some(e@),
                Ok(zone) => if zone@ != b.timezone@ {
                    Some("metadata timezone does not match broker profile "@ + b.timezone@)
                } else if currency_mismatch("account_currency"@, m.account_currency, b.account_currency@) is Some {
                    currency_mismatch("account_currency"@, m.account_currency, b.account_currency@)
                } else if currency_mismatch("currency_base"@, m.currency_base, b.base_currency@) is Some {
                    currency_mismatch("currency_base"@, m.currency_base, b.base_currency@)
                } else if currency_mismatch("currency_profit"@, m.currency_profit, b.profit_currency@) is Some {
                    currency_mismatch("currency_profit"@, m.currency_profit, b.profit_currency@)
                } else {
                    currency_mismatch("currency_margin"@, m.currency_margin, b.margin_currency@)
                },
            }
        },
    }
}

/// A currency the metadata states agrees with the broker profile's.
pub open spec fn currency_agrees(stated: Option<String>, broker: Seq<char>) -> bool {
    match stated {
        Some(c) => c@ == broker,
        None => true,
    }
}

/// Metadata is accepted only when it names the broker's symbol and time zone
/// and every currency it states (account, base, profit, margin) is the
/// broker's. The first disagreement, in the order symbol, time zone, account,
/// base, profit and margin currency, is the one reported, with the message
/// naming the property and both values.
pub proof fn lemma_binding_accepts_only_agreeing_metadata(m: MetadataIdentity, b: BrokerIdentity)
    ensures
        binding_refusal(m, b) is None ==> {
            &&& m.symbol matches Ok(s) && s@ == b.symbol@
            &&& m.timezone matches Ok(z) && z@ == b.timezone@
            &&& currency_agrees(m.account_currency, b.account_currency@)
            &&& currency_agrees(m.currency_base, b.base_currency@)
            &&& currency_agrees(m.currency_profit, b.profit_currency@)
            &&& currency_agrees(m.currency_margin, b.margin_currency@)
        },
        m.symbol is Ok && m.symbol->Ok_0@ == b.symbol@ && m.timezone is Ok && m.timezone->Ok_0@ == b.timezone@
            && m.account_currency is Some && m.account_currency->0@ != b.account_currency@
            ==> binding_refusal(m, b) == Some("metadata "@ + "account_currency"@ + " "@ + m.account_currency->0@
                + " does not match broker profile "@ + b.account_currency@),
        m.symbol is Ok && m.symbol->Ok_0@ != b.symbol@
            ==> binding_refusal(m, b) == Some("metadata symbol does not match broker profile "@ + b.symbol@),
        m.symbol is Ok && m.symbol->Ok_0@ == b.symbol@ && m.timezone is Ok && m.timezone->Ok_0@ != b.timezone@
            ==> binding_refusal(m, b) == Some("metadata timezone does not match broker profile "@ + b.timezone@),
        m.symbol is Ok && m.symbol->Ok_0@ == b.symbol@ && m.timezone is Ok && m.timezone->Ok_0@ == b.timezone@
            && currency_agrees(m.account_currency, b.account_currency@)
            && m.currency_base is Some && m.currency_base->0@ != b.base_currency@
            ==> binding_refusal(m, b) == Some("metadata "@ + "currency_base"@ + " "@ + m.currency_base->0@
                + " does not match broker profile "@ + b.base_currency@),
        m.symbol is Ok && m.symbol->Ok_0@ == b.symbol@ && m.timezone is Ok && m.timezone->Ok_0@ == b.timezone@
            && currency_agrees(m.account_currency, b.account_currency@) && currency_agrees(m.currency_base, b.base_currency@)
            && m.currency_profit is Some && m.currency_profit->0@ != b.profit_currency@
            ==> binding_refusal(m, b) == Some("metadata "@ + "currency_profit"@ + " "@ + m.currency_profit->0@
                + " does not match broker profile "@ + b.profit_currency@),
        m.symbol is Ok && m.symbol->Ok_0@ == b.symbol@ && m.timezone is Ok && m.timezone->Ok_0@ == b.timezone@
            && currency_agrees(m.account_currency, b.account_currency@) && currency_agrees(m.currency_base, b.base_currency@)
            && currency_agrees(m.currency_profit, b.profit_currency@)
            && m.currency_margin is Some && m.currency_margin->0@ != b.margin_currency@
            ==> binding_refusal(m, b) == Some("metadata "@ + "currency_margin"@ + " "@ + m.currency_margin->0@
                + " does not match broker profile "@ + b.margin_currency@),
        m.symbol matches Err(e) ==> binding_refusal(m, b) == Some(e@),
{
}

fn check_currency(property: &str, actual: &Option<String>, expected: &str) -> (r: Result<(), String>)
    ensures
        match currency_mismatch(property@, *actual, expected@) {
            None => r is Ok,
            Some(message) => r matches Err(m) && m@ == message,
        },
{
    match actual {
        Some(a) => {
            if !str_eq(a.as_str(), expected) {
                let mut message = owned("metadata ");
                push_str(&mut message, property);
                push_str(&mut message, " ");
                push_str(&mut message, a.as_str());
                push_str(&mut message, " does not match broker profile ");
                push_str(&mut message, expected);
                Err(message)
            } else {
                Ok(())
            }
        },
        None => Ok(()),
    }
}

/// Refuses metadata that names another instrument than the broker profile.
/// Without metadata there is nothing to compare.
pub fn check_metadata_broker_binding(metadata: Option<&MetadataIdentity>, broker: &BrokerIdentity) -> (r: Result<(), String>)
    ensures
        match metadata {
            None => r is Ok,
            Some(m) => match binding_refusal(*m, *broker) {
                None => r is Ok,
                Some(message) => r matches Err(e) && e@ == message,
            },
        },
{
    let m = match metadata {
        None => return Ok(()),
        Some(m) => m,
    };
    match &m.symbol {
        Err(e) => return Err(e.clone()),
        Ok(symbol) => {
            if !str_eq(symbol.as_str(), broker.symbol.as_str()) {
                let mut message = owned("metadata symbol does not match broker profile ");
                push_str(&mut message, broker.symbol.as_str());
                return Err(message);
            }
        },
    }
    match &m.timezone {
        Err(e) => return Err(e.clone()),
        Ok(zone) => {
            if !str_eq(zone.as_str(), broker.timezone.as_str()) {
                let mut message = owned("metadata timezone does not match broker profile ");
                push_str(&mut message, broker.timezone.as_str());
                return Err(message);
            }
        },
    }
    match check_currency("account_currency", &m.account_currency, broker.account_currency.as_str()) {
        Err(e) => return Err(e),
        Ok(()) => {},
    }
    match check_currency("currency_base", &m.currency_base, broker.base_currency.as_str()) {
        Err(e) => return Err(e),
        Ok(()) => {},
    }
    match check_currency("currency_profit", &m.currency_profit, broker.profit_currency.as_str()) {
        Err(e) => return Err(e),
        Ok(()) => {},
    }
    check_currency("currency_margin", &m.currency_margin, broker.margin_currency.as_str())
}

/// A sidecar captured by the MT5 tester carries server-clock timestamps and is
/// read through the M1 metadata's time zone; imported sidecars are in UTC.
pub open spec fn sidecar_uses_server_clock(execution_model: Option<Seq<char>>) -> bool {
    execution_model matches Some(model) && contains(model, "TESTER_TICKS"@)
}

pub fn quote_sidecar_clock(execution_model: Option<&str>) -> (r: bool)
    ensures
        r == sidecar_uses_server_clock(match execution_model { Some(m) => Some(m@), None => None }),
{
    match execution_model {
        Some(model) => contains_str(model, "TESTER_TICKS"),
        None => false,
    }
}

/// A market-data folder must exist before anything is imported from it.
pub fn check_import_folder(is_dir: bool, shown: &str) -> (r: Result<(), String>)
    ensures
        is_dir ==> r is Ok,
        !is_dir ==> (r matches Err(m) && m@ == "market-data folder does not exist: "@ + shown@),
{
    if is_dir {
        Ok(())
    } else {
        let mut message = owned("market-data folder does not exist: ");
        push_str(&mut message, shown);
        Err(message)
    }
}

/// The folder path as typed, without surrounding white space.
pub fn import_folder_path(requested: &str) -> (r: String)
    ensures
        r@ == trim(requested@),
{
    trim_str(requested)
}

} // verus!
