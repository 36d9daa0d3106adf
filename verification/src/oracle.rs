//! Price data as the risk engine consumes it: a table of per-asset prices,
//! oracle record types, and validity checks on fetched prices.
use vstd::prelude::*;

use crate::errors::StakeLendError;

verus! {

/// Identifier of an asset (a mint), as the verified core sees it.
pub type AssetId = u64;

/// Supported oracle providers.
#[derive(Clone, Copy, Debug, PartialEq, Eq, Structural)]
pub enum OracleProvider {
    Pyth,
    Switchboard,
    ChainLink,
    Custom,
}

/// An asset price with metadata, as read from an oracle.
#[derive(Clone, Copy, Debug, PartialEq, Eq, Structural)]
pub struct PriceData {
    /// Price in the quote currency.
    pub price: u64,
    /// Confidence interval around the price.
    pub confidence: u64,
    /// Timestamp of the last oracle update.
    pub timestamp: u64,
    /// Which provider supplied the price.
    pub source: OracleProvider,
}

/// A stored oracle price record.
#[derive(Clone, Copy, Debug, PartialEq, Eq, Structural)]
pub struct OraclePrice {
    /// Price with decimals applied.
    pub price: u64,
    /// Number of decimal places in the price.
    pub decimals: u8,
    /// Price confidence interval.
    pub confidence: u64,
    /// Timestamp of the last update.
    pub last_update_timestamp: u64,
}

/// Look an asset up in a price list; the most recently added entry for the
/// asset wins.
pub open spec fn spec_lookup(entries: Seq<(AssetId, u64)>, asset: AssetId) -> Option<u64>
    decreases entries.len(),
{
    if entries.len() == 0 {
        None
    } else if entries.last().0 == asset {
        Some(entries.last().1)
    } else {
        spec_lookup(entries.drop_last(), asset)
    }
}

/// A price-by-asset table, the engine's view of an oracle's answer.
pub struct PriceTable {
    /// Entries as (asset, price) pairs; later entries shadow earlier ones.
    pub entries: Vec<(AssetId, u64)>,
}

impl PriceTable {
    /// An empty table: no asset has a price.
    pub fn new() -> (r: PriceTable)
        ensures
            r.entries@ =~= Seq::<(AssetId, u64)>::empty(),
    {
        PriceTable { entries: Vec::new() }
    }

    /// Record a price for an asset, shadowing any earlier entry.
    pub fn set_price(&mut self, asset: AssetId, price: u64)
        ensures
            final(self).entries@ =~= old(self).entries@.push((asset, price)),
            spec_lookup(final(self).entries@, asset) == Some(price),
            forall|a: AssetId|
                a != asset ==> spec_lookup(final(self).entries@, a) == spec_lookup(
                    old(self).entries@,
                    a,
                ),
    {
        self.entries.push((asset, price));
        proof {
            assert(self.entries@.drop_last() =~= old(self).entries@);
        }
    }

    /// Fetch the price recorded for an asset, if any.
    pub fn get(&self, asset: AssetId) -> (r: Option<u64>)
        ensures
            r == spec_lookup(self.entries@, asset),
    {
        let ghost s = self.entries@;
        let mut i: usize = self.entries.len();
        proof {
            assert(s.take(i as int) =~= s);
        }
        while i > 0
            invariant
                i <= s.len(),
                self.entries@ == s,
                spec_lookup(s, asset) == spec_lookup(s.take(i as int), asset),
            decreases i,
        {
            i = i - 1;
            let entry = self.entries[i];
            proof {
                assert(s.take(i as int + 1).last() == s[i as int]);
                assert(s.take(i as int + 1).drop_last() =~= s.take(i as int));
            }
            if entry.0 == asset {
                return Some(entry.1);
            }
        }
        proof {
            assert(s.take(0) =~= Seq::<(AssetId, u64)>::empty());
        }
        None
    }

    /// Number of entries recorded.
    pub fn len(&self) -> (r: usize)
        ensures
            r == self.entries@.len(),
    {
        self.entries.len()
    }
}

/// Verify that a fetched price is fresh and confident enough to use.
///
/// A price older than `max_price_age_seconds` is stale; a confidence interval
/// wider than `min_acceptable_confidence` is too uncertain. `now` is the
/// caller's clock reading.
pub fn verify_price_validity(
    price_data: &PriceData,
    min_acceptable_confidence: u64,
    max_price_age_seconds: u64,
    now: u64,
) -> (r: Result<(), StakeLendError>)
    ensures
        now >= price_data.timestamp && now - price_data.timestamp > max_price_age_seconds ==> r
            == Err::<(), StakeLendError>(StakeLendError::StaleOracleData),
        (now < price_data.timestamp || now - price_data.timestamp <= max_price_age_seconds)
            && price_data.confidence > min_acceptable_confidence ==> r == Err::<
            (),
            StakeLendError,
        >(StakeLendError::LowPriceConfidence),
        (now < price_data.timestamp || now - price_data.timestamp <= max_price_age_seconds)
            && price_data.confidence <= min_acceptable_confidence ==> r == Ok::<
            (),
            StakeLendError,
        >(()),
{
    let age = if now >= price_data.timestamp {
        now - price_data.timestamp
    } else {
        0
    };
    if age > max_price_age_seconds {
        return Err(StakeLendError::StaleOracleData);
    }
    if price_data.confidence > min_acceptable_confidence {
        return Err(StakeLendError::LowPriceConfidence);
    }
    Ok(())
}


/// The signed 64-bit value whose two's-complement bits are the given
/// unsigned value.
pub open spec fn spec_i64_of(u: u64) -> int {
    if u <= i64::MAX {
        u as int
    } else {
        u - 0x10000000000000000
    }
}

/// The signed 32-bit value whose two's-complement bits are the given
/// unsigned value.
pub open spec fn spec_i32_of(u: u32) -> int {
    if u <= i32::MAX {
        u as int
    } else {
        u - 0x100000000
    }
}

/// The signed 8-bit value whose two's-complement bits are the given byte.
pub open spec fn spec_i8_of(u: u8) -> int {
    if u <= i8::MAX {
        u as int
    } else {
        u - 0x100
    }
}

/// Read a little-endian signed 64-bit value.
fn i64_from_le(s: &[u8]) -> (r: i64)
    requires
        s@.len() == 8,
    ensures
        r == spec_i64_of(vstd::bytes::spec_u64_from_le_bytes(s@)),
{
    let raw = vstd::bytes::u64_from_le_bytes(s);
    if raw <= i64::MAX as u64 {
        raw as i64
    } else {
        let distance = u64::MAX - raw;
        -(distance as i64) - 1
    }
}

/// Read a little-endian signed 32-bit value.
fn i32_from_le(s: &[u8]) -> (r: i32)
    requires
        s@.len() == 4,
    ensures
        r == spec_i32_of(vstd::bytes::spec_u32_from_le_bytes(s@)),
{
    let raw = vstd::bytes::u32_from_le_bytes(s);
    if raw <= i32::MAX as u32 {
        raw as i32
    } else {
        let distance = u32::MAX - raw;
        -(distance as i32) - 1
    }
}

/// A price component laid out in an oracle account: price, confidence,
/// exponent, and publish time.
#[derive(Clone, Copy, Debug, PartialEq, Eq, Structural)]
pub struct Price {
    /// Raw price, scaled by ten to the exponent.
    pub price: i64,
    /// Confidence interval.
    pub conf: u64,
    /// Decimal exponent of the price.
    pub expo: i32,
    /// When the price was published.
    pub publish_time: i64,
}

/// Offset of the price component in an oracle price account, past the
/// magic, version, type, and size words.
pub const PRICE_OFFSET: usize = 16;

/// Parse the price component out of an oracle price account.
///
/// Accounts shorter than the header plus the price component yield nothing;
/// otherwise every field is read little-endian at its fixed offset.
pub fn get_price(data: &[u8]) -> (r: Option<Price>)
    ensures
        data@.len() < 48 <==> r is None,
        r is Some ==> ({
            let p = r->0;
            &&& p.price == spec_i64_of(
                vstd::bytes::spec_u64_from_le_bytes(data@.subrange(16, 24)),
            )
            &&& p.conf == vstd::bytes::spec_u64_from_le_bytes(data@.subrange(24, 32))
            &&& p.expo == spec_i32_of(vstd::bytes::spec_u32_from_le_bytes(data@.subrange(32, 36)))
            &&& p.publish_time == spec_i64_of(
                vstd::bytes::spec_u64_from_le_bytes(data@.subrange(36, 44)),
            )
        }),
{
    if data.len() < 48 {
        return None;
    }
    let price = i64_from_le(vstd::slice::slice_subrange(data, 16, 24));
    let conf = vstd::bytes::u64_from_le_bytes(vstd::slice::slice_subrange(data, 24, 32));
    let expo = i32_from_le(vstd::slice::slice_subrange(data, 32, 36));
    let publish_time = i64_from_le(vstd::slice::slice_subrange(data, 36, 44));
    Some(Price { price, conf, expo, publish_time })
}

/// Ten to the given power.
pub open spec fn spec_pow10(e: nat) -> int
    decreases e,
{
    if e == 0 {
        1
    } else {
        10 * spec_pow10((e - 1) as nat)
    }
}

/// Compute ten to the given power, or nothing when it leaves `u64`.
fn pow10(e: u32) -> (r: Option<u64>)
    ensures
        r is Some ==> r->0 == spec_pow10(e as nat),
        r is None ==> spec_pow10(e as nat) > u64::MAX,
{
    let mut result: u64 = 1;
    let mut i: u32 = 0;
    while i < e
        invariant
            i <= e,
            result == spec_pow10(i as nat),
            result >= 1,
        decreases e - i,
    {
        result = match result.checked_mul(10) {
            Some(v) => v,
            None => {
                proof {
                    lemma_pow10_grows(i as nat + 1, e as nat);
                }
                return None;
            },
        };
        i = i + 1;
    }
    Some(result)
}

/// Ten-to-the-power grows with its exponent.
proof fn lemma_pow10_grows(a: nat, b: nat)
    requires
        a <= b,
    ensures
        spec_pow10(a) <= spec_pow10(b),
        spec_pow10(a) >= 1,
    decreases b,
{
    if a < b {
        lemma_pow10_grows(a, (b - 1) as nat);
        assert(spec_pow10(b) == 10 * spec_pow10((b - 1) as nat));
        assert(10 * spec_pow10((b - 1) as nat) >= spec_pow10((b - 1) as nat)) by (nonlinear_arith)
            requires spec_pow10((b - 1) as nat) >= 1;
    } else if a == 0 {
    } else {
        lemma_pow10_grows((a - 1) as nat, (b - 1) as nat);
        assert(10 * spec_pow10((b - 1) as nat) >= spec_pow10((b - 1) as nat)) by (nonlinear_arith)
            requires spec_pow10((b - 1) as nat) >= 1;
    }
}

/// Normalize a raw oracle price to the protocol's scale by its decimal
/// exponent.
///
/// Negative prices are invalid; a negative exponent divides by ten to its
/// magnitude, a nonnegative one multiplies. A power of ten or a product
/// outside `u64` fails with `MathOverflow`.
pub fn normalize_pyth_price(price: i64, exponent: i32) -> (r: Result<u64, StakeLendError>)
    requires
        exponent != i32::MIN,
    ensures
        price < 0 ==> r == Err::<u64, StakeLendError>(StakeLendError::InvalidOraclePrice),
        price >= 0 ==> ({
            let mag = (if exponent < 0 {
                -(exponent as int)
            } else {
                exponent as int
            }) as nat;
            let scale = spec_pow10(mag);
            if scale > u64::MAX {
                r == Err::<u64, StakeLendError>(StakeLendError::MathOverflow)
            } else if exponent < 0 {
                r == Ok::<u64, StakeLendError>(((price as int) / scale) as u64)
            } else if price * scale > u64::MAX {
                r == Err::<u64, StakeLendError>(StakeLendError::MathOverflow)
            } else {
                r == Ok::<u64, StakeLendError>((price * scale) as u64)
            }
        }),
{
    if price < 0 {
        return Err(StakeLendError::InvalidOraclePrice);
    }
    let magnitude: u32 = if exponent < 0 {
        (-(exponent as i64)) as u32
    } else {
        exponent as u32
    };
    let scale = match pow10(magnitude) {
        Some(v) => v,
        None => {
            return Err(StakeLendError::MathOverflow);
        },
    };
    if exponent < 0 {
        proof {
            lemma_pow10_grows(0, magnitude as nat);
        }
        Ok(((price as u64) / scale) as u64)
    } else {
        match (price as u64).checked_mul(scale) {
            Some(v) => Ok(v),
            None => Err(StakeLendError::MathOverflow),
        }
    }
}

/// Market risk metrics carried by a risk oracle account.
pub struct MarketRiskMetrics {
    /// Volatility index; higher is more volatile.
    pub volatility_index: u64,
    /// Market trend from -100 (bearish) to 100 (bullish).
    pub market_trend: i8,
    /// Liquidity score from 0 to 10000; higher is more liquid.
    pub liquidity_score: u16,
    /// Overall risk classification.
    pub risk_level: RiskLevel,
    /// When these metrics were produced.
    pub timestamp: u64,
}

/// Risk level classification.
#[derive(Clone, Copy, Debug, PartialEq, Eq, Structural)]
pub enum RiskLevel {
    Low,
    Medium,
    High,
    Extreme,
}

/// The risk level a volatility index classifies to.
pub open spec fn spec_risk_level(volatility_index: u64) -> RiskLevel {
    if volatility_index > 8000 {
        RiskLevel::Extreme
    } else if volatility_index > 5000 {
        RiskLevel::High
    } else if volatility_index > 2000 {
        RiskLevel::Medium
    } else {
        RiskLevel::Low
    }
}

/// Classify a volatility index into a risk level.
pub fn classify_risk_level(volatility_index: u64) -> (r: RiskLevel)
    ensures
        r == spec_risk_level(volatility_index),
{
    if volatility_index > 8000 {
        RiskLevel::Extreme
    } else if volatility_index > 5000 {
        RiskLevel::High
    } else if volatility_index > 2000 {
        RiskLevel::Medium
    } else {
        RiskLevel::Low
    }
}

/// Parse market risk metrics out of a risk oracle account: volatility,
/// trend, liquidity score, and timestamp at their fixed offsets, with the
/// risk level classified from the volatility.
pub fn get_market_risk_metrics(data: &[u8]) -> (r: Result<MarketRiskMetrics, StakeLendError>)
    ensures
        data@.len() < 24 <==> r == Err::<MarketRiskMetrics, StakeLendError>(
            StakeLendError::InvalidAccountData,
        ),
        r is Ok ==> ({
            let m = r->Ok_0;
            &&& m.volatility_index == vstd::bytes::spec_u64_from_le_bytes(data@.subrange(0, 8))
            &&& m.market_trend == spec_i8_of(data@[8])
            &&& m.liquidity_score == vstd::bytes::spec_u16_from_le_bytes(data@.subrange(9, 11))
            &&& m.timestamp == vstd::bytes::spec_u64_from_le_bytes(data@.subrange(11, 19))
            &&& m.risk_level == spec_risk_level(m.volatility_index)
        }),
{
    if data.len() < 24 {
        return Err(StakeLendError::InvalidAccountData);
    }
    let volatility_index = vstd::bytes::u64_from_le_bytes(
        vstd::slice::slice_subrange(data, 0, 8),
    );
    let trend_byte = data[8];
    let market_trend: i8 = if trend_byte <= i8::MAX as u8 {
        trend_byte as i8
    } else {
        let distance = u8::MAX - trend_byte;
        -(distance as i8) - 1
    };
    let liquidity_score = vstd::bytes::u16_from_le_bytes(
        vstd::slice::slice_subrange(data, 9, 11),
    );
    let timestamp = vstd::bytes::u64_from_le_bytes(vstd::slice::slice_subrange(data, 11, 19));
    let risk_level = classify_risk_level(volatility_index);
    Ok(MarketRiskMetrics { volatility_index, market_trend, liquidity_score, risk_level, timestamp })
}

/// Which oracle provider an account's leading magic bytes identify.
pub open spec fn spec_oracle_provider(data: Seq<u8>) -> OracleProvider {
    if data.len() >= 4 && data[0] == 0x50 && data[1] == 0x79 && data[2] == 0x74 && data[3] == 0x68 {
        OracleProvider::Pyth
    } else if data.len() >= 4 && data[0] == 0x53 && data[1] == 0x42 && data[2] == 0x44 && data[3]
        == 0x41 {
        OracleProvider::Switchboard
    } else if data.len() >= 4 && data[0] == 0x43 && data[1] == 0x4C && data[2] == 0x4E && data[3]
        == 0x4B {
        OracleProvider::ChainLink
    } else {
        OracleProvider::Custom
    }
}

/// Detect the oracle provider from an account's leading magic bytes.
pub fn detect_oracle_provider(data: &[u8]) -> (r: OracleProvider)
    ensures
        r == spec_oracle_provider(data@),
{
    if data.len() >= 4 {
        let b0 = data[0];
        let b1 = data[1];
        let b2 = data[2];
        let b3 = data[3];
        if b0 == 0x50 && b1 == 0x79 && b2 == 0x74 && b3 == 0x68 {
            return OracleProvider::Pyth;
        }
        if b0 == 0x53 && b1 == 0x42 && b2 == 0x44 && b3 == 0x41 {
            return OracleProvider::Switchboard;
        }
        if b0 == 0x43 && b1 == 0x4C && b2 == 0x4E && b3 == 0x4B {
            return OracleProvider::ChainLink;
        }
    }
    OracleProvider::Custom
}

/// Parse a custom oracle account into a price table: an 8-byte header whose
/// second word counts the entries, then 16 bytes per entry (asset, price),
/// little-endian. An account that prices nothing at all is absent data, not
/// an empty table.
pub fn parse_custom_oracle_data(data: &[u8]) -> (r: Result<PriceTable, StakeLendError>)
    ensures
        data@.len() < 24 ==> r == Err::<PriceTable, StakeLendError>(
            StakeLendError::InvalidAccountData,
        ),
        data@.len() >= 24 ==> ({
            let num = vstd::bytes::spec_u32_from_le_bytes(data@.subrange(4, 8)) as int;
            if data@.len() < 8 + num * 16 {
                r == Err::<PriceTable, StakeLendError>(StakeLendError::InvalidAccountData)
            } else if num == 0 {
                r == Err::<PriceTable, StakeLendError>(StakeLendError::OracleDataNotFound)
            } else {
                &&& r is Ok
                &&& r->Ok_0.entries@.len() == num
                &&& forall|i: int|
                    0 <= i < num ==> #[trigger] r->Ok_0.entries@[i] == (
                    vstd::bytes::spec_u64_from_le_bytes(
                        data@.subrange(8 + i * 16, 16 + i * 16),
                    ), vstd::bytes::spec_u64_from_le_bytes(
                        data@.subrange(16 + i * 16, 24 + i * 16),
                    ))
            }
        }),
{
    if data.len() < 24 {
        return Err(StakeLendError::InvalidAccountData);
    }
    let num_entries = vstd::bytes::u32_from_le_bytes(vstd::slice::slice_subrange(data, 4, 8));
    let num = num_entries as usize;
    proof {
        assert(num * 16 == (num_entries as int) * 16) by (nonlinear_arith)
            requires num == num_entries;
    }
    if num > (usize::MAX - 8) / 16 || data.len() < 8 + num * 16 {
        proof {
            if !(num > (usize::MAX - 8) / 16) {
            } else {
                assert((num_entries as int) * 16 >= num_entries) by (nonlinear_arith)
                    requires num_entries >= 0;
            }
        }
        return Err(StakeLendError::InvalidAccountData);
    }
    if num == 0 {
        return Err(StakeLendError::OracleDataNotFound);
    }
    let data_len = data.len();
    let mut table = PriceTable::new();
    let mut i: usize = 0;
    while i < num
        invariant
            i <= num,
            num == vstd::bytes::spec_u32_from_le_bytes(data@.subrange(4, 8)),
            8 + num * 16 <= data@.len(),
            data@.len() == data_len,
            table.entries@.len() == i,
            forall|j: int|
                0 <= j < i ==> #[trigger] table.entries@[j] == (
                vstd::bytes::spec_u64_from_le_bytes(data@.subrange(8 + j * 16, 16 + j * 16)),
                vstd::bytes::spec_u64_from_le_bytes(data@.subrange(16 + j * 16, 24 + j * 16))),
        decreases num - i,
    {
        proof {
            assert(i * 16 + 16 <= num * 16) by (nonlinear_arith)
                requires i < num;
            assert(8 + i * 16 + 16 <= 8 + num * 16);
        }
        let base = 8 + i * 16;
        let asset = vstd::bytes::u64_from_le_bytes(
            vstd::slice::slice_subrange(data, base, base + 8),
        );
        let price = vstd::bytes::u64_from_le_bytes(
            vstd::slice::slice_subrange(data, base + 8, base + 16),
        );
        table.set_price(asset, price);
        i = i + 1;
    }
    Ok(table)
}


/// Scale every price down by a shock given in basis points, for stress
/// testing: each price becomes `price * (10000 - shock) / 10000`.
pub fn apply_price_shock(prices: &mut PriceTable, shock_bps: u16) -> (r: Result<
    (),
    StakeLendError,
>)
    ensures
        shock_bps > 10000 ==> r == Err::<(), StakeLendError>(StakeLendError::InvalidParameter)
            && final(prices).entries@ == old(prices).entries@,
        shock_bps <= 10000 ==> r is Ok && final(prices).entries@.len() == old(
            prices,
        ).entries@.len() && forall|i: int|
            0 <= i < old(prices).entries@.len() ==> #[trigger] final(prices).entries@[i] == (
            old(prices).entries@[i].0, (old(prices).entries@[i].1 * (10000 - shock_bps)
                / 10000) as u64),
{
    if shock_bps > 10000 {
        return Err(StakeLendError::InvalidParameter);
    }
    let ghost s = prices.entries@;
    let factor = (10000 - shock_bps) as u128;
    let n = prices.entries.len();
    let mut i: usize = 0;
    while i < n
        invariant
            n == s.len(),
            prices.entries@.len() == s.len(),
            i <= n,
            factor == (10000 - shock_bps) as u128,
            shock_bps <= 10000,
            forall|j: int|
                0 <= j < i ==> #[trigger] prices.entries@[j] == (s[j].0, (s[j].1 * (10000
                    - shock_bps) / 10000) as u64),
            forall|j: int| i <= j < n ==> #[trigger] prices.entries@[j] == s[j],
        decreases n - i,
    {
        let entry = prices.entries[i];
        proof {
            assert((entry.1 as int) * (factor as int) <= u128::MAX) by (nonlinear_arith)
                requires entry.1 <= u64::MAX && factor <= 10000;
            vstd::arithmetic::div_mod::lemma_div_pos_is_pos(
                (entry.1 as int) * (factor as int),
                10000,
            );
            assert((entry.1 as int) * (factor as int) <= (entry.1 as int) * 10000) by (
            nonlinear_arith)
                requires entry.1 >= 0 && factor <= 10000;
            vstd::arithmetic::div_mod::lemma_div_is_ordered(
                (entry.1 as int) * (factor as int),
                (entry.1 as int) * 10000,
                10000,
            );
            vstd::arithmetic::div_mod::lemma_div_multiples_vanish(entry.1 as int, 10000);
        }
        let shocked = (((entry.1 as u128) * factor) / 10000) as u64;
        prices.entries[i] = (entry.0, shocked);
        i = i + 1;
    }
    Ok(())
}

} // verus!
