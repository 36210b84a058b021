//! What is read from the token contract before a round, and what is shown and
//! decided from it.
use crate::bindings::quotient;
use crate::bindings::wrapping_product;
use crate::proof_of_work::target_from_hex_zeros;
use crate::proof_of_work::target_value;
use crate::text::whole_tokens;
use crate::text::whole_tokens_fit;
use crate::text::WEI_PER_ETH;
use crate::u256::modulus;
use crate::u256::U256;
use vstd::arithmetic::div_mod::lemma_div_by_multiple;
use vstd::arithmetic::div_mod::lemma_div_is_ordered;
use vstd::arithmetic::div_mod::lemma_fundamental_div_mod;
use vstd::arithmetic::div_mod::lemma_mod_decreases;
use vstd::arithmetic::div_mod::lemma_small_mod;
use vstd::arithmetic::power2::lemma2_to64;
use vstd::arithmetic::power2::lemma2_to64_rest;
use vstd::arithmetic::power2::lemma_pow2_adds;
use vstd::arithmetic::power2::lemma_pow2_pos;
use vstd::arithmetic::power2::pow2;
use vstd::prelude::*;

verus! {

/// The whole tokens that one wallet may mint.
pub const WALLET_MINT_CAP_PFFT: u128 = 10_000;

/// The whole tokens for which the contract is asked what a mint would give.
pub const MINT_PROBE_PFFT: u64 = 1_000;

/// The least balance, in wei, that is held to be enough for gas.
pub const MIN_GAS_WEI: u64 = 50_000_000_000_000;

/// The state of the contract and of the wallet, with the target that follows.
#[derive(Clone, Copy, Debug, PartialEq, Eq)]
pub struct Status {
    pub hex_zeros: U256,
    pub total_minted: U256,
    pub max_supply: U256,
    pub next_mint: U256,
    pub wallet_minted: U256,
    pub wallet_bal: U256,
    pub target: U256,
}

/// The figures that are shown at the start of each round.
#[derive(Clone, Copy, Debug, PartialEq, Eq)]
pub struct RoundReport {
    /// Whole tokens minted so far.
    pub minted: u128,
    /// The share of the supply that is minted, in hundredths of a percent.
    pub progress_bp: u128,
    /// Whole tokens that the next mint gives.
    pub next_mint: u128,
    /// Leading hexadecimal zeros that a hash needs.
    pub hex_zeros: u32,
    /// The same in bits.
    pub difficulty_bits: u32,
}

/// The figures that are shown once, at the start.
#[derive(Clone, Copy, Debug, PartialEq, Eq)]
pub struct StatusReport {
    pub round: RoundReport,
    /// Whole tokens in the full supply.
    pub max_supply: u128,
    /// Whole tokens that the wallet has minted.
    pub wallet_minted: u128,
    /// Whole tokens that the wallet holds.
    pub wallet_balance: u128,
}

/// What a status says about a round.
#[derive(Clone, Copy, Debug, PartialEq, Eq, Structural)]
pub enum Verdict {
    /// All tokens are minted.
    MaxSupplyReached,
    /// The wallet has minted its share.
    WalletCapReached,
    /// There is something to mine.
    Mine,
}

/// The limit of one wallet, in base units.
pub open spec fn wallet_cap() -> nat {
    (WALLET_MINT_CAP_PFFT * WEI_PER_ETH) as nat
}

/// The share of the supply that is minted, in hundredths of a percent; the
/// product is taken modulo 2^256.
pub open spec fn progress(total_minted: nat, max_supply: nat) -> nat {
    ((total_minted * 10_000) % modulus()) / max_supply
}

/// The lowest 32 bits of a number.
pub open spec fn low_u32(value: nat) -> nat {
    value % 0x1_0000_0000
}

impl Status {
    /// The target is the one that belongs to the number of zeros.
    pub open spec fn wf(self) -> bool {
        self.target@ == target_value(self.hex_zeros@)
    }

    /// The figures of a round report are within their types.
    pub open spec fn round_reportable(self) -> bool {
        &&& self.hex_zeros@ <= u128::MAX
        &&& low_u32(self.hex_zeros@) * 4 <= u32::MAX
        &&& self.max_supply@ != 0
        &&& progress(self.total_minted@, self.max_supply@) <= u128::MAX
        &&& self.total_minted@ / WEI_PER_ETH as nat <= u128::MAX
        &&& self.next_mint@ / WEI_PER_ETH as nat <= u128::MAX
    }

    /// The figures of a full report are within their types.
    pub open spec fn reportable(self) -> bool {
        &&& self.round_reportable()
        &&& self.max_supply@ / WEI_PER_ETH as nat <= u128::MAX
        &&& self.wallet_minted@ / WEI_PER_ETH as nat <= u128::MAX
        &&& self.wallet_bal@ / WEI_PER_ETH as nat <= u128::MAX
    }

    /// Tokens are left, and the wallet may mint more.
    pub open spec fn mineable(self) -> bool {
        &&& self.total_minted@ < self.max_supply@
        &&& self.wallet_minted@ < wallet_cap()
    }

    /// The status that follows from what the contract answered.
    pub fn from_readings(
        hex_zeros: U256,
        total_minted: U256,
        max_supply: U256,
        next_mint: U256,
        wallet_minted: U256,
        wallet_bal: U256,
    ) -> (r: Status)
        ensures
            r.wf(),
            r.hex_zeros == hex_zeros,
            r.total_minted == total_minted,
            r.max_supply == max_supply,
            r.next_mint == next_mint,
            r.wallet_minted == wallet_minted,
            r.wallet_bal == wallet_bal,
    {
        let target = target_from_hex_zeros(hex_zeros);
        Status {
            hex_zeros,
            total_minted,
            max_supply,
            next_mint,
            wallet_minted,
            wallet_bal,
            target,
        }
    }

    /// Whether the target is the one that belongs to the number of zeros.
    pub fn is_wf(&self) -> (r: bool)
        ensures
            r == self.wf(),
    {
        let target = target_from_hex_zeros(self.hex_zeros);
        target.le(&self.target) && self.target.le(&target)
    }

    /// Whether a round report can be made.
    pub fn is_round_reportable(&self) -> (r: bool)
        ensures
            r == self.round_reportable(),
    {
        if !self.hex_zeros.fits_u128() {
            return false;
        }
        let low: u128 = self.hex_zeros.to_u128() % 0x1_0000_0000;
        if low * 4 > 0xFFFF_FFFF || self.max_supply.le(&U256::zero()) {
            return false;
        }
        progress_quotient(self.total_minted, self.max_supply).fits_u128() && whole_tokens_fit(
            self.total_minted,
        ) && whole_tokens_fit(self.next_mint)
    }

    /// Whether a full report can be made.
    pub fn is_reportable(&self) -> (r: bool)
        ensures
            r == self.reportable(),
    {
        self.is_round_reportable() && whole_tokens_fit(self.max_supply) && whole_tokens_fit(
            self.wallet_minted,
        ) && whole_tokens_fit(self.wallet_bal)
    }

    /// The figures for the start of a round.
    pub fn round_report(&self) -> (r: RoundReport)
        requires
            self.round_reportable(),
        ensures
            r.minted == self.total_minted@ / WEI_PER_ETH as nat,
            r.progress_bp == progress(self.total_minted@, self.max_supply@),
            r.next_mint == self.next_mint@ / WEI_PER_ETH as nat,
            r.hex_zeros == low_u32(self.hex_zeros@),
            r.difficulty_bits == 4 * low_u32(self.hex_zeros@),
            r.minted * 1_000_000_000_000_000_000 <= self.total_minted@ < (r.minted + 1) * 1_000_000_000_000_000_000,
            r.next_mint * 1_000_000_000_000_000_000 <= self.next_mint@ < (r.next_mint + 1) * 1_000_000_000_000_000_000,
            r.progress_bp * self.max_supply@ <= self.total_minted@ * 10_000,
            self.total_minted@ * 10_000 < (r.progress_bp + 1) * self.max_supply@,
            r.difficulty_bits == 4 * r.hex_zeros,
            r.hex_zeros == self.hex_zeros@ % 0x1_0000_0000,
            self.hex_zeros@ < 0x4000_0000 ==> r.hex_zeros == self.hex_zeros@
                && r.difficulty_bits == 4 * self.hex_zeros@,
    {
        proof {
            law_reported_progress_is_a_quotient(*self);
        }
        let progress_bp: u128 = progress_quotient(self.total_minted, self.max_supply).to_u128();
        let hex_zeros: u32 = (self.hex_zeros.to_u128() % 0x1_0000_0000) as u32;
        RoundReport {
            minted: whole_tokens(self.total_minted),
            progress_bp,
            next_mint: whole_tokens(self.next_mint),
            hex_zeros,
            difficulty_bits: hex_zeros * 4,
        }
    }

    /// The figures for the start of the session.
    pub fn report(&self) -> (r: StatusReport)
        requires
            self.reportable(),
        ensures
            r.round.minted == self.total_minted@ / WEI_PER_ETH as nat,
            r.round.progress_bp == progress(self.total_minted@, self.max_supply@),
            r.round.next_mint == self.next_mint@ / WEI_PER_ETH as nat,
            r.round.hex_zeros == low_u32(self.hex_zeros@),
            r.round.difficulty_bits == 4 * low_u32(self.hex_zeros@),
            r.max_supply == self.max_supply@ / WEI_PER_ETH as nat,
            r.wallet_minted == self.wallet_minted@ / WEI_PER_ETH as nat,
            r.wallet_balance == self.wallet_bal@ / WEI_PER_ETH as nat,
            r.round.minted * 1_000_000_000_000_000_000 <= self.total_minted@ < (r.round.minted + 1) * 1_000_000_000_000_000_000,
            r.round.next_mint * 1_000_000_000_000_000_000 <= self.next_mint@ < (r.round.next_mint + 1) * 1_000_000_000_000_000_000,
            r.round.progress_bp * self.max_supply@ <= self.total_minted@ * 10_000,
            self.total_minted@ * 10_000 < (r.round.progress_bp + 1) * self.max_supply@,
            r.round.difficulty_bits == 4 * r.round.hex_zeros,
            r.round.hex_zeros == self.hex_zeros@ % 0x1_0000_0000,
            self.hex_zeros@ < 0x4000_0000 ==> r.round.hex_zeros == self.hex_zeros@
                && r.round.difficulty_bits == 4 * self.hex_zeros@,
            r.max_supply * 1_000_000_000_000_000_000 <= self.max_supply@ < (r.max_supply + 1) * 1_000_000_000_000_000_000,
            r.wallet_minted * 1_000_000_000_000_000_000 <= self.wallet_minted@ < (r.wallet_minted + 1) * 1_000_000_000_000_000_000,
            r.wallet_balance * 1_000_000_000_000_000_000 <= self.wallet_bal@ < (r.wallet_balance + 1) * 1_000_000_000_000_000_000,
    {
        StatusReport {
            round: self.round_report(),
            max_supply: whole_tokens(self.max_supply),
            wallet_minted: whole_tokens(self.wallet_minted),
            wallet_balance: whole_tokens(self.wallet_bal),
        }
    }

    /// Whether to mine another round. A reached supply is told before a
    /// reached wallet limit.
    pub fn assess(&self) -> (r: Verdict)
        ensures
            r == Verdict::MaxSupplyReached <==> self.total_minted@ >= self.max_supply@,
            r == Verdict::WalletCapReached <==> self.total_minted@ < self.max_supply@
                && self.wallet_minted@ >= wallet_cap(),
            r == Verdict::Mine <==> self.mineable(),
            r == Verdict::Mine <==> self.total_minted@ < self.max_supply@ && self.wallet_minted@
                < 10_000_000_000_000_000_000_000,
    {
        let cap = wallet_cap_wei();
        if self.max_supply.le(&self.total_minted) {
            Verdict::MaxSupplyReached
        } else if cap.le(&self.wallet_minted) {
            Verdict::WalletCapReached
        } else {
            Verdict::Mine
        }
    }
}

/// The minted share of the supply, before it is narrowed to 128 bits.
fn progress_quotient(total_minted: U256, max_supply: U256) -> (r: U256)
    requires
        max_supply@ != 0,
    ensures
        r@ == progress(total_minted@, max_supply@),
{
    quotient(wrapping_product(total_minted, U256::from_u64(10_000)), max_supply)
}

/// A 128-bit number is its own remainder modulo 2^256.
proof fn lemma_small_remainder(value: nat)
    requires
        value <= u128::MAX,
    ensures
        value % modulus() == value,
{
    lemma2_to64();
    lemma2_to64_rest();
    lemma_pow2_adds(64, 64);
    lemma_pow2_adds(128, 128);
    assert(pow2(128) * pow2(128) >= pow2(128)) by (nonlinear_arith)
        requires
            pow2(128) >= 1,
    ;
    lemma_small_mod(value, modulus());
}

/// The limit of one wallet, in base units.
pub fn wallet_cap_wei() -> (r: U256)
    ensures
        r@ == wallet_cap(),
        r@ == 10_000_000_000_000_000_000_000,
{
    proof {
        lemma_small_remainder(wallet_cap());
    }
    wrapping_product(U256::from_u128(WALLET_MINT_CAP_PFFT), U256::from_u64(WEI_PER_ETH))
}

/// The amount for which the contract is asked what a mint would give.
pub fn mint_probe() -> (r: U256)
    ensures
        r@ == MINT_PROBE_PFFT * WEI_PER_ETH,
        r@ == 1_000_000_000_000_000_000_000,
{
    proof {
        lemma_small_remainder((MINT_PROBE_PFFT * WEI_PER_ETH) as nat);
    }
    wrapping_product(U256::from_u64(MINT_PROBE_PFFT), U256::from_u64(WEI_PER_ETH))
}

/// Whether a balance is too low to pay for gas.
pub fn balance_is_low(eth_bal: U256) -> (r: bool)
    ensures
        r == (eth_bal@ < MIN_GAS_WEI),
        r == (eth_bal@ < 50_000_000_000_000),
{
    eth_bal.lt(&U256::from_u64(MIN_GAS_WEI))
}

/// The progress in a report is the exact share, rounded down: where the product
/// would wrap, the minted tokens are too many to be reported.
pub proof fn law_reported_progress_is_exact(status: Status)
    requires
        status.round_reportable(),
    ensures
        progress(status.total_minted@, status.max_supply@) == (status.total_minted@ * 10_000)
            / status.max_supply@,
{
    let total = status.total_minted@;
    lemma2_to64();
    lemma2_to64_rest();
    lemma_pow2_adds(64, 64);
    lemma_pow2_adds(128, 64);
    lemma_pow2_adds(192, 64);
    assert(total < (u128::MAX + 1) * WEI_PER_ETH);
    lemma_small_mod(total * 10_000, modulus());
}

/// The progress is at most 100 percent as long as no more than the supply is
/// minted. It is 100 percent when all of it is, provided that ten thousand
/// supplies are a 256-bit number.
pub proof fn law_progress_is_a_share(total_minted: nat, max_supply: nat)
    requires
        total_minted <= max_supply,
        0 < max_supply,
    ensures
        progress(total_minted, max_supply) <= 10_000,
        max_supply * 10_000 < modulus() ==> progress(max_supply, max_supply) == 10_000,
{
    lemma_pow2_pos(256);
    lemma_mod_decreases(total_minted * 10_000, modulus());
    lemma_div_by_multiple(10_000, max_supply as int);
    lemma_div_is_ordered(
        ((total_minted * 10_000) % modulus()) as int,
        (max_supply * 10_000) as int,
        max_supply as int,
    );
    if max_supply * 10_000 < modulus() {
        lemma_small_mod(max_supply * 10_000, modulus());
    }
}

/// The progress in a report is the largest number of hundredths of a percent of
/// the supply that is minted.
pub proof fn law_reported_progress_is_a_quotient(status: Status)
    requires
        status.round_reportable(),
    ensures
        progress(status.total_minted@, status.max_supply@) * status.max_supply@
            <= status.total_minted@ * 10_000,
        status.total_minted@ * 10_000 < (progress(status.total_minted@, status.max_supply@) + 1)
            * status.max_supply@,
{
    law_reported_progress_is_exact(status);
    let a = (status.total_minted@ * 10_000) as int;
    let b = status.max_supply@ as int;
    let q = a / b;
    lemma_fundamental_div_mod(a, b);
    assert(q * b <= a && a < (q + 1) * b) by (nonlinear_arith)
        requires
            a == b * q + a % b,
            0 <= a % b < b,
    ;
}

/// Below 2^30 the number of hexadecimal zeros is shown as it is and never keeps
/// a report from being made; above, the figure is what its lowest 32 bits are.
pub proof fn law_zeros_are_shown(hex_zeros: nat)
    ensures
        hex_zeros < 0x4000_0000 ==> low_u32(hex_zeros) == hex_zeros && low_u32(hex_zeros) * 4
            <= u32::MAX,
        low_u32(hex_zeros) <= u32::MAX,
        exists|high: nat| hex_zeros == #[trigger] (high * 0x1_0000_0000) + low_u32(hex_zeros),
{
    assert(hex_zeros == ((hex_zeros / 0x1_0000_0000) * 0x1_0000_0000) + low_u32(hex_zeros));
}

/// A round report can be made exactly if every figure in it is within its type
/// and there is a supply to take a share of.
pub proof fn law_round_reportable_form(status: Status)
    ensures
        status.round_reportable() <==> {
            &&& status.hex_zeros@ <= u128::MAX
            &&& (status.hex_zeros@ % 0x1_0000_0000) * 4 <= u32::MAX
            &&& status.max_supply@ > 0
            &&& ((status.total_minted@ * 10_000) % modulus()) / status.max_supply@ <= u128::MAX
            &&& status.total_minted@ < (u128::MAX + 1) * 1_000_000_000_000_000_000
            &&& status.next_mint@ < (u128::MAX + 1) * 1_000_000_000_000_000_000
        },
{
}

/// A full report can be made exactly if a round report can and its other figures
/// are within their types.
pub proof fn law_reportable_form(status: Status)
    ensures
        status.reportable() <==> {
            &&& status.round_reportable()
            &&& status.max_supply@ < (u128::MAX + 1) * 1_000_000_000_000_000_000
            &&& status.wallet_minted@ < (u128::MAX + 1) * 1_000_000_000_000_000_000
            &&& status.wallet_bal@ < (u128::MAX + 1) * 1_000_000_000_000_000_000
        },
{
}

/// An ordinary status can be reported: one with a supply, at most that much
/// minted, fewer than 2^30 hexadecimal zeros, and amounts of less than 2^128
/// base units.
pub proof fn law_ordinary_status_is_reportable(status: Status)
    requires
        status.hex_zeros@ < 0x4000_0000,
        0 < status.max_supply@ <= u128::MAX,
        status.total_minted@ <= status.max_supply@,
        status.next_mint@ <= u128::MAX,
        status.wallet_minted@ <= u128::MAX,
        status.wallet_bal@ <= u128::MAX,
    ensures
        status.reportable(),
{
    law_zeros_are_shown(status.hex_zeros@);
    law_progress_is_a_share(status.total_minted@, status.max_supply@);
}

/// There is something to mine exactly as long as tokens are left and the wallet
/// has minted fewer than ten thousand.
pub proof fn law_mineable_form(status: Status)
    ensures
        wallet_cap() == 10_000_000_000_000_000_000_000,
        status.mineable() <==> status.total_minted@ < status.max_supply@ && status.wallet_minted@
            < 10_000_000_000_000_000_000_000,
{
}

/// A status is in order exactly if its target is 2^256 - 1, shifted right by
/// four bits for each hexadecimal zero, whatever its other figures are.
pub proof fn law_status_in_order(status: Status)
    ensures
        status.wf() <==> status.target@ == (modulus() - 1) as nat / pow2(
            4 * status.hex_zeros@,
        ),
{
}

} // verus!
