//! Rarity tiers and their per-attempt odds tables.
//!
//! Every odds value is a positive rational with one decimal digit, so it is
//! stored exactly as an integer number of tenths: an entry of `131` means
//! "1 in 13.1" for that attempt. Each table holds exactly `TABLE_LEN`
//! measured attempts; beyond the table the last entry is assumed to hold
//! forever (flat, steady-state extrapolation).

use vstd::prelude::*;

verus! {

/// Number of measured attempts in every odds table.
pub const TABLE_LEN: usize = 50;

/// Smallest odds value that a table may hold, in tenths (odds of 1.0:
/// success is certain on that attempt).
pub const MIN_ODDS_TENTHS: u32 = 10;

/// Largest odds value that a table holds, in tenths (odds of 100000.0).
pub const MAX_ODDS_TENTHS: u32 = 1000000;

/// The rarity of the item being hunted; each tier owns one fixed odds table.
#[derive(Clone, Copy, Debug, PartialEq, Eq, Structural)]
pub enum Rarity {
    Rare,
    VeryRare,
    UltraRare,
}

/// Odds table for `Rarity::Rare`, in tenths.
pub open spec fn rare_table() -> Seq<u32> {
    seq![
        200000u32, 5830, 1870, 880, 510, 330, 230, 170, 131, 104,
        85, 71, 60, 52, 45, 40, 36, 32, 29, 26,
        24, 22, 21, 19, 18, 17, 16, 15, 15, 14,
        13, 13, 12, 12, 12, 11, 11, 11, 11, 10,
        10, 10, 10, 10, 10, 10, 10, 10, 10, 10,
    ]
}

/// Odds table for `Rarity::VeryRare`, in tenths.
pub open spec fn very_rare_table() -> Seq<u32> {
    seq![
        200000u32, 36530, 10590, 4850, 2760, 1780, 1240, 920, 700, 560,
        450, 380, 320, 270, 240, 210, 180, 160, 141, 127,
        115, 105, 96, 88, 81, 75, 70, 65, 60, 57,
        53, 50, 47, 45, 42, 40, 38, 36, 34, 33,
        32, 30, 29, 28, 27, 26, 25, 24, 23, 22,
    ]
}

/// Odds table for `Rarity::UltraRare`, in tenths.
pub open spec fn ultra_rare_table() -> Seq<u32> {
    seq![
        1000000u32, 273800, 86140, 40210, 23030, 14860, 10370, 7640, 5860, 4640,
        3760, 3110, 2620, 2230, 1930, 1680, 1480, 1310, 1170, 1050,
        950, 860, 790, 720, 660, 610, 570, 530, 490, 460,
        430, 400, 380, 350, 330, 320, 300, 280, 270, 260,
        240, 230, 220, 210, 200, 190, 190, 180, 170, 170,
    ]
}

/// The odds table owned by a rarity tier.
pub open spec fn table(r: Rarity) -> Seq<u32> {
    match r {
        Rarity::Rare => rare_table(),
        Rarity::VeryRare => very_rare_table(),
        Rarity::UltraRare => ultra_rare_table(),
    }
}

/// Instantaneous odds (in tenths) governing the 0-based attempt index `i`:
/// the stored entry within the table, and the last entry forever past it.
pub open spec fn odds_at(r: Rarity, i: int) -> u32
    recommends
        i >= 0,
{
    if i < TABLE_LEN { table(r)[i] } else { table(r)[TABLE_LEN - 1] }
}

/// Every table has exactly `TABLE_LEN` entries, all of them between
/// `MIN_ODDS_TENTHS` and `MAX_ODDS_TENTHS`.
pub proof fn lemma_table_wf(r: Rarity)
    ensures
        table(r).len() == TABLE_LEN,
        forall|i: int|
            0 <= i < TABLE_LEN ==> MIN_ODDS_TENTHS <= #[trigger] table(r)[i] <= MAX_ODDS_TENTHS,
{
}

/// The extrapolated odds inherit the table bounds at every attempt index.
pub proof fn lemma_odds_at_wf(r: Rarity, i: int)
    requires
        i >= 0,
    ensures
        MIN_ODDS_TENTHS <= odds_at(r, i) <= MAX_ODDS_TENTHS,
{
    lemma_table_wf(r);
}

/// Past the end of the table the odds are exactly the last stored entry.
pub proof fn lemma_odds_at_steady_state(r: Rarity, i: int)
    requires
        i >= TABLE_LEN - 1,
    ensures
        odds_at(r, i) == table(r)[TABLE_LEN - 1],
{
}

impl Rarity {
    /// The full odds table for this tier, in tenths.
    pub fn odds(&self) -> (v: Vec<u32>)
        ensures
            v@ == table(*self),
    {
        let a: [u32; 50] = match self {
            Rarity::Rare => [
                200000u32, 5830, 1870, 880, 510, 330, 230, 170, 131, 104,
                85, 71, 60, 52, 45, 40, 36, 32, 29, 26,
                24, 22, 21, 19, 18, 17, 16, 15, 15, 14,
                13, 13, 12, 12, 12, 11, 11, 11, 11, 10,
                10, 10, 10, 10, 10, 10, 10, 10, 10, 10,
            ],
            Rarity::VeryRare => [
                200000u32, 36530, 10590, 4850, 2760, 1780, 1240, 920, 700, 560,
                450, 380, 320, 270, 240, 210, 180, 160, 141, 127,
                115, 105, 96, 88, 81, 75, 70, 65, 60, 57,
                53, 50, 47, 45, 42, 40, 38, 36, 34, 33,
                32, 30, 29, 28, 27, 26, 25, 24, 23, 22,
            ],
            Rarity::UltraRare => [
                1000000u32, 273800, 86140, 40210, 23030, 14860, 10370, 7640, 5860, 4640,
                3760, 3110, 2620, 2230, 1930, 1680, 1480, 1310, 1170, 1050,
                950, 860, 790, 720, 660, 610, 570, 530, 490, 460,
                430, 400, 380, 350, 330, 320, 300, 280, 270, 260,
                240, 230, 220, 210, 200, 190, 190, 180, 170, 170,
            ],
        };
        proof {
            assert(a@ =~= table(*self));
        }
        let mut v: Vec<u32> = Vec::new();
        let mut i: usize = 0;
        while i < 50
            invariant
                i <= 50,
                a@ == table(*self),
                v@ =~= a@.subrange(0, i as int),
            decreases 50 - i,
        {
            v.push(a[i]);
            i += 1;
        }
        proof {
            assert(v@ =~= table(*self));
        }
        v
    }

    /// Instantaneous odds (in tenths) for the 0-based attempt index `i`,
    /// with the flat extrapolation past the table's end.
    pub fn lookup(&self, i: usize) -> (o: u32)
        ensures
            o == odds_at(*self, i as int),
            MIN_ODDS_TENTHS <= o <= MAX_ODDS_TENTHS,
    {
        let v = self.odds();
        proof {
            lemma_table_wf(*self);
        }
        if i < TABLE_LEN {
            v[i]
        } else {
            v[TABLE_LEN - 1]
        }
    }
}

} // verus!
