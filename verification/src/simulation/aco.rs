use vstd::prelude::*;

verus! {

/// The ant-colony-optimisation variants compared by the validation matrix.
#[derive(Clone, Copy, Debug, PartialEq, Eq, Structural)]
pub enum AcoStrategy {
    Basic,
    MaxMin,
    AsRank,
    AntNet,
}

impl AcoStrategy {
    /// Every strategy, in the order of the validation matrix.
    pub fn all() -> (strategies: [Self; 4])
        ensures
            strategies@ == seq![
                AcoStrategy::Basic,
                AcoStrategy::MaxMin,
                AcoStrategy::AsRank,
                AcoStrategy::AntNet,
            ],
    {
        let strategies = [Self::Basic, Self::MaxMin, Self::AsRank, Self::AntNet];
        proof {
            assert(strategies@ =~= seq![
                AcoStrategy::Basic,
                AcoStrategy::MaxMin,
                AcoStrategy::AsRank,
                AcoStrategy::AntNet,
            ]);
        }
        strategies
    }

    pub open spec fn label_text(self) -> Seq<char> {
        match self {
            AcoStrategy::Basic => "basic"@,
            AcoStrategy::MaxMin => "max_min"@,
            AcoStrategy::AsRank => "as_rank"@,
            AcoStrategy::AntNet => "ant_net"@,
        }
    }

    /// The strategy's name in reports.
    pub fn label(self) -> (label: &'static str)
        ensures
            label@ == self.label_text(),
    {
        match self {
            Self::Basic => "basic",
            Self::MaxMin => "max_min",
            Self::AsRank => "as_rank",
            Self::AntNet => "ant_net",
        }
    }
}

/// The per-mille exploration bucket of an ant at a tick: a multiplicative
/// hash of the tick mixed with the ant id, reduced modulo 1000.
pub open spec fn exploration_bucket_of(tick: usize, ant_id: usize) -> u64 {
    ((((tick as int) * 1103515245) as u64 ^ (ant_id as u64)).wrapping_add(12345)) % 1000
}

/// The deterministic per-mille exploration threshold of `ant_id` at `tick`;
/// a policy divides it by 1000 to get a threshold in `[0, 1)`.
pub fn exploration_bucket(tick: usize, ant_id: usize) -> (bucket: u64)
    requires
        (tick as int) * 1103515245 <= u64::MAX,
    ensures
        bucket == exploration_bucket_of(tick, ant_id),
        bucket < 1000,
{
    let mixed = (tick as u64 * 1103515245) ^ (ant_id as u64);
    let hash = mixed.wrapping_add(12345);
    hash % 1000
}

} // verus!
