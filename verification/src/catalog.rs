use vstd::prelude::*;

use crate::text::text_eq;

verus! {

/// The periods over which profit and loss can be shown.
#[derive(Clone, Copy, Debug, PartialEq, Eq, Structural)]
pub enum TimeRange {
    D7,
    D30,
    D90,
    All,
}

impl TimeRange {
    /// The text of the period's button.
    pub open spec fn spec_label(self) -> Seq<char> {
        match self {
            TimeRange::D7 => "7D"@,
            TimeRange::D30 => "30D"@,
            TimeRange::D90 => "90D"@,
            TimeRange::All => "ALL"@,
        }
    }

    /// How many days back the period reaches; none for the whole holding.
    pub open spec fn spec_days(self) -> Option<u32> {
        match self {
            TimeRange::D7 => Some(7u32),
            TimeRange::D30 => Some(30u32),
            TimeRange::D90 => Some(90u32),
            TimeRange::All => None,
        }
    }

    /// The periods in the order their buttons are shown.
    pub open spec fn spec_all() -> Seq<TimeRange> {
        seq![TimeRange::D7, TimeRange::D30, TimeRange::D90, TimeRange::All]
    }

    pub fn label(self) -> (s: &'static str)
        ensures
            s@ == self.spec_label(),
    {
        match self {
            TimeRange::D7 => "7D",
            TimeRange::D30 => "30D",
            TimeRange::D90 => "90D",
            TimeRange::All => "ALL",
        }
    }

    pub fn days(self) -> (d: Option<u32>)
        ensures
            d == self.spec_days(),
    {
        match self {
            TimeRange::D7 => Some(7),
            TimeRange::D30 => Some(30),
            TimeRange::D90 => Some(90),
            TimeRange::All => None,
        }
    }

    pub fn all() -> (v: Vec<TimeRange>)
        ensures
            v@ == Self::spec_all(),
    {
        let v = vec![TimeRange::D7, TimeRange::D30, TimeRange::D90, TimeRange::All];
        assert(v@ =~= Self::spec_all());
        v
    }
}

/// The chains a holding can sit on.
#[derive(Clone, Copy, Debug, PartialEq, Eq, Structural)]
pub enum Chain {
    Bitcoin,
    Ethereum,
    Bnb,
    Solana,
    Polygon,
    Avalanche,
    Arbitrum,
    Optimism,
    Base,
    CosmosHub,
    Osmosis,
    Juno,
    Injective,
}

impl Chain {
    /// Every chain, in the order they are offered.
    pub open spec fn spec_all() -> Seq<Chain> {
        seq![
            Chain::Bitcoin,
            Chain::Ethereum,
            Chain::Bnb,
            Chain::Solana,
            Chain::Polygon,
            Chain::Avalanche,
            Chain::Arbitrum,
            Chain::Optimism,
            Chain::Base,
            Chain::CosmosHub,
            Chain::Osmosis,
            Chain::Juno,
            Chain::Injective,
        ]
    }

    /// The chain's display name.
    pub open spec fn spec_label(self) -> Seq<char> {
        match self {
            Chain::Bitcoin => "Bitcoin"@,
            Chain::Ethereum => "Ethereum"@,
            Chain::Bnb => "BNB Chain"@,
            Chain::Solana => "Solana"@,
            Chain::Polygon => "Polygon"@,
            Chain::Avalanche => "Avalanche"@,
            Chain::Arbitrum => "Arbitrum"@,
            Chain::Optimism => "Optimism"@,
            Chain::Base => "Base"@,
            Chain::CosmosHub => "Cosmos Hub"@,
            Chain::Osmosis => "Osmosis"@,
            Chain::Juno => "Juno"@,
            Chain::Injective => "Injective"@,
        }
    }

    pub fn all() -> (v: Vec<Chain>)
        ensures
            v@ == Self::spec_all(),
    {
        let v = vec![
            Chain::Bitcoin,
            Chain::Ethereum,
            Chain::Bnb,
            Chain::Solana,
            Chain::Polygon,
            Chain::Avalanche,
            Chain::Arbitrum,
            Chain::Optimism,
            Chain::Base,
            Chain::CosmosHub,
            Chain::Osmosis,
            Chain::Juno,
            Chain::Injective,
        ];
        assert(v@ =~= Self::spec_all());
        v
    }

    pub fn label(self) -> (s: &'static str)
        ensures
            s@ == self.spec_label(),
    {
        match self {
            Chain::Bitcoin => "Bitcoin",
            Chain::Ethereum => "Ethereum",
            Chain::Bnb => "BNB Chain",
            Chain::Solana => "Solana",
            Chain::Polygon => "Polygon",
            Chain::Avalanche => "Avalanche",
            Chain::Arbitrum => "Arbitrum",
            Chain::Optimism => "Optimism",
            Chain::Base => "Base",
            Chain::CosmosHub => "Cosmos Hub",
            Chain::Osmosis => "Osmosis",
            Chain::Juno => "Juno",
            Chain::Injective => "Injective",
        }
    }

    /// The chain whose display name is `text`, as the chain selector looks it up.
    pub fn from_label(text: &str) -> (r: Option<Chain>)
        ensures
            r == chain_named(text@),
    {
        let all = Chain::all();
        let n = all.len();
        for i in 0..n
            invariant
                n == all.len(),
                all@ == Self::spec_all(),
                forall|j: int| 0 <= j < i ==> (#[trigger] all@[j]).spec_label() != text@,
        {
            let c = all[i];
            if text_eq(c.label(), text) {
                proof {
                    let d = choose|d: Chain| #[trigger] d.spec_label() == text@;
                    lemma_chain_labels_distinct(c, d);
                }
                return Some(c);
            }
        }
        proof {
            assert forall|c: Chain| #[trigger] c.spec_label() != text@ by {
                lemma_every_chain_listed(c);
                let k = choose|k: int| 0 <= k < n && all@[k] == c;
                assert(all@[k].spec_label() != text@);
            }
        }
        None
    }
}

/// Each chain's display name, and the order in which the chains are offered.
pub proof fn lemma_chain_names()
    ensures
        Chain::Bitcoin.spec_label() == "Bitcoin"@,
        Chain::Ethereum.spec_label() == "Ethereum"@,
        Chain::Bnb.spec_label() == "BNB Chain"@,
        Chain::Solana.spec_label() == "Solana"@,
        Chain::Polygon.spec_label() == "Polygon"@,
        Chain::Avalanche.spec_label() == "Avalanche"@,
        Chain::Arbitrum.spec_label() == "Arbitrum"@,
        Chain::Optimism.spec_label() == "Optimism"@,
        Chain::Base.spec_label() == "Base"@,
        Chain::CosmosHub.spec_label() == "Cosmos Hub"@,
        Chain::Osmosis.spec_label() == "Osmosis"@,
        Chain::Juno.spec_label() == "Juno"@,
        Chain::Injective.spec_label() == "Injective"@,
        Chain::spec_all().len() == 13,
        Chain::spec_all()[0] == Chain::Bitcoin,
        Chain::spec_all()[1] == Chain::Ethereum,
        Chain::spec_all()[2] == Chain::Bnb,
        Chain::spec_all()[3] == Chain::Solana,
        Chain::spec_all()[4] == Chain::Polygon,
        Chain::spec_all()[5] == Chain::Avalanche,
        Chain::spec_all()[6] == Chain::Arbitrum,
        Chain::spec_all()[7] == Chain::Optimism,
        Chain::spec_all()[8] == Chain::Base,
        Chain::spec_all()[9] == Chain::CosmosHub,
        Chain::spec_all()[10] == Chain::Osmosis,
        Chain::spec_all()[11] == Chain::Juno,
        Chain::spec_all()[12] == Chain::Injective,
{
}

/// Each period's button text, and the order of the buttons.
pub proof fn lemma_period_names()
    ensures
        TimeRange::D7.spec_label() == "7D"@,
        TimeRange::D30.spec_label() == "30D"@,
        TimeRange::D90.spec_label() == "90D"@,
        TimeRange::All.spec_label() == "ALL"@,
        TimeRange::spec_all() == seq![TimeRange::D7, TimeRange::D30, TimeRange::D90, TimeRange::All],
{
}

/// The names of the two kinds of quote source.
pub proof fn lemma_kind_names()
    ensures
        QuoteSourceKind::Rest.spec_label() == "RESTful API"@,
        QuoteSourceKind::WebSocket.spec_label() == "WebSocket"@,
{
}

/// Each chain occurs in the list of all chains.
pub proof fn lemma_every_chain_listed(c: Chain)
    ensures
        exists|k: int| 0 <= k < Chain::spec_all().len() && Chain::spec_all()[k] == c,
{
    let all = Chain::spec_all();
    match c {
        Chain::Bitcoin => assert(all[0] == c),
        Chain::Ethereum => assert(all[1] == c),
        Chain::Bnb => assert(all[2] == c),
        Chain::Solana => assert(all[3] == c),
        Chain::Polygon => assert(all[4] == c),
        Chain::Avalanche => assert(all[5] == c),
        Chain::Arbitrum => assert(all[6] == c),
        Chain::Optimism => assert(all[7] == c),
        Chain::Base => assert(all[8] == c),
        Chain::CosmosHub => assert(all[9] == c),
        Chain::Osmosis => assert(all[10] == c),
        Chain::Juno => assert(all[11] == c),
        Chain::Injective => assert(all[12] == c),
    }
}

/// The list of all chains names every chain exactly once.
pub proof fn lemma_chain_list_complete()
    ensures
        forall|c: Chain| #[trigger] Chain::spec_all().contains(c),
        Chain::spec_all().no_duplicates(),
{
    assert forall|c: Chain| #[trigger] Chain::spec_all().contains(c) by {
        lemma_every_chain_listed(c);
    }
}

/// No two chains share a display name, so a name finds its chain back.
pub proof fn lemma_chain_labels_distinct(a: Chain, b: Chain)
    ensures
        a.spec_label() == b.spec_label() ==> a == b,
{
    reveal_strlit("Bitcoin");
    reveal_strlit("Ethereum");
    reveal_strlit("BNB Chain");
    reveal_strlit("Solana");
    reveal_strlit("Polygon");
    reveal_strlit("Avalanche");
    reveal_strlit("Arbitrum");
    reveal_strlit("Optimism");
    reveal_strlit("Base");
    reveal_strlit("Cosmos Hub");
    reveal_strlit("Osmosis");
    reveal_strlit("Juno");
    reveal_strlit("Injective");
    if a.spec_label() == b.spec_label() && a != b {
        assert(a.spec_label().len() == b.spec_label().len());
        assert(a.spec_label()[0] == b.spec_label()[0]);
    }
}

/// Looking a chain up by its own display name gives that chain.
pub proof fn lemma_chain_label_round_trip(c: Chain)
    ensures
        chain_named(c.spec_label()) == Some(c),
{
    let d = choose|d: Chain| #[trigger] d.spec_label() == c.spec_label();
    lemma_chain_labels_distinct(c, d);
}

/// The chain whose display name is `text`, if there is one.
pub open spec fn chain_named(text: Seq<char>) -> Option<Chain> {
    if exists|c: Chain| #[trigger] c.spec_label() == text {
        Some(choose|c: Chain| #[trigger] c.spec_label() == text)
    } else {
        None
    }
}

/// Where to ask for a chain's quotes: a plain HTTP request, or a WebSocket stream.
#[derive(Clone, Copy, Debug, PartialEq, Eq, Structural)]
pub enum QuoteSourceKind {
    Rest,
    WebSocket,
}

impl QuoteSourceKind {
    pub open spec fn spec_label(self) -> Seq<char> {
        match self {
            QuoteSourceKind::Rest => "RESTful API"@,
            QuoteSourceKind::WebSocket => "WebSocket"@,
        }
    }

    pub fn label(self) -> (s: &'static str)
        ensures
            s@ == self.spec_label(),
    {
        match self {
            QuoteSourceKind::Rest => "RESTful API",
            QuoteSourceKind::WebSocket => "WebSocket",
        }
    }

    /// The kind that the source-type selector stands for: WebSocket for its
    /// label, the plain HTTP kind for any other text.
    pub fn from_label(text: &str) -> (k: QuoteSourceKind)
        ensures
            k == (if text@ == QuoteSourceKind::WebSocket.spec_label() {
                QuoteSourceKind::WebSocket
            } else {
                QuoteSourceKind::Rest
            }),
    {
        if text_eq(text, QuoteSourceKind::WebSocket.label()) {
            QuoteSourceKind::WebSocket
        } else {
            QuoteSourceKind::Rest
        }
    }
}

/// The two kinds have different labels, so the selector finds each kind back from its label.
pub proof fn lemma_kind_label_round_trip(k: QuoteSourceKind)
    ensures
        (if k.spec_label() == QuoteSourceKind::WebSocket.spec_label() {
            QuoteSourceKind::WebSocket
        } else {
            QuoteSourceKind::Rest
        }) == k,
{
    reveal_strlit("RESTful API");
    reveal_strlit("WebSocket");
    assert(QuoteSourceKind::Rest.spec_label().len() != QuoteSourceKind::WebSocket.spec_label().len());
}

} // verus!
