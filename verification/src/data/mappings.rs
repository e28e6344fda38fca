//! The fixed table that translates a metrics-provider symbol into the
//! product identifier of the exchange provider.

use crate::text::same_text;
use vstd::prelude::*;

verus! {

/// The pairs of symbol and product identifier, in the order of the table.
pub open spec fn symbol_table() -> Seq<(Seq<char>, Seq<char>)> {
    seq![
        ("bitcoin"@, "BTC-USD"@),
        ("ethereum"@, "ETH-USD"@),
        ("solana"@, "SOL-USD"@),
        ("cardano"@, "ADA-USD"@),
        ("avalanche"@, "AVAX-USD"@),
        ("polkadot"@, "DOT-USD"@),
        ("chainlink"@, "LINK-USD"@),
        ("polygon"@, "POL-USD"@),
        ("litecoin"@, "LTC-USD"@),
        ("uniswap"@, "UNI-USD"@),
        ("stellar"@, "XLM-USD"@),
        ("cosmos"@, "ATOM-USD"@),
        ("near"@, "NEAR-USD"@),
        ("algorand"@, "ALGO-USD"@),
        ("filecoin"@, "FIL-USD"@),
        ("internet-computer"@, "ICP-USD"@),
        ("aptos"@, "APT-USD"@),
        ("arbitrum"@, "ARB-USD"@),
        ("optimism"@, "OP-USD"@),
        ("sui"@, "SUI-USD"@),
        ("hedera"@, "HBAR-USD"@),
        ("aave"@, "AAVE-USD"@),
        ("maker"@, "MKR-USD"@),
        ("render"@, "RENDER-USD"@),
        ("injective"@, "INJ-USD"@),
        ("sei"@, "SEI-USD"@),
        ("celestia"@, "TIA-USD"@),
        ("stacks"@, "STX-USD"@),
        ("the-graph"@, "GRT-USD"@),
        ("eos"@, "EOS-USD"@),
        ("flow"@, "FLOW-USD"@),
        ("axie-infinity"@, "AXS-USD"@),
        ("decentraland"@, "MANA-USD"@),
        ("the-sandbox"@, "SAND-USD"@),
        ("enjin-coin"@, "ENJ-USD"@),
        ("gala"@, "GALA-USD"@),
        ("immutable-x"@, "IMX-USD"@),
        ("lido-dao"@, "LDO-USD"@),
        ("rocket-pool"@, "RPL-USD"@),
        ("compound"@, "COMP-USD"@),
        ("sushi"@, "SUSHI-USD"@),
        ("1inch"@, "1INCH-USD"@),
        ("curve-dao-token"@, "CRV-USD"@),
        ("yearn-finance"@, "YFI-USD"@),
        ("synthetix"@, "SNX-USD"@),
        ("fetch-ai"@, "FET-USD"@),
        ("ocean-protocol"@, "OCEAN-USD"@),
        ("theta"@, "THETA-USD"@),
        ("tezos"@, "XTZ-USD"@),
        ("iota"@, "IOTA-USD"@),
        ("zcash"@, "ZEC-USD"@),
        ("dash"@, "DASH-USD"@),
        ("ethereum-classic"@, "ETC-USD"@),
        ("bitcoin-cash"@, "BCH-USD"@),
        ("dogecoin"@, "DOGE-USD"@),
        ("shiba-inu"@, "SHIB-USD"@),
        ("pepe"@, "PEPE-USD"@),
        ("bonk"@, "BONK-USD"@),
        ("floki"@, "FLOKI-USD"@),
        ("jasmy"@, "JASMY-USD"@),
        ("chiliz"@, "CHZ-USD"@),
        ("mask-network"@, "MASK-USD"@),
        ("blur"@, "BLUR-USD"@),
        ("worldcoin"@, "WLD-USD"@),
        ("jupiter"@, "JUP-USD"@),
        ("pyth-network"@, "PYTH-USD"@),
        ("jito"@, "JTO-USD"@),
        ("dydx"@, "DYDX-USD"@),
        ("gmx"@, "GMX-USD"@),
        ("raydium"@, "RAY-USD"@),
        ("ondo-finance"@, "ONDO-USD"@),
        ("ethena"@, "ENA-USD"@),
        ("pendle"@, "PENDLE-USD"@),
        ("eigen-layer"@, "EIGEN-USD"@),
        ("zksync"@, "ZK-USD"@),
        ("scroll"@, "SCR-USD"@),
        ("mantle"@, "MNT-USD"@),
        ("ton"@, "TON-USD"@),
        ("tron"@, "TRX-USD"@),
        ("xrp"@, "XRP-USD"@),
    ]
}

/// The product identifier that a table gives a symbol: that of the last pair
/// with the symbol, `None` where no pair has it.
pub open spec fn lookup(table: Seq<(Seq<char>, Seq<char>)>, symbol: Seq<char>) -> Option<
    Seq<char>,
>
    decreases table.len(),
{
    if table.len() == 0 {
        None
    } else if table.last().0 == symbol {
        Some(table.last().1)
    } else {
        lookup(table.drop_last(), symbol)
    }
}

/// The product identifier of a supported symbol, `None` for any other.
pub open spec fn product_of(symbol: Seq<char>) -> Option<Seq<char>> {
    lookup(symbol_table(), symbol)
}

/// The texts of a vector of pairs.
pub open spec fn pair_texts(pairs: Seq<(&'static str, &'static str)>) -> Seq<
    (Seq<char>, Seq<char>),
> {
    Seq::new(pairs.len(), |i: int| (pairs[i].0@, pairs[i].1@))
}

/// The table as data.
pub fn mapping_table() -> (pairs: Vec<(&'static str, &'static str)>)
    ensures
        pair_texts(pairs@) == symbol_table(),
{
    let pairs: Vec<(&'static str, &'static str)> = vec![
        ("bitcoin", "BTC-USD"),
        ("ethereum", "ETH-USD"),
        ("solana", "SOL-USD"),
        ("cardano", "ADA-USD"),
        ("avalanche", "AVAX-USD"),
        ("polkadot", "DOT-USD"),
        ("chainlink", "LINK-USD"),
        ("polygon", "POL-USD"),
        ("litecoin", "LTC-USD"),
        ("uniswap", "UNI-USD"),
        ("stellar", "XLM-USD"),
        ("cosmos", "ATOM-USD"),
        ("near", "NEAR-USD"),
        ("algorand", "ALGO-USD"),
        ("filecoin", "FIL-USD"),
        ("internet-computer", "ICP-USD"),
        ("aptos", "APT-USD"),
        ("arbitrum", "ARB-USD"),
        ("optimism", "OP-USD"),
        ("sui", "SUI-USD"),
        ("hedera", "HBAR-USD"),
        ("aave", "AAVE-USD"),
        ("maker", "MKR-USD"),
        ("render", "RENDER-USD"),
        ("injective", "INJ-USD"),
        ("sei", "SEI-USD"),
        ("celestia", "TIA-USD"),
        ("stacks", "STX-USD"),
        ("the-graph", "GRT-USD"),
        ("eos", "EOS-USD"),
        ("flow", "FLOW-USD"),
        ("axie-infinity", "AXS-USD"),
        ("decentraland", "MANA-USD"),
        ("the-sandbox", "SAND-USD"),
        ("enjin-coin", "ENJ-USD"),
        ("gala", "GALA-USD"),
        ("immutable-x", "IMX-USD"),
        ("lido-dao", "LDO-USD"),
        ("rocket-pool", "RPL-USD"),
        ("compound", "COMP-USD"),
        ("sushi", "SUSHI-USD"),
        ("1inch", "1INCH-USD"),
        ("curve-dao-token", "CRV-USD"),
        ("yearn-finance", "YFI-USD"),
        ("synthetix", "SNX-USD"),
        ("fetch-ai", "FET-USD"),
        ("ocean-protocol", "OCEAN-USD"),
        ("theta", "THETA-USD"),
        ("tezos", "XTZ-USD"),
        ("iota", "IOTA-USD"),
        ("zcash", "ZEC-USD"),
        ("dash", "DASH-USD"),
        ("ethereum-classic", "ETC-USD"),
        ("bitcoin-cash", "BCH-USD"),
        ("dogecoin", "DOGE-USD"),
        ("shiba-inu", "SHIB-USD"),
        ("pepe", "PEPE-USD"),
        ("bonk", "BONK-USD"),
        ("floki", "FLOKI-USD"),
        ("jasmy", "JASMY-USD"),
        ("chiliz", "CHZ-USD"),
        ("mask-network", "MASK-USD"),
        ("blur", "BLUR-USD"),
        ("worldcoin", "WLD-USD"),
        ("jupiter", "JUP-USD"),
        ("pyth-network", "PYTH-USD"),
        ("jito", "JTO-USD"),
        ("dydx", "DYDX-USD"),
        ("gmx", "GMX-USD"),
        ("raydium", "RAY-USD"),
        ("ondo-finance", "ONDO-USD"),
        ("ethena", "ENA-USD"),
        ("pendle", "PENDLE-USD"),
        ("eigen-layer", "EIGEN-USD"),
        ("zksync", "ZK-USD"),
        ("scroll", "SCR-USD"),
        ("mantle", "MNT-USD"),
        ("ton", "TON-USD"),
        ("tron", "TRX-USD"),
        ("xrp", "XRP-USD"),
    ];
    assert(pair_texts(pairs@) =~= symbol_table());
    pairs
}

/// Looks up the product identifier of a symbol.
pub fn artemis_to_coinbase(artemis_symbol: &str) -> (r: Option<&'static str>)
    ensures
        match r {
            Some(product) => product_of(artemis_symbol@) == Some(product@),
            None => product_of(artemis_symbol@) is None,
        },
{
    let pairs = mapping_table();
    let mut i: usize = pairs.len();
    assert(pair_texts(pairs@).take(i as int) =~= pair_texts(pairs@));
    while i > 0
        invariant
            i <= pairs.len(),
            pair_texts(pairs@) == symbol_table(),
            product_of(artemis_symbol@) == lookup(
                pair_texts(pairs@).take(i as int),
                artemis_symbol@,
            ),
        decreases i,
    {
        i -= 1;
        let ghost prefix = pair_texts(pairs@).take(i + 1);
        assert(prefix.last() == (pairs@[i as int].0@, pairs@[i as int].1@));
        assert(prefix.drop_last() =~= pair_texts(pairs@).take(i as int));
        if same_text(pairs[i].0, artemis_symbol) {
            return Some(pairs[i].1);
        }
    }
    None
}

/// Whether the table has a product identifier for the symbol.
pub fn is_supported(artemis_symbol: &str) -> (r: bool)
    ensures
        r == product_of(artemis_symbol@).is_some(),
{
    artemis_to_coinbase(artemis_symbol).is_some()
}

/// The supported symbols, in the order of the table.
pub open spec fn supported_symbols() -> Seq<Seq<char>> {
    Seq::new(symbol_table().len(), |i: int| symbol_table()[i].0)
}

/// No symbol occurs twice in the table.
pub proof fn lemma_symbols_distinct()
    ensures
        forall|i: int, j: int|
            0 <= i < j < supported_symbols().len() ==> supported_symbols()[i]
                != supported_symbols()[j],
{
    reveal_strlit("bitcoin");
    reveal_strlit("ethereum");
    reveal_strlit("solana");
    reveal_strlit("cardano");
    reveal_strlit("avalanche");
    reveal_strlit("polkadot");
    reveal_strlit("chainlink");
    reveal_strlit("polygon");
    reveal_strlit("litecoin");
    reveal_strlit("uniswap");
    reveal_strlit("stellar");
    reveal_strlit("cosmos");
    reveal_strlit("near");
    reveal_strlit("algorand");
    reveal_strlit("filecoin");
    reveal_strlit("internet-computer");
    reveal_strlit("aptos");
    reveal_strlit("arbitrum");
    reveal_strlit("optimism");
    reveal_strlit("sui");
    reveal_strlit("hedera");
    reveal_strlit("aave");
    reveal_strlit("maker");
    reveal_strlit("render");
    reveal_strlit("injective");
    reveal_strlit("sei");
    reveal_strlit("celestia");
    reveal_strlit("stacks");
    reveal_strlit("the-graph");
    reveal_strlit("eos");
    reveal_strlit("flow");
    reveal_strlit("axie-infinity");
    reveal_strlit("decentraland");
    reveal_strlit("the-sandbox");
    reveal_strlit("enjin-coin");
    reveal_strlit("gala");
    reveal_strlit("immutable-x");
    reveal_strlit("lido-dao");
    reveal_strlit("rocket-pool");
    reveal_strlit("compound");
    reveal_strlit("sushi");
    reveal_strlit("1inch");
    reveal_strlit("curve-dao-token");
    reveal_strlit("yearn-finance");
    reveal_strlit("synthetix");
    reveal_strlit("fetch-ai");
    reveal_strlit("ocean-protocol");
    reveal_strlit("theta");
    reveal_strlit("tezos");
    reveal_strlit("iota");
    reveal_strlit("zcash");
    reveal_strlit("dash");
    reveal_strlit("ethereum-classic");
    reveal_strlit("bitcoin-cash");
    reveal_strlit("dogecoin");
    reveal_strlit("shiba-inu");
    reveal_strlit("pepe");
    reveal_strlit("bonk");
    reveal_strlit("floki");
    reveal_strlit("jasmy");
    reveal_strlit("chiliz");
    reveal_strlit("mask-network");
    reveal_strlit("blur");
    reveal_strlit("worldcoin");
    reveal_strlit("jupiter");
    reveal_strlit("pyth-network");
    reveal_strlit("jito");
    reveal_strlit("dydx");
    reveal_strlit("gmx");
    reveal_strlit("raydium");
    reveal_strlit("ondo-finance");
    reveal_strlit("ethena");
    reveal_strlit("pendle");
    reveal_strlit("eigen-layer");
    reveal_strlit("zksync");
    reveal_strlit("scroll");
    reveal_strlit("mantle");
    reveal_strlit("ton");
    reveal_strlit("tron");
    reveal_strlit("xrp");
    let t = supported_symbols();
    assert forall|i: int, j: int| 0 <= i < j < t.len() implies t[i] != t[j] by {
        assert(t[i].len() != t[j].len() || t[i][0] != t[j][0] || t[i][1] != t[j][1] || t[i][2]
            != t[j][2] || t[i][3] != t[j][3] || t[i][4] != t[j][4] || t[i][5] != t[j][5]);
    }
}

/// Every symbol that has a product identifier, each once.
pub fn get_supported_symbols() -> (symbols: Vec<&'static str>)
    ensures
        symbols@.len() == supported_symbols().len(),
        forall|i: int| 0 <= i < symbols@.len() ==> (#[trigger] symbols@[i])@ == supported_symbols()[i],
{
    let pairs = mapping_table();
    let mut symbols: Vec<&'static str> = Vec::new();
    let mut i: usize = 0;
    while i < pairs.len()
        invariant
            i <= pairs.len(),
            pair_texts(pairs@) == symbol_table(),
            symbols@.len() == i,
            forall|k: int| 0 <= k < i ==> (#[trigger] symbols@[k])@ == supported_symbols()[k],
        decreases pairs.len() - i,
    {
        assert(pair_texts(pairs@)[i as int].0 == pairs@[i as int].0@);
        symbols.push(pairs[i].0);
        i += 1;
    }
    symbols
}

/// The last pair of a table with a symbol gives the symbol its product.
proof fn lemma_lookup_last(table: Seq<(Seq<char>, Seq<char>)>, i: int)
    requires
        0 <= i < table.len(),
        forall|j: int| i < j < table.len() ==> table[j].0 != table[i].0,
    ensures
        lookup(table, table[i].0) == Some(table[i].1),
    decreases table.len(),
{
    if i < table.len() - 1 {
        lemma_lookup_last(table.drop_last(), i);
    }
}

/// A symbol of no pair has no product.
proof fn lemma_lookup_none(table: Seq<(Seq<char>, Seq<char>)>, symbol: Seq<char>)
    requires
        forall|j: int| 0 <= j < table.len() ==> table[j].0 != symbol,
    ensures
        lookup(table, symbol) is None,
    decreases table.len(),
{
    if table.len() > 0 {
        lemma_lookup_none(table.drop_last(), symbol);
    }
}

/// The supported symbols are exactly the symbols that have a product: each
/// symbol of the table has the product of its pair, and a symbol that is not
/// in the table has none.
pub proof fn lemma_supported_symbols()
    ensures
        forall|i: int|
            0 <= i < symbol_table().len() ==> product_of(#[trigger] supported_symbols()[i])
                == Some(symbol_table()[i].1),
        forall|symbol: Seq<char>|
            #[trigger] product_of(symbol) is Some <==> supported_symbols().contains(symbol),
{
    lemma_symbols_distinct();
    let table = symbol_table();
    assert forall|i: int| 0 <= i < table.len() implies product_of(
        #[trigger] supported_symbols()[i],
    ) == Some(table[i].1) by {
        assert forall|j: int| i < j < table.len() implies table[j].0 != table[i].0 by {
            assert(supported_symbols()[i] != supported_symbols()[j]);
        }
        lemma_lookup_last(table, i);
    }
    assert forall|symbol: Seq<char>| #[trigger]
        product_of(symbol) is Some <==> supported_symbols().contains(symbol) by {
        if supported_symbols().contains(symbol) {
            let i = choose|i: int|
                0 <= i < supported_symbols().len() && supported_symbols()[i] == symbol;
            assert(product_of(supported_symbols()[i]) == Some(table[i].1));
        } else {
            assert forall|j: int| 0 <= j < table.len() implies table[j].0 != symbol by {
                assert(supported_symbols()[j] == table[j].0);
            }
            lemma_lookup_none(table, symbol);
        }
    }
}

} // verus!
