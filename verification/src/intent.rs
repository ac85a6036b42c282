//! Lightweight intent parser. Production can hand the text to a language
//! model, but this deterministic layer keeps the engine self-contained for
//! offline tooling.
//!
//! The text is searched byte by byte after ASCII lower-casing; every pattern
//! searched for is ASCII, so a match never starts or ends inside a multi-byte
//! character.

use vstd::prelude::*;
use vstd::string::StringSliceAdditionalSpecFns;
use crate::chain::{chain_index, all_chains, ChainId};
use crate::text::{
    lemma_first_occurrence, occurs_at,
    all_digits, digits_value, digits_value_exec, is_digit, lemma_digits_value_nonneg, pow10,
    ascii_of, contains_bytes, contains_exec, ends_with_bytes, ends_with_exec,
    first_occurrence, first_occurrence_exec, lower_bytes, to_ascii_lowercase_bytes, upper_bytes,
    lemma_lower_bytes_forgets_case,
};

verus! {

/// The chain aliases recognised in text, grouped by chain in seating order.
pub open spec fn alias_text(k: int) -> Seq<char> {
    if k == 0 {
        "solana"@
    } else if k == 1 {
        "sol "@
    } else if k == 2 {
        "ethereum"@
    } else if k == 3 {
        " eth"@
    } else if k == 4 {
        "arbitrum"@
    } else if k == 5 {
        "arb"@
    } else if k == 6 {
        "base"@
    } else if k == 7 {
        "polygon"@
    } else if k == 8 {
        "matic"@
    } else if k == 9 {
        "bnb"@
    } else if k == 10 {
        "bsc"@
    } else if k == 11 {
        "avalanche"@
    } else if k == 12 {
        "avax"@
    } else if k == 13 {
        "sui"@
    } else {
        Seq::empty()
    }
}

/// The token names recognised in text, in order of preference.
pub open spec fn token_text(k: int) -> Seq<char> {
    if k == 0 {
        "usdc"@
    } else if k == 1 {
        "usdt"@
    } else if k == 2 {
        "eth"@
    } else if k == 3 {
        "sol"@
    } else if k == 4 {
        "wbtc"@
    } else if k == 5 {
        "btc"@
    } else if k == 6 {
        "matic"@
    } else if k == 7 {
        "bnb"@
    } else if k == 8 {
        "avax"@
    } else if k == 9 {
        "sui"@
    } else if k == 10 {
        "dai"@
    } else {
        Seq::empty()
    }
}

/// The symbol reported for each recognised token name.
pub open spec fn token_symbol(k: int) -> Seq<char> {
    if k == 0 {
        "USDC"@
    } else if k == 1 {
        "USDT"@
    } else if k == 2 {
        "ETH"@
    } else if k == 3 {
        "SOL"@
    } else if k == 4 {
        "WBTC"@
    } else if k == 5 {
        "BTC"@
    } else if k == 6 {
        "MATIC"@
    } else if k == 7 {
        "BNB"@
    } else if k == 8 {
        "AVAX"@
    } else if k == 9 {
        "SUI"@
    } else if k == 10 {
        "DAI"@
    } else {
        Seq::empty()
    }
}

/// The bytes of alias `k`.
fn alias_bytes(k: usize) -> (r: &'static [u8])
    requires
        k < 14,
    ensures
        r@ == ascii_of(alias_text(k as int)),
{
    match k {
        0 => {
            let b = "solana".as_bytes();
            proof {
                reveal_strlit("solana");
                vstd::utf8::is_ascii_chars_encode_utf8("solana"@);
                assert(b@ =~= ascii_of("solana"@));
            }
            b
        },
        1 => {
            let b = "sol ".as_bytes();
            proof {
                reveal_strlit("sol ");
                vstd::utf8::is_ascii_chars_encode_utf8("sol "@);
                assert(b@ =~= ascii_of("sol "@));
            }
            b
        },
        2 => {
            let b = "ethereum".as_bytes();
            proof {
                reveal_strlit("ethereum");
                vstd::utf8::is_ascii_chars_encode_utf8("ethereum"@);
                assert(b@ =~= ascii_of("ethereum"@));
            }
            b
        },
        3 => {
            let b = " eth".as_bytes();
            proof {
                reveal_strlit(" eth");
                vstd::utf8::is_ascii_chars_encode_utf8(" eth"@);
                assert(b@ =~= ascii_of(" eth"@));
            }
            b
        },
        4 => {
            let b = "arbitrum".as_bytes();
            proof {
                reveal_strlit("arbitrum");
                vstd::utf8::is_ascii_chars_encode_utf8("arbitrum"@);
                assert(b@ =~= ascii_of("arbitrum"@));
            }
            b
        },
        5 => {
            let b = "arb".as_bytes();
            proof {
                reveal_strlit("arb");
                vstd::utf8::is_ascii_chars_encode_utf8("arb"@);
                assert(b@ =~= ascii_of("arb"@));
            }
            b
        },
        6 => {
            let b = "base".as_bytes();
            proof {
                reveal_strlit("base");
                vstd::utf8::is_ascii_chars_encode_utf8("base"@);
                assert(b@ =~= ascii_of("base"@));
            }
            b
        },
        7 => {
            let b = "polygon".as_bytes();
            proof {
                reveal_strlit("polygon");
                vstd::utf8::is_ascii_chars_encode_utf8("polygon"@);
                assert(b@ =~= ascii_of("polygon"@));
            }
            b
        },
        8 => {
            let b = "matic".as_bytes();
            proof {
                reveal_strlit("matic");
                vstd::utf8::is_ascii_chars_encode_utf8("matic"@);
                assert(b@ =~= ascii_of("matic"@));
            }
            b
        },
        9 => {
            let b = "bnb".as_bytes();
            proof {
                reveal_strlit("bnb");
                vstd::utf8::is_ascii_chars_encode_utf8("bnb"@);
                assert(b@ =~= ascii_of("bnb"@));
            }
            b
        },
        10 => {
            let b = "bsc".as_bytes();
            proof {
                reveal_strlit("bsc");
                vstd::utf8::is_ascii_chars_encode_utf8("bsc"@);
                assert(b@ =~= ascii_of("bsc"@));
            }
            b
        },
        11 => {
            let b = "avalanche".as_bytes();
            proof {
                reveal_strlit("avalanche");
                vstd::utf8::is_ascii_chars_encode_utf8("avalanche"@);
                assert(b@ =~= ascii_of("avalanche"@));
            }
            b
        },
        12 => {
            let b = "avax".as_bytes();
            proof {
                reveal_strlit("avax");
                vstd::utf8::is_ascii_chars_encode_utf8("avax"@);
                assert(b@ =~= ascii_of("avax"@));
            }
            b
        },
        _ => {
            let b = "sui".as_bytes();
            proof {
                reveal_strlit("sui");
                vstd::utf8::is_ascii_chars_encode_utf8("sui"@);
                assert(b@ =~= ascii_of("sui"@));
            }
            b
        },
    }
}

/// The bytes of token name `k`.
fn token_bytes(k: usize) -> (r: &'static [u8])
    requires
        k < 11,
    ensures
        r@ == ascii_of(token_text(k as int)),
{
    match k {
        0 => {
            let b = "usdc".as_bytes();
            proof {
                reveal_strlit("usdc");
                vstd::utf8::is_ascii_chars_encode_utf8("usdc"@);
                assert(b@ =~= ascii_of("usdc"@));
            }
            b
        },
        1 => {
            let b = "usdt".as_bytes();
            proof {
                reveal_strlit("usdt");
                vstd::utf8::is_ascii_chars_encode_utf8("usdt"@);
                assert(b@ =~= ascii_of("usdt"@));
            }
            b
        },
        2 => {
            let b = "eth".as_bytes();
            proof {
                reveal_strlit("eth");
                vstd::utf8::is_ascii_chars_encode_utf8("eth"@);
                assert(b@ =~= ascii_of("eth"@));
            }
            b
        },
        3 => {
            let b = "sol".as_bytes();
            proof {
                reveal_strlit("sol");
                vstd::utf8::is_ascii_chars_encode_utf8("sol"@);
                assert(b@ =~= ascii_of("sol"@));
            }
            b
        },
        4 => {
            let b = "wbtc".as_bytes();
            proof {
                reveal_strlit("wbtc");
                vstd::utf8::is_ascii_chars_encode_utf8("wbtc"@);
                assert(b@ =~= ascii_of("wbtc"@));
            }
            b
        },
        5 => {
            let b = "btc".as_bytes();
            proof {
                reveal_strlit("btc");
                vstd::utf8::is_ascii_chars_encode_utf8("btc"@);
                assert(b@ =~= ascii_of("btc"@));
            }
            b
        },
        6 => {
            let b = "matic".as_bytes();
            proof {
                reveal_strlit("matic");
                vstd::utf8::is_ascii_chars_encode_utf8("matic"@);
                assert(b@ =~= ascii_of("matic"@));
            }
            b
        },
        7 => {
            let b = "bnb".as_bytes();
            proof {
                reveal_strlit("bnb");
                vstd::utf8::is_ascii_chars_encode_utf8("bnb"@);
                assert(b@ =~= ascii_of("bnb"@));
            }
            b
        },
        8 => {
            let b = "avax".as_bytes();
            proof {
                reveal_strlit("avax");
                vstd::utf8::is_ascii_chars_encode_utf8("avax"@);
                assert(b@ =~= ascii_of("avax"@));
            }
            b
        },
        9 => {
            let b = "sui".as_bytes();
            proof {
                reveal_strlit("sui");
                vstd::utf8::is_ascii_chars_encode_utf8("sui"@);
                assert(b@ =~= ascii_of("sui"@));
            }
            b
        },
        _ => {
            let b = "dai".as_bytes();
            proof {
                reveal_strlit("dai");
                vstd::utf8::is_ascii_chars_encode_utf8("dai"@);
                assert(b@ =~= ascii_of("dai"@));
            }
            b
        },
    }
}

/// The symbol of token name `k`.
fn token_symbol_str(k: usize) -> (r: &'static str)
    requires
        k < 11,
    ensures
        r@ == token_symbol(k as int),
{
    match k {
        0 => "USDC",
        1 => "USDT",
        2 => "ETH",
        3 => "SOL",
        4 => "WBTC",
        5 => "BTC",
        6 => "MATIC",
        7 => "BNB",
        8 => "AVAX",
        9 => "SUI",
        _ => "DAI",
    }
}

/// The byte pattern of alias `k`.
pub open spec fn alias_pattern(k: int) -> Seq<u8> {
    ascii_of(alias_text(k))
}

/// The byte pattern of token name `k`.
pub open spec fn token_pattern(k: int) -> Seq<u8> {
    ascii_of(token_text(k))
}

/// The earlier of two optional positions.
pub open spec fn earlier(a: Option<int>, b: Option<int>) -> Option<int> {
    match (a, b) {
        (Some(x), Some(y)) => if y < x {
            Some(y)
        } else {
            Some(x)
        },
        (Some(x), None) => Some(x),
        (None, _) => b,
    }
}

/// Where a chain is first named in `s`: the earliest first occurrence of any
/// of its aliases.
#[verifier::opaque]
pub open spec fn chain_first(s: Seq<u8>, c: ChainId) -> Option<int> {
    let f = |k: int| first_occurrence(s, alias_pattern(k));
    match c {
        ChainId::Solana => earlier(f(0), f(1)),
        ChainId::Ethereum => earlier(f(2), f(3)),
        ChainId::Arbitrum => earlier(f(4), f(5)),
        ChainId::Base => f(6),
        ChainId::Polygon => earlier(f(7), f(8)),
        ChainId::Bnb => earlier(f(9), f(10)),
        ChainId::Avalanche => earlier(f(11), f(12)),
        ChainId::Sui => f(13),
    }
}

/// The chain alias `k` names.
pub open spec fn alias_chain(k: int) -> ChainId {
    if k <= 1 {
        ChainId::Solana
    } else if k <= 3 {
        ChainId::Ethereum
    } else if k <= 5 {
        ChainId::Arbitrum
    } else if k == 6 {
        ChainId::Base
    } else if k <= 8 {
        ChainId::Polygon
    } else if k <= 10 {
        ChainId::Bnb
    } else if k <= 12 {
        ChainId::Avalanche
    } else {
        ChainId::Sui
    }
}

/// Some alias of chain `c` occurs in `s` at byte `p`.
pub open spec fn chain_named_at(s: Seq<u8>, c: ChainId, p: int) -> bool {
    exists|k: int| 0 <= k < 14 && alias_chain(k) == c && occurs_at(s, alias_pattern(k), p)
}

/// Where a chain is first named is the first position at which one of its
/// aliases occurs.
pub proof fn lemma_chain_first_is_first_mention(s: Seq<u8>, c: ChainId)
    ensures
        chain_first(s, c) matches Some(p) ==> chain_named_at(s, c, p) && forall|q: int|
            0 <= q < p ==> !chain_named_at(s, c, q),
        chain_first(s, c) is None ==> forall|q: int| !chain_named_at(s, c, q),
{
    reveal(chain_first);
    assert forall|j: int|
        0 <= j < 14 implies {
        &&& first_occurrence(s, #[trigger] alias_pattern(j)) matches Some(p) ==> occurs_at(
            s,
            alias_pattern(j),
            p,
        ) && forall|q: int| 0 <= q < p ==> !occurs_at(s, alias_pattern(j), q)
        &&& first_occurrence(s, alias_pattern(j)) is None ==> forall|q: int|
            !occurs_at(s, alias_pattern(j), q)
    } by {
        lemma_first_occurrence(s, alias_pattern(j));
    }
    assert forall|q: int, j: int|
        0 <= j < 14 && alias_chain(j) == c && occurs_at(s, alias_pattern(j), q) implies (
        chain_first(s, c) matches Some(p) && p <= q) by {
        assert(first_occurrence(s, alias_pattern(j)) matches Some(p) ==> occurs_at(
            s,
            alias_pattern(j),
            p,
        ));
    }
    match chain_first(s, c) {
        Some(p) => {
            let a = if c == ChainId::Solana {
                0int
            } else if c == ChainId::Ethereum {
                2
            } else if c == ChainId::Arbitrum {
                4
            } else if c == ChainId::Base {
                6
            } else if c == ChainId::Polygon {
                7
            } else if c == ChainId::Bnb {
                9
            } else if c == ChainId::Avalanche {
                11
            } else {
                13
            };
            let alias = if first_occurrence(s, alias_pattern(a)) == Some(p) {
                a
            } else {
                a + 1
            };
            assert(occurs_at(s, alias_pattern(alias), p));
            assert(chain_named_at(s, c, p));
        },
        None => {},
    }
}

/// Chain `a` is named before chain `b` in `s` (at the same position, the
/// chain seated first counts as earlier).
pub open spec fn named_before(s: Seq<u8>, a: ChainId, b: ChainId) -> bool {
    match (chain_first(s, a), chain_first(s, b)) {
        (Some(pa), Some(pb)) => pa < pb || (pa == pb && chain_index(a) < chain_index(b)),
        _ => false,
    }
}

/// `r` lists the first two distinct chains named in `s`, in the order they
/// are first named (fewer when fewer are named).
pub open spec fn is_chain_pick(s: Seq<u8>, r: Seq<ChainId>) -> bool {
    &&& r.len() <= 2
    &&& forall|i: int| 0 <= i < r.len() ==> chain_first(s, #[trigger] r[i]) is Some
    &&& r.len() == 2 ==> named_before(s, r[0], r[1])
    &&& forall|c: ChainId|
        chain_first(s, c) is Some && !r.contains(c) ==> r.len() == 2 && named_before(s, r[1], c)
}

proof fn lemma_named_before_order(s: Seq<u8>, a: ChainId, b: ChainId, c: ChainId)
    ensures
        !named_before(s, a, a),
        named_before(s, a, b) ==> !named_before(s, b, a),
        named_before(s, a, b) && named_before(s, b, c) ==> named_before(s, a, c),
        a != b && chain_first(s, a) is Some && chain_first(s, b) is Some ==> named_before(s, a, b)
            || named_before(s, b, a),
{
}

/// The chain pick of a text is unique: the contract of `find_chains` pins
/// its result.
pub proof fn lemma_chain_pick_unique(s: Seq<u8>, r1: Seq<ChainId>, r2: Seq<ChainId>)
    requires
        is_chain_pick(s, r1),
        is_chain_pick(s, r2),
    ensures
        r1 == r2,
{
    if r1.len() >= 1 {
        assert(chain_first(s, r1[0]) is Some);
    }
    if r1.len() == 2 {
        assert(chain_first(s, r1[1]) is Some);
        lemma_named_before_order(s, r1[0], r1[1], r1[0]);
    }
    if r2.len() >= 1 {
        assert(chain_first(s, r2[0]) is Some);
    }
    if r2.len() == 2 {
        assert(chain_first(s, r2[1]) is Some);
        lemma_named_before_order(s, r2[0], r2[1], r2[0]);
    }
    if r1.len() >= 1 && !r2.contains(r1[0]) {
        assert(r2.len() == 2);
    }
    if r2.len() >= 1 && !r1.contains(r2[0]) {
        assert(r1.len() == 2);
    }
    if r1.len() == 2 && !r2.contains(r1[1]) {
        assert(r2.len() == 2);
    }
    if r2.len() == 2 && !r1.contains(r2[1]) {
        assert(r1.len() == 2);
    }
    if r1.len() == 0 {
        if r2.len() >= 1 {
            assert(!r1.contains(r2[0]));
        }
    } else if r2.len() == 0 {
        assert(!r2.contains(r1[0]));
    } else if r1.len() == 1 && r2.len() == 1 {
        if r1[0] != r2[0] {
            assert(!r2.contains(r1[0]));
        }
    } else if r1.len() == 1 && r2.len() == 2 {
        if r2[0] != r1[0] {
            assert(!r1.contains(r2[0]));
        } else {
            assert(!r1.contains(r2[1]));
        }
    } else if r1.len() == 2 && r2.len() == 1 {
        if r1[0] != r2[0] {
            assert(!r2.contains(r1[0]));
        } else {
            assert(!r2.contains(r1[1]));
        }
    } else {
        let (a, b, c, d) = (r1[0], r1[1], r2[0], r2[1]);
        lemma_named_before_order(s, a, b, c);
        lemma_named_before_order(s, a, b, d);
        lemma_named_before_order(s, a, c, d);
        lemma_named_before_order(s, b, c, d);
        lemma_named_before_order(s, c, d, a);
        lemma_named_before_order(s, c, d, b);
        lemma_named_before_order(s, d, a, b);
        lemma_named_before_order(s, b, a, c);
        lemma_named_before_order(s, c, a, b);
        lemma_named_before_order(s, d, c, a);
        lemma_named_before_order(s, b, c, a);
        lemma_named_before_order(s, a, d, c);
        lemma_named_before_order(s, d, b, a);
        lemma_named_before_order(s, c, b, d);
        lemma_named_before_order(s, a, c, b);
        lemma_named_before_order(s, b, d, c);
        if !r2.contains(a) {
            assert(named_before(s, d, a));
        }
        if !r2.contains(b) {
            assert(named_before(s, d, b));
        }
        if !r1.contains(c) {
            assert(named_before(s, b, c));
        }
        if !r1.contains(d) {
            assert(named_before(s, b, d));
        }
        assert(r2.contains(a) ==> a == c || a == d);
        assert(r2.contains(b) ==> b == c || b == d);
        assert(r1.contains(c) ==> c == a || c == b);
        assert(r1.contains(d) ==> d == a || d == b);
    }
    assert(r1 =~= r2);
}

/// The optional position as an optional integer.
pub open spec fn opt_pos(p: Option<usize>) -> Option<int> {
    match p {
        Some(x) => Some(x as int),
        None => None,
    }
}

fn earlier_exec(a: Option<usize>, b: Option<usize>) -> (r: Option<usize>)
    ensures
        opt_pos(r) == earlier(opt_pos(a), opt_pos(b)),
{
    match (a, b) {
        (Some(x), Some(y)) => if y < x {
            Some(y)
        } else {
            Some(x)
        },
        (Some(x), None) => Some(x),
        (None, _) => b,
    }
}

fn alias_first(s: &[u8], k: usize) -> (r: Option<usize>)
    requires
        k < 14,
    ensures
        opt_pos(r) == first_occurrence(s@, alias_pattern(k as int)),
{
    let pat = alias_bytes(k);
    first_occurrence_exec(s, pat)
}

/// Where chain `c` is first named in `s`.
fn chain_first_exec(s: &[u8], c: ChainId) -> (r: Option<usize>)
    ensures
        opt_pos(r) == chain_first(s@, c),
{
    reveal(chain_first);
    match c {
        ChainId::Solana => earlier_exec(alias_first(s, 0), alias_first(s, 1)),
        ChainId::Ethereum => earlier_exec(alias_first(s, 2), alias_first(s, 3)),
        ChainId::Arbitrum => earlier_exec(alias_first(s, 4), alias_first(s, 5)),
        ChainId::Base => alias_first(s, 6),
        ChainId::Polygon => earlier_exec(alias_first(s, 7), alias_first(s, 8)),
        ChainId::Bnb => earlier_exec(alias_first(s, 9), alias_first(s, 10)),
        ChainId::Avalanche => earlier_exec(alias_first(s, 11), alias_first(s, 12)),
        ChainId::Sui => alias_first(s, 13),
    }
}

/// The chain of a held candidate.
spec fn held(b: Option<(usize, ChainId)>) -> ChainId {
    match b {
        Some((_, c)) => c,
        None => ChainId::Solana,
    }
}

/// The first two distinct chains named in the bytes `s`.
fn chains_in(s: &[u8]) -> (r: Vec<ChainId>)
    ensures
        is_chain_pick(s@, r@),
{
    let all = ChainId::all();
    let mut best1: Option<(usize, ChainId)> = None;
    let mut best2: Option<(usize, ChainId)> = None;
    let mut i: usize = 0;
    while i < 8
        invariant
            all@ == all_chains(),
            0 <= i <= 8,
            best1 is None ==> best2 is None,
            best1 matches Some((p1, c1)) ==> chain_first(s@, c1) == Some(p1 as int)
                && chain_index(c1) < i,
            best2 matches Some((p2, c2)) ==> chain_first(s@, c2) == Some(p2 as int)
                && chain_index(c2) < i && named_before(s@, held(best1), c2),
            forall|c: ChainId|
                chain_index(c) < i && #[trigger] chain_first(s@, c) is Some ==> {
                    &&& best1 is Some
                    &&& c != held(best1) ==> {
                        &&& best2 is Some
                        &&& c != held(best2) ==> named_before(s@, held(best2), c)
                    }
                },
        decreases 8 - i,
    {
        let c = all[i];
        assert(chain_index(c) == i);
        let f = chain_first_exec(s, c);
        match f {
            Some(p) => {
                match best1 {
                    None => {
                        best1 = Some((p, c));
                    },
                    Some((p1, c1)) => {
                        if p < p1 {
                            best2 = best1;
                            best1 = Some((p, c));
                        } else {
                            match best2 {
                                None => {
                                    best2 = Some((p, c));
                                },
                                Some((p2, _)) => {
                                    if p < p2 {
                                        best2 = Some((p, c));
                                    }
                                },
                            }
                        }
                    },
                }
            },
            None => {},
        }
        i = i + 1;
    }
    let mut r: Vec<ChainId> = Vec::new();
    if let Some((_, c1)) = best1 {
        r.push(c1);
    }
    if let Some((_, c2)) = best2 {
        r.push(c2);
    }
    assert(best1 is Some ==> r@[0] == held(best1));
    assert(best2 is Some ==> r@[1] == held(best2));
    assert forall|c: ChainId|
        chain_first(s@, c) is Some && !r@.contains(c) implies r@.len() == 2 && named_before(
        s@,
        r@[1],
        c,
    ) by {
        assert(chain_index(c) < 8);
        if c == held(best1) {
            assert(r@.contains(r@[0]));
        } else if best2 is Some && c == held(best2) {
            assert(r@.contains(r@[1]));
        }
    }
    r
}

/// The first two distinct chains named in `s`, in the order they are first
/// named. `s` is searched as given; `parse_intent_regex` lower-cases first.
pub fn find_chains(s: &str) -> (r: Vec<ChainId>)
    ensures
        is_chain_pick(s.spec_bytes(), r@),
{
    chains_in(s.as_bytes())
}


/// Indices of the token names among the first `k` that occur in `s`, at most
/// two, in order of preference.
pub open spec fn token_picks(s: Seq<u8>, k: int) -> Seq<int>
    decreases k,
{
    if k <= 0 {
        Seq::empty()
    } else {
        let prev = token_picks(s, k - 1);
        if prev.len() < 2 && contains_bytes(s, token_pattern(k - 1)) {
            prev.push(k - 1)
        } else {
            prev
        }
    }
}

/// The symbols of the first two token names occurring in `s`.
pub open spec fn token_symbols(s: Seq<u8>) -> Seq<Seq<char>> {
    token_picks(s, 11).map_values(|k: int| token_symbol(k))
}

proof fn lemma_token_picks_len(s: Seq<u8>, k: int)
    ensures
        token_picks(s, k).len() <= 2,
        forall|i: int| 0 <= i < token_picks(s, k).len() ==> 0 <= #[trigger] token_picks(s, k)[i] < k,
    decreases k,
{
    if k > 0 {
        lemma_token_picks_len(s, k - 1);
    }
}

/// The tokens named in the bytes `s`.
fn tokens_in(s: &[u8]) -> (r: Vec<String>)
    ensures
        r@.len() == token_symbols(s@).len(),
        r@.len() <= 2,
        forall|i: int| 0 <= i < r@.len() ==> (#[trigger] r@[i])@ == token_symbols(s@)[i],
{
    let mut out: Vec<String> = Vec::new();
    let ghost mut picks: Seq<int> = Seq::empty();
    let mut k: usize = 0;
    while k < 11
        invariant
            0 <= k <= 11,
            picks == token_picks(s@, k as int),
            out@.len() == picks.len(),
            forall|i: int| 0 <= i < out@.len() ==> (#[trigger] out@[i])@ == token_symbol(picks[i]),
        decreases 11 - k,
    {
        proof {
            lemma_token_picks_len(s@, k as int);
        }
        if out.len() < 2 && contains_exec(s, token_bytes(k)) {
            out.push(String::from_str(token_symbol_str(k)));
            proof {
                picks = picks.push(k as int);
            }
        }
        k = k + 1;
    }
    proof {
        lemma_token_picks_len(s@, 11);
    }
    out
}

/// The first two token names (of USDC, USDT, ETH, SOL, WBTC, BTC, MATIC,
/// BNB, AVAX, SUI, DAI, in that order) occurring in `s`, upper-cased.
/// `s` is searched as given; `parse_intent_regex` lower-cases first.
pub fn find_tokens(s: &str) -> (r: Vec<String>)
    ensures
        r@.len() == token_symbols(s.spec_bytes()).len(),
        r@.len() <= 2,
        forall|i: int| 0 <= i < r@.len() ==> (#[trigger] r@[i])@ == token_symbols(s.spec_bytes())[i],
{
    tokens_in(s.as_bytes())
}


/// The number token of a text, as the amount scan collects it: starting at
/// the first digit (or first dot), digits and at most one dot, up to the
/// first other byte after it.
pub open spec fn number_scan(s: Seq<u8>, i: int, buf: Seq<u8>, seen_dot: bool) -> Seq<u8>
    decreases s.len() - i,
{
    if i < 0 || i >= s.len() {
        buf
    } else if is_digit(s[i]) {
        number_scan(s, i + 1, buf.push(s[i]), seen_dot)
    } else if s[i] == 46 && !seen_dot {
        number_scan(s, i + 1, buf.push(46u8), true)
    } else if buf.len() > 0 {
        buf
    } else {
        number_scan(s, i + 1, buf, seen_dot)
    }
}

/// The number token of `s`.
pub open spec fn number_token(s: Seq<u8>) -> Seq<u8> {
    number_scan(s, 0, Seq::empty(), false)
}

/// Position of the first dot of `buf` at or after `i` (its length if none).
pub open spec fn first_dot(buf: Seq<u8>, i: int) -> int
    decreases buf.len() - i,
{
    if i < 0 || i >= buf.len() {
        buf.len() as int
    } else if buf[i] == 46 {
        i
    } else {
        first_dot(buf, i + 1)
    }
}

/// Whether `buf` holds a decimal digit.
pub open spec fn has_digit(buf: Seq<u8>) -> bool {
    exists|i: int| 0 <= i < buf.len() && is_digit(#[trigger] buf[i])
}

/// The value of a number token in millionths: the integer part, plus the
/// first six decimals (further decimals are dropped).
pub open spec fn token_micro(buf: Seq<u8>) -> int {
    let k = first_dot(buf, 0);
    let int_part = buf.subrange(0, k);
    let frac = if k < buf.len() {
        buf.subrange(k + 1, buf.len() as int)
    } else {
        Seq::empty()
    };
    let m = if frac.len() < 6 {
        frac.len()
    } else {
        6
    };
    digits_value(int_part) * 1_000_000 + digits_value(frac.subrange(0, m as int)) * pow10(
        (6 - m) as nat,
    )
}

/// The scale a text puts on its number: thousands for " k", "k usd" or a
/// trailing "k", else millions for " m".
pub open spec fn amount_multiplier(s: Seq<u8>) -> int {
    if contains_bytes(s, ascii_of(" k"@)) || contains_bytes(s, ascii_of("k usd"@))
        || ends_with_bytes(s, ascii_of("k"@)) {
        1000
    } else if contains_bytes(s, ascii_of(" m"@)) {
        1_000_000
    } else {
        1
    }
}

/// The amount named in `s`, in millionths of a token: `None` when the number
/// token holds no digit, or when the amount exceeds 64 bits.
pub open spec fn amount_of(s: Seq<u8>) -> Option<u64> {
    let buf = number_token(s);
    let v = token_micro(buf) * amount_multiplier(s);
    if has_digit(buf) && v <= u64::MAX {
        Some(v as u64)
    } else {
        None
    }
}

/// The shape of a number token: digits and at most one dot.
spec fn token_shape(buf: Seq<u8>) -> bool {
    &&& forall|j: int| 0 <= j < buf.len() ==> is_digit(#[trigger] buf[j]) || buf[j] == 46
    &&& forall|j: int, k: int| 0 <= j < buf.len() && 0 <= k < buf.len() && #[trigger] buf[j] == 46
        && #[trigger] buf[k] == 46 ==> j == k
}

/// Collects the number token of `s`.
fn number_token_exec(s: &[u8]) -> (r: Vec<u8>)
    ensures
        r@ == number_token(s@),
        token_shape(r@),
{
    let mut buf: Vec<u8> = Vec::new();
    let mut seen_dot = false;
    let mut done = false;
    let mut i: usize = 0;
    while i < s.len() && !done
        invariant
            0 <= i <= s@.len(),
            done ==> number_token(s@) == buf@,
            !done ==> number_token(s@) == number_scan(s@, i as int, buf@, seen_dot),
            token_shape(buf@),
            !seen_dot ==> forall|j: int| 0 <= j < buf@.len() ==> #[trigger] buf@[j] != 46,
        decreases s@.len() - i + if done {
            0int
        } else {
            1int
        },
    {
        let ch = s[i];
        if 48 <= ch && ch <= 57 {
            buf.push(ch);
            i = i + 1;
        } else if ch == 46 && !seen_dot {
            buf.push(46);
            seen_dot = true;
            i = i + 1;
        } else if buf.len() > 0 {
            done = true;
        } else {
            i = i + 1;
        }
    }
    buf
}

/// The position of the first dot of `buf`.
fn first_dot_exec(buf: &Vec<u8>) -> (r: usize)
    ensures
        r == first_dot(buf@, 0),
        r <= buf@.len(),
        forall|j: int| 0 <= j < r ==> buf@[j] != 46,
        r < buf@.len() ==> buf@[r as int] == 46,
{
    let mut k: usize = 0;
    while k < buf.len() && buf[k] != 46
        invariant
            0 <= k <= buf@.len(),
            first_dot(buf@, 0) == first_dot(buf@, k as int),
            forall|j: int| 0 <= j < k ==> buf@[j] != 46,
        decreases buf@.len() - k,
    {
        k = k + 1;
    }
    k
}

/// Whether `buf` holds a decimal digit.
fn has_digit_exec(buf: &Vec<u8>) -> (r: bool)
    ensures
        r == has_digit(buf@),
{
    let mut i: usize = 0;
    while i < buf.len()
        invariant
            0 <= i <= buf@.len(),
            forall|j: int| 0 <= j < i ==> !is_digit(#[trigger] buf@[j]),
        decreases buf@.len() - i,
    {
        if 48 <= buf[i] && buf[i] <= 57 {
            return true;
        }
        i = i + 1;
    }
    false
}

proof fn lemma_pow10_bounds(n: nat)
    requires
        n <= 6,
    ensures
        1 <= pow10(n) <= 1_000_000,
{
    reveal_with_fuel(pow10, 7);
}

proof fn lemma_digits_value_bound(d: Seq<u8>)
    requires
        all_digits(d),
    ensures
        0 <= digits_value(d) < pow10(d.len()),
    decreases d.len(),
{
    if d.len() > 0 {
        assert(all_digits(d.drop_last())) by {
            assert forall|i: int| 0 <= i < d.drop_last().len() implies is_digit(
                #[trigger] d.drop_last()[i],
            ) by {
                assert(d.drop_last()[i] == d[i]);
            }
        }
        lemma_digits_value_bound(d.drop_last());
        assert(is_digit(d[d.len() - 1]));
    }
}

/// The amount named in the bytes `s`.
fn amount_in(s: &[u8]) -> (r: Option<u64>)
    ensures
        r == amount_of(s@),
{
    let buf = number_token_exec(s);
    if !has_digit_exec(&buf) {
        return None;
    }
    let k = first_dot_exec(&buf);
    let n = buf.len();
    let ghost int_part = buf@.subrange(0, k as int);
    proof {
        assert(all_digits(int_part)) by {
            assert forall|i: int| 0 <= i < int_part.len() implies is_digit(#[trigger] int_part[i]) by {
                assert(int_part[i] == buf@[i]);
            }
        }
    }
    let int_val = digits_value_exec(buf.as_slice(), 0, k);
    let frac_lo: usize = if k < n {
        k + 1
    } else {
        n
    };
    let frac_len = n - frac_lo;
    let m: usize = if frac_len < 6 {
        frac_len
    } else {
        6
    };
    let ghost frac = buf@.subrange(frac_lo as int, frac_lo + m);
    proof {
        assert(all_digits(frac)) by {
            assert forall|i: int| 0 <= i < frac.len() implies is_digit(#[trigger] frac[i]) by {
                assert(frac[i] == buf@[frac_lo + i]);
                if buf@[frac_lo + i] == 46 {
                    assert(buf@[k as int] == 46);
                }
            }
        }
        lemma_digits_value_bound(frac);
        lemma_pow10_bounds(m as nat);
        lemma_pow10_bounds(6);
        let fr = if k < buf@.len() {
            buf@.subrange(k + 1, buf@.len() as int)
        } else {
            Seq::<u8>::empty()
        };
        assert(fr.subrange(0, m as int) =~= frac);
    }
    let frac_val = digits_value_exec(buf.as_slice(), frac_lo, frac_lo + m);
    let mut scale: u128 = 1;
    let mut t: usize = m;
    while t < 6
        invariant
            m <= t <= 6,
            scale == pow10((t - m) as nat),
        decreases 6 - t,
    {
        proof {
            lemma_pow10_bounds((t - m) as nat);
        }
        scale = scale * 10;
        t = t + 1;
    }
    proof {
        lemma_pow10_bounds((6 - m) as nat);
    }
    let mult = multiplier_of(s);
    let ghost iv_spec = digits_value(int_part);
    let ghost fv_spec = digits_value(frac);
    proof {
        lemma_digits_value_nonneg(int_part);
        assert(token_micro(buf@) == iv_spec * 1_000_000 + fv_spec * scale);
    }
    match (int_val, frac_val) {
        (Some(iv), Some(fv)) => {
            proof {
                assert(iv * 1_000_000 + fv * scale <= u64::MAX * 1_000_000 + 1_000_000 * 1_000_000)
                    by (nonlinear_arith)
                    requires
                        iv <= u64::MAX,
                        fv < 1_000_000,
                        scale <= 1_000_000,
                ;
                assert((iv * 1_000_000 + fv * scale) * mult <= (u64::MAX * 1_000_000 + 1_000_000
                    * 1_000_000) * 1_000_000) by (nonlinear_arith)
                    requires
                        iv * 1_000_000 + fv * scale <= u64::MAX * 1_000_000 + 1_000_000
                            * 1_000_000,
                        0 <= iv * 1_000_000 + fv * scale,
                        1 <= mult <= 1_000_000,
                ;
            }
            let v: u128 = (iv as u128 * 1_000_000 + fv as u128 * scale) * mult;
            if v <= 0xffff_ffff_ffff_ffff {
                Some(v as u64)
            } else {
                None
            }
        },
        _ => {
            proof {
                assert((iv_spec * 1_000_000 + fv_spec * scale) * mult > u64::MAX) by (
                nonlinear_arith)
                    requires
                        iv_spec > u64::MAX,
                        fv_spec >= 0,
                        scale >= 1,
                        mult >= 1,
                ;
            }
            None
        },
    }
}

/// The scale `s` puts on its number.
fn multiplier_of(s: &[u8]) -> (r: u128)
    ensures
        r == amount_multiplier(s@),
        1 <= r <= 1_000_000,
{
    let space_k = " k".as_bytes();
    let k_usd = "k usd".as_bytes();
    let k = "k".as_bytes();
    let space_m = " m".as_bytes();
    proof {
        reveal_strlit(" k");
        reveal_strlit("k usd");
        reveal_strlit("k");
        reveal_strlit(" m");
        vstd::utf8::is_ascii_chars_encode_utf8(" k"@);
        vstd::utf8::is_ascii_chars_encode_utf8("k usd"@);
        vstd::utf8::is_ascii_chars_encode_utf8("k"@);
        vstd::utf8::is_ascii_chars_encode_utf8(" m"@);
        assert(space_k@ =~= ascii_of(" k"@));
        assert(k_usd@ =~= ascii_of("k usd"@));
        assert(k@ =~= ascii_of("k"@));
        assert(space_m@ =~= ascii_of(" m"@));
    }
    if contains_exec(s, space_k) || contains_exec(s, k_usd) || ends_with_exec(s, k) {
        1000
    } else if contains_exec(s, space_m) {
        1_000_000
    } else {
        1
    }
}

/// The amount named in `s`, in millionths of a token.
pub fn find_amount(s: &str) -> (r: Option<u64>)
    ensures
        r == amount_of(s.spec_bytes()),
{
    amount_in(s.as_bytes())
}


#[derive(Debug, Clone, Copy, PartialEq, Eq, Structural)]
pub enum Preference {
    Cheapest,
    Fastest,
    Safest,
    Balanced,
}

/// A quote request as far as the text names it.
#[derive(Debug, Clone)]
pub struct ParsedIntent {
    pub from: Option<ChainId>,
    pub to: Option<ChainId>,
    pub from_token: Option<String>,
    pub to_token: Option<String>,
    /// The amount, in millionths of a token.
    pub amount: Option<u64>,
    pub preference: Option<Preference>,
    /// How complete the parse is, in percent.
    pub confidence: u32,
}

impl Default for ParsedIntent {
    fn default() -> (r: ParsedIntent)
        ensures
            r.from is None,
            r.to is None,
            r.from_token is None,
            r.to_token is None,
            r.amount is None,
            r.preference is None,
            r.confidence == 0,
    {
        ParsedIntent {
            from: None,
            to: None,
            from_token: None,
            to_token: None,
            amount: None,
            preference: None,
            confidence: 0,
        }
    }
}

/// The preference a text states: speed first, then safety, then price,
/// balanced when it states none.
pub open spec fn preference_of(s: Seq<u8>) -> Preference {
    if contains_bytes(s, ascii_of("fast"@)) {
        Preference::Fastest
    } else if contains_bytes(s, ascii_of("safe"@)) {
        Preference::Safest
    } else if contains_bytes(s, ascii_of("cheap"@)) || contains_bytes(s, ascii_of("lowest"@)) {
        Preference::Cheapest
    } else {
        Preference::Balanced
    }
}

/// Confidence, in percent, of a parse that found these parts.
pub open spec fn confidence_of(
    from: Option<ChainId>,
    to: Option<ChainId>,
    from_token: bool,
    amount: Option<u64>,
) -> u32 {
    if from is Some && to is Some && from_token && amount is Some {
        70
    } else if from is Some && to is Some && amount is Some {
        55
    } else {
        20
    }
}

/// The chains of an intent as a sequence: from, then to.
pub open spec fn chain_seq(from: Option<ChainId>, to: Option<ChainId>) -> Seq<ChainId> {
    match (from, to) {
        (Some(a), Some(b)) => seq![a, b],
        (Some(a), None) => seq![a],
        _ => Seq::empty(),
    }
}

/// The view of an optional string.
pub open spec fn opt_text(o: Option<String>) -> Option<Seq<char>> {
    match o {
        Some(t) => Some(t@),
        None => None,
    }
}

/// What `parse_intent_regex` reads from the lower-cased bytes `l`.
pub open spec fn intent_matches(l: Seq<u8>, r: ParsedIntent) -> bool {
    let toks = token_symbols(l);
    &&& r.to is Some ==> r.from is Some
    &&& is_chain_pick(l, chain_seq(r.from, r.to))
    &&& opt_text(r.from_token) == if toks.len() >= 1 {
        Some(toks[0])
    } else {
        None
    }
    &&& opt_text(r.to_token) == if toks.len() >= 2 {
        Some(toks[1])
    } else if toks.len() == 1 {
        Some(toks[0])
    } else {
        None
    }
    &&& r.amount == amount_of(l)
    &&& r.preference == Some(preference_of(l))
    &&& r.confidence == confidence_of(r.from, r.to, r.from_token is Some, r.amount)
}

/// A parse depends on the text only through its lower-cased bytes: two texts
/// that differ in ASCII case alone (a text, its lower-cased and its
/// upper-cased form among them) read as the same intent.
pub proof fn lemma_intent_ignores_ascii_case(
    a: Seq<u8>,
    b: Seq<u8>,
    r1: ParsedIntent,
    r2: ParsedIntent,
)
    requires
        lower_bytes(a) == lower_bytes(b),
        intent_matches(lower_bytes(a), r1),
        intent_matches(lower_bytes(b), r2),
    ensures
        r1.from == r2.from,
        r1.to == r2.to,
        opt_text(r1.from_token) == opt_text(r2.from_token),
        opt_text(r1.to_token) == opt_text(r2.to_token),
        r1.amount == r2.amount,
        r1.preference == r2.preference,
        r1.confidence == r2.confidence,
        lower_bytes(lower_bytes(a)) == lower_bytes(a),
        lower_bytes(upper_bytes(a)) == lower_bytes(a),
{
    lemma_lower_bytes_forgets_case(a);
    let l = lower_bytes(a);
    lemma_chain_pick_unique(l, chain_seq(r1.from, r1.to), chain_seq(r2.from, r2.to));
    let c1 = chain_seq(r1.from, r1.to);
    assert(r1.from == r2.from && r1.to == r2.to) by {
        if c1.len() == 2 {
            assert(c1[0] == chain_seq(r2.from, r2.to)[0]);
            assert(c1[1] == chain_seq(r2.from, r2.to)[1]);
        } else if c1.len() == 1 {
            assert(c1[0] == chain_seq(r2.from, r2.to)[0]);
        }
    }
    assert(r1.from_token is Some <==> opt_text(r1.from_token) is Some);
    assert(r2.from_token is Some <==> opt_text(r2.from_token) is Some);
}

/// The preference a parse reports follows the words of the lower-cased text:
/// speed when it says "fast"; otherwise safety when it says "safe";
/// otherwise price when it says "cheap" or "lowest"; otherwise balanced.
pub proof fn lemma_preference_words(text: Seq<u8>, r: ParsedIntent)
    requires
        intent_matches(lower_bytes(text), r),
    ensures
        contains_bytes(lower_bytes(text), ascii_of("fast"@)) ==> r.preference == Some(
            Preference::Fastest,
        ),
        !contains_bytes(lower_bytes(text), ascii_of("fast"@)) && contains_bytes(
            lower_bytes(text),
            ascii_of("safe"@),
        ) ==> r.preference == Some(Preference::Safest),
        !contains_bytes(lower_bytes(text), ascii_of("fast"@)) && !contains_bytes(
            lower_bytes(text),
            ascii_of("safe"@),
        ) && contains_bytes(lower_bytes(text), ascii_of("lowest"@)) ==> r.preference == Some(
            Preference::Cheapest,
        ),
        !contains_bytes(lower_bytes(text), ascii_of("fast"@)) && !contains_bytes(
            lower_bytes(text),
            ascii_of("safe"@),
        ) && contains_bytes(lower_bytes(text), ascii_of("cheap"@)) ==> r.preference == Some(
            Preference::Cheapest,
        ),
        !contains_bytes(lower_bytes(text), ascii_of("fast"@)) && !contains_bytes(
            lower_bytes(text),
            ascii_of("safe"@),
        ) && !contains_bytes(lower_bytes(text), ascii_of("cheap"@)) && !contains_bytes(
            lower_bytes(text),
            ascii_of("lowest"@),
        ) ==> r.preference == Some(Preference::Balanced),
        r.preference is Some,
{
}

fn preference_in(s: &[u8]) -> (r: Preference)
    ensures
        r == preference_of(s@),
{
    let fast = "fast".as_bytes();
    let safe = "safe".as_bytes();
    let cheap = "cheap".as_bytes();
    let lowest = "lowest".as_bytes();
    proof {
        reveal_strlit("fast");
        reveal_strlit("safe");
        reveal_strlit("cheap");
        reveal_strlit("lowest");
        vstd::utf8::is_ascii_chars_encode_utf8("fast"@);
        vstd::utf8::is_ascii_chars_encode_utf8("safe"@);
        vstd::utf8::is_ascii_chars_encode_utf8("cheap"@);
        vstd::utf8::is_ascii_chars_encode_utf8("lowest"@);
        assert(fast@ =~= ascii_of("fast"@));
        assert(safe@ =~= ascii_of("safe"@));
        assert(cheap@ =~= ascii_of("cheap"@));
        assert(lowest@ =~= ascii_of("lowest"@));
    }
    if contains_exec(s, fast) {
        Preference::Fastest
    } else if contains_exec(s, safe) {
        Preference::Safest
    } else if contains_exec(s, cheap) || contains_exec(s, lowest) {
        Preference::Cheapest
    } else {
        Preference::Balanced
    }
}

/// Reads a transfer request out of free text: the first two chains named
/// (from, to), the first two tokens (the second defaults to the first), the
/// amount, and the stated preference, all after ASCII lower-casing.
pub fn parse_intent_regex(text: &str) -> (r: ParsedIntent)
    ensures
        intent_matches(lower_bytes(text.spec_bytes()), r),
{
    let lower = to_ascii_lowercase_bytes(text.as_bytes());
    let l = lower.as_slice();
    let amount = amount_in(l);
    let chains = chains_in(l);
    let from = if chains.len() >= 1 {
        Some(chains[0])
    } else {
        None
    };
    let to = if chains.len() >= 2 {
        Some(chains[1])
    } else {
        None
    };
    proof {
        assert(chain_seq(from, to) =~= chains@);
    }
    let mut tokens = tokens_in(l);
    let n = tokens.len();
    let ghost t0 = tokens@;
    proof {
        if n >= 1 {
            assert(t0[0]@ == token_symbols(lower@)[0]);
        }
        if n >= 2 {
            assert(t0[1]@ == token_symbols(lower@)[1]);
        }
    }
    let (from_token, to_token) = if n >= 2 {
        let second = tokens.pop().unwrap();
        let first = tokens.pop().unwrap();
        (Some(first), Some(second))
    } else if n == 1 {
        let first = tokens.pop().unwrap();
        let copy = first.clone();
        (Some(first), Some(copy))
    } else {
        (None, None)
    };
    let preference = Some(preference_in(l));
    let has_from_token = from_token.is_some();
    let confidence: u32 = if from.is_some() && to.is_some() && has_from_token && amount.is_some() {
        70
    } else if from.is_some() && to.is_some() && amount.is_some() {
        55
    } else {
        20
    };
    ParsedIntent { from, to, from_token, to_token, amount, preference, confidence }
}

} // verus!
