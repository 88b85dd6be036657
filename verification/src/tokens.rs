//! Tokens and their listing.

use std::collections::HashMap;

use vstd::prelude::*;

use crate::address::Address;
use crate::reply::ErrorReply;
use crate::sorting;
use crate::sorting::Keyed;

verus! {

broadcast use vstd::std_specs::hash::group_hash_axioms;

/// A token that accounts can hold.
#[derive(Debug, PartialEq, Eq)]
pub struct Token {
    pub id: u16,
    pub address: Address,
    pub symbol: String,
}

impl Keyed for Token {
    open spec fn key(self) -> int {
        self.id as int
    }

    fn sort_key(&self) -> (key: u64) {
        self.id as u64
    }
}

impl Clone for Token {
    fn clone(&self) -> (copy: Token)
        ensures
            copy == *self,
    {
        Token { id: self.id, address: self.address, symbol: self.symbol.clone() }
    }
}

/// Whether `walk` visits each key of `tokens` once.
pub open spec fn walks(walk: Seq<u16>, tokens: Map<u16, Token>) -> bool {
    &&& walk.no_duplicates()
    &&& walk.to_set() == tokens.dom()
}

/// The tokens of `tokens` in the order of `walk`.
pub open spec fn tokens_along(walk: Seq<u16>, tokens: Map<u16, Token>) -> Seq<Token> {
    walk.map_values(|id: u16| tokens[id])
}

/// Whether `listing` is what comes of walking `tokens` in some order and
/// sorting what is met by its id.
pub open spec fn lists_tokens(listing: Seq<Token>, tokens: Map<u16, Token>) -> bool {
    exists|walk: Seq<u16>| #[trigger]
        walks(walk, tokens) && listing == sorting::sorted_by_key(
            tokens_along(walk, tokens),
            sorting::key_of::<Token>(),
        )
}

/// Lists all tokens by ascending id. A failed query is an internal error.
pub fn handle_get_tokens<E>(tokens: Result<HashMap<u16, Token>, E>) -> (reply: Result<
    Vec<Token>,
    ErrorReply,
>)
    ensures
        match tokens {
            Ok(tokens) => reply matches Ok(listing) && lists_tokens(listing@, tokens@),
            Err(_) => reply == Err::<Vec<Token>, ErrorReply>(ErrorReply::InternalServerError),
        },
{
    let tokens = match tokens {
        Ok(tokens) => tokens,
        Err(_) => return Err(ErrorReply::InternalServerError),
    };
    let mut met: Vec<Token> = Vec::new();
    let ghost walk = vstd::std_specs::iter::IteratorSpec::remaining(
        &vstd::std_specs::hash::spec_keys_iter(&tokens),
    ).unref();
    for id in it: tokens.keys()
        invariant
            it.seq().unref() == walk,
            walk.to_set() == tokens@.dom(),
            met@ == tokens_along(walk.take(it.index() as int), tokens@),
    {
        assert(walk[it.index() as int] == *id);
        assert(tokens@.dom().contains(*id));
        match tokens.get(id) {
            Some(token) => {
                met.push(token.clone());
            },
            None => {},
        }
        assert(met@ =~= tokens_along(walk.take(it.index() + 1), tokens@));
    }
    assert(walk.take(walk.len() as int) =~= walk);
    assert(walks(walk, tokens@));
    Ok(sorting::sort_by_key(met))
}

/// A listing holds each entry of the map once, by ascending id.
pub proof fn law_listing_is_complete(listing: Seq<Token>, tokens: Map<u16, Token>)
    requires
        lists_tokens(listing, tokens),
    ensures
        listing.len() == tokens.dom().len(),
        sorting::ascends(listing, sorting::key_of::<Token>()),
        forall|id: u16| #[trigger] tokens.dom().contains(id) ==> listing.contains(tokens[id]),
        forall|i: int|
            0 <= i < listing.len() ==> tokens.values().contains(#[trigger] listing[i]),
{
    broadcast use vstd::seq_lib::group_to_multiset_ensures;

    let walk = choose|walk: Seq<u16>| #[trigger]
        walks(walk, tokens) && listing == sorting::sorted_by_key(
            tokens_along(walk, tokens),
            sorting::key_of::<Token>(),
        );
    let met = tokens_along(walk, tokens);
    sorting::law_sorted_by_key(met, sorting::key_of::<Token>());
    walk.unique_seq_to_set();
    assert forall|id: u16| #[trigger] tokens.dom().contains(id) implies listing.contains(
        tokens[id],
    ) by {
        assert(walk.to_set().contains(id));
        let i = walk.index_of(id);
        assert(met[i] == tokens[id]);
        assert(met.to_multiset().count(tokens[id]) > 0);
    }
    assert forall|i: int| 0 <= i < listing.len() implies tokens.values().contains(
        #[trigger] listing[i],
    ) by {
        assert(listing.to_multiset().count(listing[i]) > 0);
        let j = met.index_of(listing[i]);
        assert(met.contains(listing[i]));
        assert(walk.to_set().contains(walk[j]));
        assert(tokens.dom().contains(walk[j]));
    }
}

/// Two walks of the same map meet the same tokens, each as often as the other.
proof fn lemma_walks_meet_the_same(v: Seq<u16>, w: Seq<u16>, tokens: Map<u16, Token>)
    requires
        v.no_duplicates(),
        w.no_duplicates(),
        v.to_set() == w.to_set(),
    ensures
        tokens_along(v, tokens).to_multiset() == tokens_along(w, tokens).to_multiset(),
    decreases v.len(),
{
    broadcast use vstd::seq_lib::group_to_multiset_ensures;

    v.unique_seq_to_set();
    w.unique_seq_to_set();
    if v.len() == 0 {
        assert(tokens_along(v, tokens) =~= tokens_along(w, tokens));
    } else {
        let last = v.len() - 1;
        let id = v[last];
        assert(v.to_set().contains(id));
        assert(w.contains(id)) by {
            assert(w.to_set().contains(id));
        }
        let i = w.index_of(id);
        let rest_v = v.remove(last);
        let rest_w = w.remove(i);
        assert forall|k: u16| #[trigger] rest_v.to_set().contains(k) <==> v.to_set().contains(k)
            && k != id by {
            lemma_remove_contains(v, last, k);
        }
        assert forall|k: u16| #[trigger] rest_w.to_set().contains(k) <==> w.to_set().contains(k)
            && k != id by {
            lemma_remove_contains(w, i, k);
        }
        assert(rest_v.to_set() =~= rest_w.to_set());
        lemma_walks_meet_the_same(rest_v, rest_w, tokens);
        let met_v = tokens_along(v, tokens);
        let met_w = tokens_along(w, tokens);
        assert(tokens_along(rest_v, tokens) =~= met_v.remove(last));
        assert(tokens_along(rest_w, tokens) =~= met_w.remove(i));
        assert(met_v.to_multiset() =~= met_v.remove(last).to_multiset().insert(tokens[id]));
        assert(met_w.to_multiset() =~= met_w.remove(i).to_multiset().insert(tokens[id]));
    }
}

/// Removal from a walk takes the removed key out of it, and no other.
proof fn lemma_remove_contains(walk: Seq<u16>, i: int, k: u16)
    requires
        walk.no_duplicates(),
        0 <= i < walk.len(),
    ensures
        walk.remove(i).contains(k) <==> walk.contains(k) && k != walk[i],
{
    let rest = walk.remove(i);
    if rest.contains(k) {
        let j = rest.index_of(k);
        assert(walk[if j < i { j } else { j + 1 }] == k);
    }
    if walk.contains(k) && k != walk[i] {
        let j = walk.index_of(k);
        assert(rest[if j < i { j } else { j - 1 }] == k);
    }
}

/// Whether no two entries of the map hold a token with the same id.
pub open spec fn distinct_ids(tokens: Map<u16, Token>) -> bool {
    forall|x: u16, y: u16|
        #![trigger tokens[x], tokens[y]]
        tokens.dom().contains(x) && tokens.dom().contains(y) && x != y ==> tokens[x].id
            != tokens[y].id
}

/// Where no two entries hold a token with the same id, the ids of a listing
/// strictly ascend.
pub proof fn law_distinct_ids_strictly_ascend(listing: Seq<Token>, tokens: Map<u16, Token>)
    requires
        distinct_ids(tokens),
        lists_tokens(listing, tokens),
    ensures
        forall|i: int, j: int|
            0 <= i < j < listing.len() ==> (#[trigger] listing[i]).id < (#[trigger] listing[j]).id,
{
    law_listing_is_complete(listing, tokens);
    let walk = choose|walk: Seq<u16>| #[trigger]
        walks(walk, tokens) && listing == sorting::sorted_by_key(
            tokens_along(walk, tokens),
            sorting::key_of::<Token>(),
        );
    let met = tokens_along(walk, tokens);
    assert(met.no_duplicates()) by {
        assert forall|i: int, j: int| 0 <= i < met.len() && 0 <= j < met.len() && i != j implies met[i]
            != met[j] by {
            assert(walk.to_set().contains(walk[i]));
            assert(walk.to_set().contains(walk[j]));
            assert(tokens[walk[i]].id != tokens[walk[j]].id);
        }
    }
    let key = sorting::key_of::<Token>();
    sorting::law_sorted_by_key(met, key);
    met.lemma_multiset_has_no_duplicates();
    listing.lemma_multiset_has_no_duplicates_conv();
    assert forall|i: int, j: int| 0 <= i < j < listing.len() implies (#[trigger] listing[i]).id < (
    #[trigger] listing[j]).id by {
        assert(key(listing[i]) <= key(listing[j]));
        assert(tokens.values().contains(listing[i]));
        assert(tokens.values().contains(listing[j]));
        let x = choose|x: u16| #[trigger] tokens.dom().contains(x) && tokens[x] == listing[i];
        let y = choose|y: u16| #[trigger] tokens.dom().contains(y) && tokens[y] == listing[j];
        assert(tokens[x] != tokens[y]);
    }
}

/// Where an id stands for one token only, the listing does not depend on the
/// order in which the map is walked: there is only one. Where moreover no two
/// entries hold a token with the same id, its ids strictly ascend.
pub proof fn law_listing_is_determined(a: Seq<Token>, b: Seq<Token>, tokens: Map<u16, Token>)
    requires
        forall|x: u16, y: u16|
            #![trigger tokens[x], tokens[y]]
            tokens.dom().contains(x) && tokens.dom().contains(y) && tokens[x].id == tokens[y].id
                ==> tokens[x] == tokens[y],
        lists_tokens(a, tokens),
        lists_tokens(b, tokens),
    ensures
        a == b,
        distinct_ids(tokens) ==> forall|i: int, j: int|
            0 <= i < j < a.len() ==> (#[trigger] a[i]).id < (#[trigger] a[j]).id,
{
    let key = sorting::key_of::<Token>();
    law_listing_is_complete(a, tokens);
    let v = choose|walk: Seq<u16>| #[trigger]
        walks(walk, tokens) && a == sorting::sorted_by_key(tokens_along(walk, tokens), key);
    let w = choose|walk: Seq<u16>| #[trigger]
        walks(walk, tokens) && b == sorting::sorted_by_key(tokens_along(walk, tokens), key);
    sorting::law_sorted_by_key(tokens_along(v, tokens), key);
    sorting::law_sorted_by_key(tokens_along(w, tokens), key);
    lemma_walks_meet_the_same(v, w, tokens);
    assert forall|i: int, j: int|
        0 <= i < a.len() && 0 <= j < a.len() && key(#[trigger] a[i]) == key(
            #[trigger] a[j],
        ) implies a[i] == a[j] by {
        assert(tokens.values().contains(a[i]));
        assert(tokens.values().contains(a[j]));
        let x = choose|x: u16| #[trigger] tokens.dom().contains(x) && tokens[x] == a[i];
        let y = choose|y: u16| #[trigger] tokens.dom().contains(y) && tokens[y] == a[j];
        assert(tokens[x].id == tokens[y].id);
    }
    sorting::law_one_ascending_order(a, b, key);
    if distinct_ids(tokens) {
        law_distinct_ids_strictly_ascend(a, tokens);
    }
}

/// A listing gives one token for each key of the map, the very token that stands
/// there, and its ids never descend.
pub proof fn law_listing_gives_each_key_its_token<E>(
    tokens: HashMap<u16, Token>,
    reply: Result<Vec<Token>, ErrorReply>,
)
    requires
        call_ensures(handle_get_tokens::<E>, (Ok(tokens),), reply),
    ensures
        reply matches Ok(listing) && {
            &&& exists|walk: Seq<u16>|
                {
                    &&& walk.no_duplicates()
                    &&& #[trigger] walk.to_set() == tokens@.dom()
                    &&& walk.len() == listing@.len()
                    &&& forall|i: int|
                        0 <= i < walk.len() ==> #[trigger] listing@[i] == tokens@[walk[i]]
                }
            &&& forall|i: int, j: int|
                0 <= i <= j < listing@.len() ==> (#[trigger] listing@[i]).id <= (
                #[trigger] listing@[j]).id
        },
{
    lemma_listing_is_walked(reply->Ok_0@, tokens@);
}

/// A listing is what is met on one walk of the map by ascending id.
pub(crate) proof fn lemma_listing_is_walked(listing: Seq<Token>, tokens: Map<u16, Token>)
    requires
        lists_tokens(listing, tokens),
    ensures
        exists|walk: Seq<u16>|
            {
                &&& walk.no_duplicates()
                &&& #[trigger] walk.to_set() == tokens.dom()
                &&& walk.len() == listing.len()
                &&& forall|i: int| 0 <= i < walk.len() ==> #[trigger] listing[i] == tokens[walk[i]]
            },
        forall|i: int, j: int|
            0 <= i <= j < listing.len() ==> (#[trigger] listing[i]).id <= (
            #[trigger] listing[j]).id,
{
    broadcast use vstd::seq_lib::group_to_multiset_ensures;

    law_listing_is_complete(listing, tokens);
    let key = sorting::key_of::<Token>();
    let walk = choose|walk: Seq<u16>| #[trigger]
        walks(walk, tokens) && listing == sorting::sorted_by_key(tokens_along(walk, tokens), key);
    let at = |id: u16| tokens[id];
    let at_key = |id: u16| key(at(id));
    let sorted = sorting::sorted_by_key(walk, at_key);
    sorting::law_sorting_commutes_with_mapping(walk, at, key);
    sorting::law_sorted_by_key(walk, at_key);
    assert(listing == sorted.map_values(at));
    walk.lemma_multiset_has_no_duplicates();
    sorted.lemma_multiset_has_no_duplicates_conv();
    assert(sorted.to_set() =~= tokens.dom()) by {
        assert forall|id: u16| sorted.to_set().contains(id) <==> walk.to_set().contains(id) by {
            assert(sorted.contains(id) <==> sorted.to_multiset().count(id) > 0);
            assert(walk.contains(id) <==> walk.to_multiset().count(id) > 0);
        }
    }
    assert forall|i: int, j: int| 0 <= i <= j < listing.len() implies (#[trigger] listing[i]).id
        <= (#[trigger] listing[j]).id by {
        assert(key(listing[i]) <= key(listing[j]));
    }
}

} // verus!
