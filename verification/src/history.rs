//! The transactions history of an account: deposits that are still on their
//! way, followed by what the storage holds.

use std::collections::HashMap;

use vstd::prelude::*;
use vstd::string::*;

use crate::address::Address;
use crate::hex_text;
use crate::json;
use crate::json::Json;
use crate::reply::ErrorReply;
use crate::sorting;
use crate::sorting::Keyed;
use crate::tokens::Token;

verus! {

broadcast use {
    vstd::std_specs::hash::group_hash_axioms,
    vstd::string::group_string_axioms,
};

/// The most entries that one request may ask for.
pub const MAX_LIMIT: i64 = 100;

/// A transfer of funds into the rollup.
#[derive(Debug, PartialEq, Eq)]
pub struct Deposit {
    pub from: Address,
    pub to: Address,
    pub token: u16,
    /// The amount, in decimal.
    pub amount: String,
}

/// What a priority operation does.
#[derive(Debug, PartialEq, Eq)]
pub enum FranklinPriorityOp {
    Deposit(Deposit),
    /// Anything but a deposit.
    Other,
}

/// An operation that was requested on Ethereum.
#[derive(Debug, PartialEq, Eq)]
pub struct PriorityOp {
    pub serial_id: u64,
    pub data: FranklinPriorityOp,
    /// The fee paid on Ethereum, in decimal.
    pub eth_fee: String,
    /// The hash of the Ethereum transaction.
    pub eth_hash: Vec<u8>,
}

/// An ongoing operation is sorted by the Ethereum block that it stands in.
impl Keyed for (u64, PriorityOp) {
    open spec fn key(self) -> int {
        self.0 as int
    }

    fn sort_key(&self) -> (key: u64) {
        self.0
    }
}

/// An entry of the transactions history.
#[derive(Debug)]
pub struct TransactionsHistoryItem {
    pub hash: Option<String>,
    pub pq_id: Option<i64>,
    pub tx: serde_json::Value,
    pub success: Option<bool>,
    pub fail_reason: Option<String>,
    pub commited: bool,
    pub verified: bool,
}

/// What an entry of the transactions history says.
pub struct HistoryEntry {
    pub hash: Option<Seq<char>>,
    pub pq_id: Option<int>,
    pub tx: Json,
    pub success: Option<bool>,
    pub fail_reason: Option<Seq<char>>,
    pub commited: bool,
    pub verified: bool,
}

impl View for TransactionsHistoryItem {
    type V = HistoryEntry;

    open spec fn view(&self) -> HistoryEntry {
        HistoryEntry {
            hash: match self.hash {
                Some(hash) => Some(hash@),
                None => None,
            },
            pq_id: match self.pq_id {
                Some(id) => Some(id as int),
                None => None,
            },
            tx: json::json_of(self.tx),
            success: self.success,
            fail_reason: match self.fail_reason {
                Some(reason) => Some(reason@),
                None => None,
            },
            commited: self.commited,
            verified: self.verified,
        }
    }
}

/// The symbol of a token, or `unknown` for one that is not registered.
pub open spec fn symbol_of(tokens: Map<u16, Token>, id: u16) -> Seq<char> {
    if tokens.dom().contains(id) {
        tokens[id].symbol@
    } else {
        "unknown"@
    }
}

/// The document that describes an ongoing deposit.
pub open spec fn deposit_json(eth_fee: Seq<char>, deposit: Deposit, tokens: Map<u16, Token>) -> Json {
    Json::Object(
        map![
            "account_id"@ => Json::Null,
            "eth_fee"@ => Json::Text(eth_fee),
            "priority_op"@ => Json::Object(map![
                "amount"@ => Json::Text(deposit.amount@),
                "from"@ => Json::Text(hex_text::prefixed_hex(deposit.from@)),
                "to"@ => Json::Text(hex_text::prefixed_hex(deposit.to@)),
                "token"@ => Json::Text(symbol_of(tokens, deposit.token)),
            ]),
            "type"@ => Json::Text("Deposit"@),
        ],
    )
}

/// The signed number with the same 64 bits.
pub open spec fn as_signed(number: u64) -> int {
    if number <= i64::MAX {
        number as int
    } else {
        number - 0x1_0000_0000_0000_0000
    }
}

/// Composes the document that describes an ongoing deposit. There is no
/// account yet that it could name.
fn compose_deposit_json(eth_fee: &String, deposit: &Deposit, tokens: &HashMap<u16, Token>) -> (tx:
    serde_json::Value)
    ensures
        json::json_of(tx) == deposit_json(eth_fee@, *deposit, tokens@),
{
    let symbol = match tokens.get(&deposit.token) {
        Some(token) => token.symbol.clone(),
        None => String::from_str("unknown"),
    };
    let mut transfer = json::no_members();
    json::insert(&mut transfer, "amount", json::text(deposit.amount.clone()));
    json::insert(&mut transfer, "from", json::address_text(&deposit.from));
    json::insert(&mut transfer, "to", json::address_text(&deposit.to));
    json::insert(&mut transfer, "token", json::text(symbol));
    let mut tx = json::no_members();
    json::insert(&mut tx, "account_id", json::null());
    json::insert(&mut tx, "eth_fee", json::text(eth_fee.clone()));
    json::insert(&mut tx, "priority_op", json::object(transfer));
    json::insert(&mut tx, "type", json::text(String::from_str("Deposit")));
    json::object(tx)
}

/// Whether an operation is a deposit that the address sends or receives.
pub open spec fn concerns(op: PriorityOp, address: Seq<u8>) -> bool {
    op.data matches FranklinPriorityOp::Deposit(deposit) && (deposit.from@ == address
        || deposit.to@ == address)
}

/// The entry under which an ongoing deposit is reported: neither executed nor
/// committed nor verified.
pub open spec fn deposit_entry(op: PriorityOp, tokens: Map<u16, Token>) -> HistoryEntry {
    HistoryEntry {
        hash: Some(hex_text::prefixed_hex(op.eth_hash@)),
        pq_id: Some(as_signed(op.serial_id)),
        tx: deposit_json(op.eth_fee@, op.data->Deposit_0, tokens),
        success: None,
        fail_reason: None,
        commited: false,
        verified: false,
    }
}

/// Reports an ongoing deposit that concerns the address; any other operation
/// is not reported.
fn report_deposit(op: &PriorityOp, address: &Address, tokens: &HashMap<u16, Token>) -> (item: Option<
    TransactionsHistoryItem,
>)
    requires
        2 * op.eth_hash@.len() + 2 <= isize::MAX,
    ensures
        item is Some <==> concerns(*op, address@),
        item matches Some(item) ==> item@ == deposit_entry(*op, tokens@),
{
    match &op.data {
        FranklinPriorityOp::Deposit(deposit) => {
            if !deposit.from.is(address) && !deposit.to.is(address) {
                return None;
            }
            let serial: u64 = op.serial_id;
            let signed: i64 = serial as i64;
            assert(signed as int == as_signed(serial)) by {
                assert(serial <= 0x7fff_ffff_ffff_ffff ==> serial as i64 == serial)
                    by (bit_vector);
                assert(serial > 0x7fff_ffff_ffff_ffff ==> serial as i64 == serial
                    - 0x1_0000_0000_0000_0000) by (bit_vector);
            }
            Some(
                TransactionsHistoryItem {
                    hash: Some(hex_text::render_eth_hash(op.eth_hash.as_slice())),
                    pq_id: Some(signed),
                    tx: compose_deposit_json(&op.eth_fee, deposit, tokens),
                    success: None,
                    fail_reason: None,
                    commited: false,
                    verified: false,
                },
            )
        },
        FranklinPriorityOp::Other => None,
    }
}

/// What is left of `items` when `skipped` of them are passed over and at most
/// `taken` of the others are kept.
pub open spec fn window<T>(items: Seq<T>, skipped: int, taken: int) -> Seq<T> {
    let from = if skipped <= items.len() { skipped } else { items.len() as int };
    let to = if from + taken <= items.len() { from + taken } else { items.len() as int };
    items.subrange(from, to)
}

/// The ongoing deposits that concern `address`, by ascending block; those of
/// one block keep the order in which they were given.
pub open spec fn deposits_of(ongoing_ops: Seq<(u64, PriorityOp)>, address: Seq<u8>) -> Seq<
    (u64, PriorityOp),
> {
    sorting::sorted_by_key(ongoing_ops, sorting::key_of::<(u64, PriorityOp)>()).filter(
        |op: (u64, PriorityOp)| concerns(op.1, address),
    )
}

/// The part of a history that a request asks for.
pub struct HistoryQuery {
    pub address: Seq<u8>,
    pub offset: i64,
    pub limit: i64,
}

impl HistoryQuery {
    /// Whether the request is answered at all.
    pub open spec fn acceptable(self) -> bool {
        0 <= self.offset && 0 <= self.limit <= MAX_LIMIT
    }

    /// How many deposits are passed over: the offset, cut down to the bits that
    /// a `usize` has.
    pub open spec fn skipped(self) -> int {
        (self.offset as usize) as int
    }

    /// The ongoing deposits that are reported.
    pub open spec fn ongoing(self, ongoing_ops: Seq<(u64, PriorityOp)>) -> Seq<(u64, PriorityOp)> {
        window(deposits_of(ongoing_ops, self.address), self.skipped(), self.limit as int)
    }

    /// The offset at which the storage is asked to go on: its beginning, once
    /// a deposit was reported; otherwise the number of ongoing operations,
    /// whomever they concern, is taken from the offset.
    pub open spec fn stored_offset(self, ongoing_ops: Seq<(u64, PriorityOp)>) -> int {
        if self.ongoing(ongoing_ops).len() > 0 {
            0
        } else {
            self.offset - ongoing_ops.len()
        }
    }

    /// How many entries the storage is asked for: those that no deposit has
    /// used up.
    pub open spec fn stored_limit(self, ongoing_ops: Seq<(u64, PriorityOp)>) -> int {
        self.limit - self.ongoing(ongoing_ops).len()
    }

    /// The entries of the reported deposits.
    pub open spec fn ongoing_entries(
        self,
        ongoing_ops: Seq<(u64, PriorityOp)>,
        tokens: Map<u16, Token>,
    ) -> Seq<HistoryEntry> {
        self.ongoing(ongoing_ops).map_values(|op: (u64, PriorityOp)| deposit_entry(op.1, tokens))
    }
}

/// A request for a part of a history that was found acceptable.
pub struct HistoryRequest {
    address: Address,
    offset: i64,
    limit: i64,
}

impl View for HistoryRequest {
    type V = HistoryQuery;

    closed spec fn view(&self) -> HistoryQuery {
        HistoryQuery { address: self.address@, offset: self.offset, limit: self.limit }
    }
}

impl HistoryRequest {
    #[verifier::type_invariant]
    spec fn inv(self) -> bool {
        self@.acceptable()
    }
}

/// The ongoing part of a history, with the query that the storage is to
/// answer for the rest.
#[derive(Debug)]
pub struct HistoryPage {
    pub address: Address,
    /// Where the storage is to start.
    pub offset: i64,
    /// How many entries the storage is to give.
    pub limit: i64,
    /// The deposits that are on their way.
    pub items: Vec<TransactionsHistoryItem>,
}

/// What the entries of a history say.
pub open spec fn entries(items: Seq<TransactionsHistoryItem>) -> Seq<HistoryEntry> {
    items.map_values(|item: TransactionsHistoryItem| item@)
}

/// Whether `page` is what a request comes to: the deposits that it asks for, and
/// the query for the rest.
pub open spec fn is_page(
    page: HistoryPage,
    query: HistoryQuery,
    ongoing_ops: Seq<(u64, PriorityOp)>,
    tokens: Map<u16, Token>,
) -> bool {
    &&& page.address@ == query.address
    &&& page.offset == query.stored_offset(ongoing_ops)
    &&& page.limit == query.stored_limit(ongoing_ops)
    &&& entries(page.items@) == query.ongoing_entries(ongoing_ops, tokens)
}

/// Whether the operations can be counted and their hashes rendered, each text of
/// which must fit in a `String`.
pub open spec fn readable(ongoing_ops: Seq<(u64, PriorityOp)>) -> bool {
    &&& ongoing_ops.len() <= i64::MAX
    &&& forall|i: int|
        0 <= i < ongoing_ops.len() ==> 2 * (#[trigger] ongoing_ops[i]).1.eth_hash@.len() + 2
            <= isize::MAX
}

/// Accepts a request for a part of the history of `address`, unless it asks
/// for too many entries or for a part that cannot be.
pub fn handle_get_account_transactions_history(
    address: Address,
    offset: i64,
    limit: i64,
) -> (outcome: Result<HistoryRequest, ErrorReply>)
    ensures
        ({
            let query = HistoryQuery { address: address@, offset, limit };
            match outcome {
                Ok(request) => query.acceptable() && request@ == query,
                Err(reply) => !query.acceptable() && reply == ErrorReply::BadRequest,
            }
        }),
{
    if limit > MAX_LIMIT || limit < 0 || offset < 0 {
        return Err(ErrorReply::BadRequest);
    }
    Ok(HistoryRequest { address, offset, limit })
}

proof fn lemma_window_push<T>(items: Seq<T>, item: T, skipped: int, taken: int)
    requires
        0 <= skipped,
        0 <= taken,
    ensures
        window(items.push(item), skipped, taken) == if items.len() >= skipped && window(
            items,
            skipped,
            taken,
        ).len() < taken {
            window(items, skipped, taken).push(item)
        } else {
            window(items, skipped, taken)
        },
{
    let before = window(items, skipped, taken);
    let after = window(items.push(item), skipped, taken);
    if items.len() >= skipped && before.len() < taken {
        assert(after =~= before.push(item));
    } else {
        assert(after =~= before);
    }
}

impl HistoryRequest {
    /// Reports the ongoing deposits that the request asks for and says what
    /// the storage is to be asked. A watcher that could not name the ongoing
    /// operations is an internal error.
    pub fn page<E>(
        self,
        tokens: &HashMap<u16, Token>,
        ongoing_ops: Result<Vec<(u64, PriorityOp)>, E>,
    ) -> (outcome: Result<HistoryPage, ErrorReply>)
        requires
            ongoing_ops matches Ok(ops) ==> readable(ops@),
        ensures
            match ongoing_ops {
                Ok(ops) => outcome matches Ok(page) && is_page(page, self@, ops@, tokens@),
                Err(_) => outcome == Err::<HistoryPage, ErrorReply>(ErrorReply::InternalServerError),
            },
    {
        proof {
            use_type_invariant(&self);
        }
        let ops = match ongoing_ops {
            Ok(ops) => ops,
            Err(_) => return Err(ErrorReply::InternalServerError),
        };
        let ghost query = self@;
        let ghost given = ops@;
        let count: i64 = ops.len() as i64;
        let skipped: usize = self.offset as usize;
        let taken: usize = self.limit as usize;
        let sorted = sorting::sort_by_key(ops);
        let ghost key = sorting::key_of::<(u64, PriorityOp)>();
        let ghost concerned = |op: (u64, PriorityOp)| concerns(op.1, query.address);
        let ghost entry = |op: (u64, PriorityOp)| deposit_entry(op.1, tokens@);
        proof {
            sorting::law_sorted_by_key(given, key);
            assert forall|i: int| 0 <= i < sorted@.len() implies 2 * (
            #[trigger] sorted@[i]).1.eth_hash@.len() + 2 <= isize::MAX by {
                broadcast use vstd::seq_lib::group_to_multiset_ensures;

                assert(sorted@.to_multiset().count(sorted@[i]) > 0);
                assert(given.contains(sorted@[i]));
            }
        }
        let mut items: Vec<TransactionsHistoryItem> = Vec::new();
        let mut seen: usize = 0;
        let mut i: usize = 0;
        while i < sorted.len()
            invariant
                i <= sorted@.len(),
                query == self@,
                taken <= 100,
                concerned == (|op: (u64, PriorityOp)| concerns(op.1, query.address)),
                entry == (|op: (u64, PriorityOp)| deposit_entry(op.1, tokens@)),
                forall|i: int|
                    0 <= i < sorted@.len() ==> 2 * (#[trigger] sorted@[i]).1.eth_hash@.len() + 2
                        <= isize::MAX,
                seen == sorted@.take(i as int).filter(concerned).len(),
                seen <= i,
                entries(items@) == window(
                    sorted@.take(i as int).filter(concerned),
                    skipped as int,
                    taken as int,
                ).map_values(entry),
            decreases sorted@.len() - i,
        {
            let ghost before = sorted@.take(i as int).filter(concerned);
            proof {
                reveal(Seq::filter);
                assert(sorted@.take(i + 1).drop_last() =~= sorted@.take(i as int));
                assert(sorted@.take(i + 1).last() == sorted@[i as int]);
                lemma_window_push(before, sorted@[i as int], skipped as int, taken as int);
                assert(entries(items@).len() == items@.len());
            }
            match report_deposit(&sorted[i].1, &self.address, tokens) {
                Some(item) => {
                    if seen >= skipped && items.len() < taken {
                        let ghost old_items = items@;
                        items.push(item);
                        assert(entries(items@) =~= entries(old_items).push(item@));
                        assert(entries(items@) =~= window(before, skipped as int, taken as int).push(
                            sorted@[i as int],
                        ).map_values(entry));
                    }
                    seen += 1;
                },
                None => {},
            }
            i += 1;
        }
        assert(sorted@.take(sorted@.len() as int) =~= sorted@);
        assert(entries(items@) =~= query.ongoing_entries(given, tokens@));
        assert(items@.len() == query.ongoing(given).len()) by {
            assert(entries(items@).len() == items@.len());
        }
        if items.len() > 0 {
            let reported: i64 = items.len() as i64;
            Ok(HistoryPage { address: self.address, offset: 0, limit: self.limit - reported, items })
        } else {
            Ok(
                HistoryPage {
                    address: self.address,
                    offset: self.offset - count,
                    limit: self.limit,
                    items,
                },
            )
        }
    }
}

impl HistoryPage {
    /// Replies with the ongoing deposits followed by what the storage gave. A
    /// failed query is an internal error.
    pub fn reply<E>(self, stored: Result<Vec<TransactionsHistoryItem>, E>) -> (reply: Result<
        Vec<TransactionsHistoryItem>,
        ErrorReply,
    >)
        ensures
            match stored {
                Ok(stored) => reply matches Ok(items) && items@ == self.items@ + stored@,
                Err(_) => reply == Err::<Vec<TransactionsHistoryItem>, ErrorReply>(
                    ErrorReply::InternalServerError,
                ),
            },
    {
        let mut stored = match stored {
            Ok(stored) => stored,
            Err(_) => return Err(ErrorReply::InternalServerError),
        };
        let mut items = self.items;
        items.append(&mut stored);
        Ok(items)
    }
}

/// Deposits and storage share the limit: what the deposits leave of it is what
/// the storage is asked for. So a storage that gives no more than it is asked
/// for makes no reply longer than the limit.
pub proof fn law_limit_is_shared(
    query: HistoryQuery,
    ongoing_ops: Seq<(u64, PriorityOp)>,
    stored: Seq<HistoryEntry>,
    tokens: Map<u16, Token>,
)
    requires
        query.acceptable(),
    ensures
        query.ongoing_entries(ongoing_ops, tokens).len() + query.stored_limit(ongoing_ops)
            == query.limit,
        0 <= query.stored_limit(ongoing_ops) <= query.limit <= MAX_LIMIT,
        stored.len() <= query.stored_limit(ongoing_ops) ==> (query.ongoing_entries(
            ongoing_ops,
            tokens,
        ) + stored).len() <= query.limit,
{
}

/// A reported deposit uses the offset up: the storage is asked from its
/// beginning.
pub proof fn law_offset_is_used_up(query: HistoryQuery, ongoing_ops: Seq<(u64, PriorityOp)>)
    requires
        query.acceptable(),
    ensures
        query.ongoing(ongoing_ops).len() > 0 ==> query.stored_offset(ongoing_ops) == 0,
        query.ongoing(ongoing_ops).len() > 0 <==> query.limit > 0 && query.skipped() < deposits_of(
            ongoing_ops,
            query.address,
        ).len(),
{
}

/// Whether the entries that follow the deposits are those that a reader of
/// `stored` expects. A reported deposit sees to it. Without one, all ongoing
/// operations are taken from the offset and not only the deposits of the
/// address: this must leave an offset, and make no difference to what is read.
pub open spec fn undisturbed(
    query: HistoryQuery,
    ongoing_ops: Seq<(u64, PriorityOp)>,
    stored: Seq<HistoryEntry>,
) -> bool {
    ||| query.ongoing(ongoing_ops).len() > 0
    ||| query.offset >= ongoing_ops.len() && window(
        stored,
        query.offset - ongoing_ops.len(),
        query.limit as int,
    ) == window(
        stored,
        query.offset - deposits_of(ongoing_ops, query.address).len(),
        query.limit as int,
    )
}

/// Nothing is disturbed where each ongoing operation is a deposit of the
/// address, where nothing is asked for, and behind the end of what is stored,
/// as long as the ongoing operations leave an offset.
pub proof fn law_undisturbed(
    query: HistoryQuery,
    ongoing_ops: Seq<(u64, PriorityOp)>,
    stored: Seq<HistoryEntry>,
)
    requires
        query.acceptable(),
        query.offset >= ongoing_ops.len(),
        ({
            ||| deposits_of(ongoing_ops, query.address).len() == ongoing_ops.len()
            ||| query.limit == 0
            ||| stored.len() + ongoing_ops.len() <= query.offset
        }),
    ensures
        undisturbed(query, ongoing_ops, stored),
{
    lemma_fewer_deposits(ongoing_ops, query.address);
    assert(window(stored, query.offset - ongoing_ops.len(), query.limit as int) =~= window(
        stored,
        query.offset - deposits_of(ongoing_ops, query.address).len(),
        query.limit as int,
    ));
}

/// No more deposits concern an address than there are ongoing operations.
proof fn lemma_fewer_deposits(ongoing_ops: Seq<(u64, PriorityOp)>, address: Seq<u8>)
    ensures
        deposits_of(ongoing_ops, address).len() <= ongoing_ops.len(),
{
    let key = sorting::key_of::<(u64, PriorityOp)>();
    sorting::law_sorted_by_key(ongoing_ops, key);
    sorting::sorted_by_key(ongoing_ops, key).lemma_filter_len(
        |op: (u64, PriorityOp)| concerns(op.1, address),
    );
}

/// Ongoing deposits and stored entries are paged as one list. For a storage
/// that holds `stored` and answers an offset and a limit with that window of
/// it, the reply is the requested window of the deposits followed by `stored`.
pub proof fn law_history_is_one_list(
    query: HistoryQuery,
    ongoing_ops: Seq<(u64, PriorityOp)>,
    tokens: Map<u16, Token>,
    stored: Seq<HistoryEntry>,
)
    requires
        query.acceptable(),
        query.offset <= usize::MAX,
        undisturbed(query, ongoing_ops, stored),
    ensures
        query.stored_offset(ongoing_ops) >= 0,
        query.ongoing_entries(ongoing_ops, tokens) + window(
            stored,
            query.stored_offset(ongoing_ops),
            query.stored_limit(ongoing_ops),
        ) == window(
            deposits_of(ongoing_ops, query.address).map_values(
                |op: (u64, PriorityOp)| deposit_entry(op.1, tokens),
            ) + stored,
            query.offset as int,
            query.limit as int,
        ),
{
    let deposits = deposits_of(ongoing_ops, query.address);
    let reported = deposits.map_values(|op: (u64, PriorityOp)| deposit_entry(op.1, tokens));
    let offset = query.offset as int;
    let limit = query.limit as int;
    let ongoing = query.ongoing_entries(ongoing_ops, tokens);
    let rest = window(
        stored,
        query.stored_offset(ongoing_ops),
        query.stored_limit(ongoing_ops),
    );
    lemma_fewer_deposits(ongoing_ops, query.address);
    assert(ongoing =~= window(reported, offset, limit));
    if ongoing.len() == 0 {
        assert(rest =~= window(stored, offset - deposits.len(), limit));
    }
    assert(ongoing + rest =~= window(reported + stored, offset, limit));
}

/// Two pages that follow each other give the ongoing deposits that one page
/// over both would give.
pub proof fn law_pages_follow_each_other(
    first: HistoryQuery,
    second: HistoryQuery,
    ongoing_ops: Seq<(u64, PriorityOp)>,
)
    requires
        first.acceptable(),
        second.acceptable(),
        first.address == second.address,
        second.offset == first.offset + first.limit,
        second.offset <= usize::MAX,
    ensures
        first.ongoing(ongoing_ops) + second.ongoing(ongoing_ops) == window(
            deposits_of(ongoing_ops, first.address),
            first.offset as int,
            first.limit + second.limit,
        ),
{
    let deposits = deposits_of(ongoing_ops, first.address);
    assert(first.ongoing(ongoing_ops) + second.ongoing(ongoing_ops) =~= window(
        deposits,
        first.offset as int,
        first.limit + second.limit,
    ));
}

proof fn lemma_filters_commute<T>(items: Seq<T>, p: spec_fn(T) -> bool, q: spec_fn(T) -> bool)
    ensures
        items.filter(p).filter(q) == items.filter(q).filter(p),
    decreases items.len(),
{
    reveal(Seq::filter);
    if items.len() > 0 {
        let front = items.drop_last();
        lemma_filters_commute(front, p, q);
        let last = items.last();
        assert(front.filter(p).push(last).drop_last() =~= front.filter(p));
        assert(front.filter(q).push(last).drop_last() =~= front.filter(q));
    }
}

/// The deposits of an address are those of the ongoing operations that concern
/// it, by ascending block, and within one block in the order in which they
/// were given.
pub proof fn law_deposits_are_in_order(ongoing_ops: Seq<(u64, PriorityOp)>, address: Seq<u8>)
    ensures
        sorting::ascends(
            deposits_of(ongoing_ops, address),
            sorting::key_of::<(u64, PriorityOp)>(),
        ),
        forall|op: (u64, PriorityOp)| #[trigger]
            deposits_of(ongoing_ops, address).contains(op) <==> ongoing_ops.contains(op)
                && concerns(op.1, address),
        forall|block: int| #[trigger]
            sorting::with_key(
                deposits_of(ongoing_ops, address),
                sorting::key_of::<(u64, PriorityOp)>(),
                block,
            ) == sorting::with_key(
                ongoing_ops,
                sorting::key_of::<(u64, PriorityOp)>(),
                block,
            ).filter(|op: (u64, PriorityOp)| concerns(op.1, address)),
{
    let key = sorting::key_of::<(u64, PriorityOp)>();
    let concerned = |op: (u64, PriorityOp)| concerns(op.1, address);
    let sorted = sorting::sorted_by_key(ongoing_ops, key);
    let deposits = deposits_of(ongoing_ops, address);
    sorting::law_sorted_by_key(ongoing_ops, key);
    lemma_filter_ascends(sorted, key, concerned);
    assert forall|op: (u64, PriorityOp)| #[trigger] deposits.contains(op) <==> ongoing_ops.contains(
        op,
    ) && concerns(op.1, address) by {
        broadcast use vstd::seq_lib::group_to_multiset_ensures;

        lemma_filter_contains(sorted, concerned, op);
        assert(sorted.contains(op) <==> sorted.to_multiset().count(op) > 0);
        assert(ongoing_ops.contains(op) <==> ongoing_ops.to_multiset().count(op) > 0);
    }
    assert forall|block: int| #[trigger]
        sorting::with_key(deposits, key, block) == sorting::with_key(
            ongoing_ops,
            key,
            block,
        ).filter(concerned) by {
        lemma_filters_commute(
            sorted,
            concerned,
            |op: (u64, PriorityOp)| key(op) == block,
        );
        assert(sorting::with_key(sorted, key, block) == sorting::with_key(ongoing_ops, key, block));
    }
}

proof fn lemma_filter_contains<T>(items: Seq<T>, p: spec_fn(T) -> bool, item: T)
    ensures
        items.filter(p).contains(item) <==> items.contains(item) && p(item),
    decreases items.len(),
{
    reveal(Seq::filter);
    if items.len() > 0 {
        let front = items.drop_last();
        let last = items.last();
        lemma_filter_contains(front, p, item);
        assert(items =~= front.push(last));
        assert(items.contains(item) <==> front.contains(item) || item == last) by {
            if front.contains(item) {
                let i = front.index_of(item);
                assert(items[i] == item);
            }
            assert(items[items.len() - 1] == last);
        }
        if p(last) {
            let kept = front.filter(p);
            assert(kept.push(last).contains(item) <==> kept.contains(item) || item == last) by {
                if kept.contains(item) {
                    let i = kept.index_of(item);
                    assert(kept.push(last)[i] == item);
                }
                assert(kept.push(last)[kept.len() as int] == last);
            }
        }
    }
}

proof fn lemma_filter_ascends<T>(items: Seq<T>, key: spec_fn(T) -> int, p: spec_fn(T) -> bool)
    requires
        sorting::ascends(items, key),
    ensures
        sorting::ascends(items.filter(p), key),
    decreases items.len(),
{
    reveal(Seq::filter);
    if items.len() > 0 {
        let front = items.drop_last();
        let last = items.last();
        lemma_filter_ascends(front, key, p);
        let kept = front.filter(p);
        assert forall|i: int| 0 <= i < kept.len() implies key(#[trigger] kept[i]) <= key(last) by {
            lemma_filter_contains(front, p, kept[i]);
            assert(kept.contains(kept[i]));
            let j = front.index_of(kept[i]);
            assert(key(items[j]) <= key(items[items.len() - 1]));
        }
    }
}

/// A deposit concerns both who sends and who receives it.
pub proof fn law_both_sides_see_a_deposit(op: PriorityOp, deposit: Deposit)
    requires
        op.data == FranklinPriorityOp::Deposit(deposit),
    ensures
        concerns(op, deposit.from@),
        concerns(op, deposit.to@),
{
}

/// The hash under which an ongoing deposit is reported leads back to its
/// Ethereum transaction.
pub proof fn law_reported_deposit_is_found(op: PriorityOp, tokens: Map<u16, Token>)
    ensures
        deposit_entry(op, tokens).hash matches Some(text) && crate::transactions::prefixed_hash(
            vstd::utf8::encode_utf8(text),
        ) == Some(op.eth_hash@),
{
    crate::transactions::law_reported_eth_hash_is_found(op.eth_hash@);
}

/// The document of a deposit has four members, and the transfer within it four
/// more, each with its own name. The token is named by the symbol that is known
/// for it, and is `unknown` where none is.
pub proof fn law_deposit_document_is_complete(
    eth_fee: Seq<char>,
    deposit: Deposit,
    tokens: Map<u16, Token>,
)
    ensures
        deposit_json(eth_fee, deposit, tokens) matches Json::Object(tx) && {
            &&& tx.dom() == set!["account_id"@, "eth_fee"@, "priority_op"@, "type"@]
            &&& tx["account_id"@] == Json::Null
            &&& tx["eth_fee"@] == Json::Text(eth_fee)
            &&& tx["type"@] == Json::Text("Deposit"@)
            &&& tx["priority_op"@] matches Json::Object(transfer) && {
                &&& transfer.dom() == set!["amount"@, "from"@, "to"@, "token"@]
                &&& transfer["amount"@] == Json::Text(deposit.amount@)
                &&& transfer["from"@] == Json::Text(hex_text::prefixed_hex(deposit.from@))
                &&& transfer["to"@] == Json::Text(hex_text::prefixed_hex(deposit.to@))
                &&& tokens.dom().contains(deposit.token) ==> transfer["token"@] == Json::Text(
                    tokens[deposit.token].symbol@,
                )
                &&& !tokens.dom().contains(deposit.token) ==> transfer["token"@] == Json::Text(
                    "unknown"@,
                )
            }
        },
{
    reveal_strlit("account_id");
    reveal_strlit("eth_fee");
    reveal_strlit("priority_op");
    reveal_strlit("type");
    reveal_strlit("amount");
    reveal_strlit("from");
    reveal_strlit("to");
    reveal_strlit("token");
    assert("account_id"@.len() == 10);
    assert("eth_fee"@.len() == 7);
    assert("priority_op"@.len() == 11);
    assert("type"@.len() == 4);
    assert("amount"@.len() == 6);
    assert("from"@.len() == 4);
    assert("to"@.len() == 2);
    assert("token"@.len() == 5);
    let tx = deposit_json(eth_fee, deposit, tokens)->Object_0;
    let transfer = tx["priority_op"@]->Object_0;
    assert(tx.dom() =~= set!["account_id"@, "eth_fee"@, "priority_op"@, "type"@]);
    assert(transfer.dom() =~= set!["amount"@, "from"@, "to"@, "token"@]);
}

/// An entry that reports an ongoing deposit carries the hash of its Ethereum
/// transaction and its serial number, is neither executed nor committed nor
/// verified, and describes the deposit: its fee, its amount, its two addresses
/// and its token, by the symbol that is known for that very token.
pub proof fn law_entry_describes_its_deposit(
    item: TransactionsHistoryItem,
    op: PriorityOp,
    deposit: Deposit,
    tokens: Map<u16, Token>,
)
    requires
        item@ == deposit_entry(op, tokens),
        op.data == FranklinPriorityOp::Deposit(deposit),
    ensures
        item.hash matches Some(hash) && hash@ == "0x"@ + hex_text::hex_text(op.eth_hash@),
        item.pq_id matches Some(id) && (id - op.serial_id) % 0x1_0000_0000_0000_0000 == 0,
        item.success is None,
        item.fail_reason is None,
        !item.commited,
        !item.verified,
        json::json_of(item.tx) matches Json::Object(tx) && {
            &&& tx.dom() == set!["account_id"@, "eth_fee"@, "priority_op"@, "type"@]
            &&& tx["account_id"@] == Json::Null
            &&& tx["eth_fee"@] == Json::Text(op.eth_fee@)
            &&& tx["type"@] == Json::Text("Deposit"@)
            &&& tx["priority_op"@] matches Json::Object(transfer) && {
                &&& transfer.dom() == set!["amount"@, "from"@, "to"@, "token"@]
                &&& transfer["amount"@] == Json::Text(deposit.amount@)
                &&& transfer["from"@] == Json::Text(
                    "0x"@ + hex_text::hex_text(deposit.from.bytes@),
                )
                &&& transfer["to"@] == Json::Text("0x"@ + hex_text::hex_text(deposit.to.bytes@))
                &&& tokens.dom().contains(deposit.token) ==> transfer["token"@] == Json::Text(
                    tokens[deposit.token].symbol@,
                )
                &&& !tokens.dom().contains(deposit.token) ==> transfer["token"@] == Json::Text(
                    "unknown"@,
                )
            }
        },
{
    hex_text::law_reported_text_has_its_prefix(op.eth_hash@);
    hex_text::law_reported_text_has_its_prefix(deposit.from.bytes@);
    hex_text::law_reported_text_has_its_prefix(deposit.to.bytes@);
    law_deposit_document_is_complete(op.eth_fee@, deposit, tokens);
    assert(item@.hash is Some);
    assert(item@.pq_id is Some);
    assert(item@.success == item.success);
    assert(item@.fail_reason is None);
    assert(item@.tx == json::json_of(item.tx));
}

/// An entry says all that it holds: none of its fields is left out.
pub proof fn law_entries_say_all(item: TransactionsHistoryItem)
    ensures
        item.hash is Some <==> item@.hash is Some,
        item.hash matches Some(hash) ==> item@.hash->Some_0 == hash@,
        item.pq_id is Some <==> item@.pq_id is Some,
        item.pq_id matches Some(id) ==> item@.pq_id->Some_0 == id,
        item@.tx == json::json_of(item.tx),
        item@.success == item.success,
        item.fail_reason is Some <==> item@.fail_reason is Some,
        item.fail_reason matches Some(reason) ==> item@.fail_reason->Some_0 == reason@,
        item@.commited == item.commited,
        item@.verified == item.verified,
{
}

proof fn lemma_filter_twice<T>(items: Seq<T>, p: spec_fn(T) -> bool, q: spec_fn(T) -> bool)
    ensures
        items.filter(p).filter(q) == items.filter(|item: T| p(item) && q(item)),
    decreases items.len(),
{
    reveal(Seq::filter);
    if items.len() > 0 {
        let front = items.drop_last();
        lemma_filter_twice(front, p, q);
        assert(front.filter(p).push(items.last()).drop_last() =~= front.filter(p));
    }
}

proof fn lemma_same_filter<T>(items: Seq<T>, p: spec_fn(T) -> bool, q: spec_fn(T) -> bool)
    requires
        forall|item: T| #[trigger] p(item) == q(item),
    ensures
        items.filter(p) == items.filter(q),
{
    assert(p =~= q);
}

/// The deposits of an address come by ascending block. Those of each block are
/// all the deposits among its operations that are sent from the address or to
/// it, in the order in which they were given, and nothing else.
pub proof fn law_deposits_come_by_block(
    ongoing_ops: Seq<(u64, PriorityOp)>,
    address: Seq<u8>,
    block: u64,
)
    ensures
        forall|i: int, j: int|
            0 <= i <= j < deposits_of(ongoing_ops, address).len() ==> (#[trigger] deposits_of(
                ongoing_ops,
                address,
            )[i]).0 <= (#[trigger] deposits_of(ongoing_ops, address)[j]).0,
        deposits_of(ongoing_ops, address).filter(|op: (u64, PriorityOp)| op.0 == block)
            == ongoing_ops.filter(
            |op: (u64, PriorityOp)|
                op.0 == block && (op.1.data matches FranklinPriorityOp::Deposit(deposit) && (
                deposit.from.bytes@ == address || deposit.to.bytes@ == address)),
        ),
{
    let key = sorting::key_of::<(u64, PriorityOp)>();
    let deposits = deposits_of(ongoing_ops, address);
    let in_block = |op: (u64, PriorityOp)| op.0 == block;
    let concerned = |op: (u64, PriorityOp)| concerns(op.1, address);
    let wanted = |op: (u64, PriorityOp)|
        op.0 == block && (op.1.data matches FranklinPriorityOp::Deposit(deposit) && (
        deposit.from.bytes@ == address || deposit.to.bytes@ == address));
    law_deposits_are_in_order(ongoing_ops, address);
    assert forall|i: int, j: int| 0 <= i <= j < deposits.len() implies (#[trigger] deposits[i]).0
        <= (#[trigger] deposits[j]).0 by {
        assert(key(deposits[i]) <= key(deposits[j]));
    }
    sorting::lemma_with_key(deposits, key, block as int, in_block);
    sorting::lemma_with_key(ongoing_ops, key, block as int, in_block);
    lemma_filter_twice(ongoing_ops, in_block, concerned);
    lemma_same_filter(
        ongoing_ops,
        |op: (u64, PriorityOp)| in_block(op) && concerned(op),
        wanted,
    );
}

/// A page reports as many deposits as lie behind the offset and within the
/// limit, starting with the one at the offset. Once it reports one, the storage
/// is asked from its beginning for what is left of the limit; otherwise it is
/// asked for the whole limit, from the offset less the number of ongoing
/// operations.
pub proof fn law_page_reports_from_the_offset(
    page: HistoryPage,
    address: Address,
    offset: i64,
    limit: i64,
    ongoing_ops: Seq<(u64, PriorityOp)>,
    tokens: Map<u16, Token>,
)
    requires
        0 <= offset,
        0 <= limit <= 100,
        is_page(
            page,
            HistoryQuery { address: address.bytes@, offset, limit },
            ongoing_ops,
            tokens,
        ),
    ensures
        ({
            let deposits = deposits_of(ongoing_ops, address.bytes@);
            let behind = deposits.len() - (offset as usize);
            let reported = page.items@.len();
            &&& page.address.bytes@ == address.bytes@
            &&& reported == if behind <= 0 {
                0
            } else if behind <= limit {
                behind
            } else {
                limit as int
            }
            &&& forall|i: int|
                0 <= i < reported ==> (#[trigger] page.items@[i])@ == deposit_entry(
                    deposits[(offset as usize) + i].1,
                    tokens,
                ) && deposits[(offset as usize) + i].1.data is Deposit
            &&& reported > 0 ==> page.offset == 0
            &&& reported == 0 ==> page.offset == offset - ongoing_ops.len()
            &&& page.limit == limit - reported
        }),
{
    let query = HistoryQuery { address: address.bytes@, offset, limit };
    let deposits = deposits_of(ongoing_ops, address.bytes@);
    let shown = query.ongoing(ongoing_ops);
    assert(entries(page.items@).len() == page.items@.len());
    law_deposits_are_in_order(ongoing_ops, address.bytes@);
    assert forall|i: int| 0 <= i < page.items@.len() implies (#[trigger] page.items@[i])@
        == deposit_entry(deposits[(offset as usize) + i].1, tokens) && deposits[(offset as usize)
        + i].1.data is Deposit by {
        assert(entries(page.items@)[i] == page.items@[i]@);
        assert(shown[i] == deposits[(offset as usize) + i]);
        assert(deposits.contains(deposits[(offset as usize) + i]));
    }
}

} // verus!
