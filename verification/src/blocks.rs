//! Blocks and the operations that were executed in them.

use vstd::prelude::*;

use crate::hex_text;
use crate::reply::ErrorReply;

verus! {

/// The most blocks that one request may ask for.
pub const MAX_BLOCKS: u32 = 100;

/// How many blocks are listed where a request does not say.
pub const DEFAULT_BLOCKS: u32 = 20;

/// The highest block that is listed where a request does not say.
pub const DEFAULT_MAX_BLOCK: u32 = 999_999_999;

/// The parameters of a request for a list of blocks.
#[derive(Clone, Copy, Debug, PartialEq, Eq)]
pub struct HandleBlocksQuery {
    pub max_block: Option<u32>,
    pub limit: Option<u32>,
}

/// A query for at most `limit` blocks, from `max_block` down.
#[derive(Clone, Copy, Debug, PartialEq, Eq)]
pub struct BlockRange {
    pub max_block: u32,
    pub limit: u32,
}

/// The range of blocks that a request asks for.
pub open spec fn requested_range(query: HandleBlocksQuery) -> BlockRange {
    BlockRange {
        max_block: match query.max_block {
            Some(max_block) => max_block,
            None => DEFAULT_MAX_BLOCK,
        },
        limit: match query.limit {
            Some(limit) => limit,
            None => DEFAULT_BLOCKS,
        },
    }
}

/// Says which blocks the storage is asked for. A request for too many is
/// refused.
pub fn handle_get_blocks(query: HandleBlocksQuery) -> (outcome: Result<BlockRange, ErrorReply>)
    ensures
        outcome == if requested_range(query).limit > MAX_BLOCKS {
            Err::<BlockRange, ErrorReply>(ErrorReply::BadRequest)
        } else {
            Ok::<BlockRange, ErrorReply>(requested_range(query))
        },
{
    let max_block: u32 = query.max_block.unwrap_or(DEFAULT_MAX_BLOCK);
    let limit: u32 = query.limit.unwrap_or(DEFAULT_BLOCKS);
    if limit > MAX_BLOCKS {
        return Err(ErrorReply::BadRequest);
    }
    Ok(BlockRange { max_block, limit })
}

/// Replies to a request for a list of blocks with what the storage gave. A
/// failed query is an internal error.
pub fn blocks_reply<T, E>(blocks: Result<Vec<T>, E>) -> (reply: Result<Vec<T>, ErrorReply>)
    ensures
        reply == crate::reply::or_reply(blocks, ErrorReply::InternalServerError),
{
    crate::reply::query_result(blocks)
}

/// Says which blocks the storage is asked for to find the one with this
/// number: one, from that number down.
pub fn handle_get_block_by_id(block_id: u32) -> (range: BlockRange)
    ensures
        range == (BlockRange { max_block: block_id, limit: 1 }),
{
    BlockRange { max_block: block_id, limit: 1 }
}

/// Replies to a request for one block with the last block that the storage
/// gave. A block that is not there is not found; a failed query is an internal
/// error.
pub fn block_by_id_reply<T, E>(blocks: Result<Vec<T>, E>) -> (reply: Result<T, ErrorReply>)
    ensures
        match blocks {
            Ok(blocks) => reply == if blocks@.len() > 0 {
                Ok::<T, ErrorReply>(blocks@.last())
            } else {
                Err::<T, ErrorReply>(ErrorReply::NotFound)
            },
            Err(_) => reply == Err::<T, ErrorReply>(ErrorReply::InternalServerError),
        },
{
    let mut blocks = match blocks {
        Ok(blocks) => blocks,
        Err(_) => return Err(ErrorReply::InternalServerError),
    };
    match blocks.pop() {
        Some(block) => Ok(block),
        None => Err(ErrorReply::NotFound),
    }
}

/// Replies to a search for a block with the block that was found.
pub fn handle_block_search<T>(found: Option<T>) -> (reply: Result<T, ErrorReply>)
    ensures
        reply == (match found {
            Some(block) => Ok::<T, ErrorReply>(block),
            None => Err::<T, ErrorReply>(ErrorReply::NotFound),
        }),
{
    match found {
        Some(block) => Ok(block),
        None => Err(ErrorReply::NotFound),
    }
}

/// Replies to a request for one operation of a block with the operation at
/// that position. A position that the block does not have is not found; a
/// failed query is an internal error.
pub fn handle_get_transaction_by_id<T, E>(tx_id: u32, executed_ops: Result<Vec<T>, E>) -> (reply:
    Result<T, ErrorReply>)
    ensures
        match executed_ops {
            Ok(ops) => reply == if tx_id < ops@.len() {
                Ok::<T, ErrorReply>(ops@[tx_id as int])
            } else {
                Err::<T, ErrorReply>(ErrorReply::NotFound)
            },
            Err(_) => reply == Err::<T, ErrorReply>(ErrorReply::InternalServerError),
        },
{
    let mut ops = match executed_ops {
        Ok(ops) => ops,
        Err(_) => return Err(ErrorReply::InternalServerError),
    };
    let position: usize = tx_id as usize;
    if position < ops.len() {
        Ok(ops.swap_remove(position))
    } else {
        Err(ErrorReply::NotFound)
    }
}

/// A transaction of a block, with the record that the storage keeps of it.
#[derive(Debug, PartialEq, Eq)]
pub struct ExecutedTx<T> {
    /// The hash of the transaction, as it is shown.
    pub hash: String,
    /// Whether the transaction led to an operation: a failed one did not.
    pub has_op: bool,
    pub record: T,
}

/// A priority operation of a block, with the record that the storage keeps of
/// it.
#[derive(Debug, PartialEq, Eq)]
pub struct ExecutedPriorityOp<T> {
    /// The hash of the Ethereum transaction.
    pub eth_hash: Vec<u8>,
    pub record: T,
}

/// Something that was executed in a block.
#[derive(Debug, PartialEq, Eq)]
pub enum ExecutedOperations<T> {
    Tx(ExecutedTx<T>),
    PriorityOp(ExecutedPriorityOp<T>),
}

/// An executed operation together with the hash under which it can be looked
/// up.
#[derive(Debug, PartialEq, Eq)]
pub struct ExecutedOperationWithHash<T> {
    pub op: ExecutedOperations<T>,
    pub tx_hash: String,
}

/// Whether an operation is shown among those of its block: each priority
/// operation, and each transaction that led to an operation.
pub open spec fn is_shown<T>(op: ExecutedOperations<T>) -> bool {
    match op {
        ExecutedOperations::Tx(tx) => tx.has_op,
        ExecutedOperations::PriorityOp(_) => true,
    }
}

/// The hash under which an operation is shown.
pub open spec fn shown_hash<T>(op: ExecutedOperations<T>) -> Seq<char> {
    match op {
        ExecutedOperations::Tx(tx) => tx.hash@,
        ExecutedOperations::PriorityOp(op) => hex_text::prefixed_hex(op.eth_hash@),
    }
}

/// The operations of a block that are shown, each with its hash.
pub open spec fn shown_ops<T>(ops: Seq<ExecutedOperations<T>>) -> Seq<
    (ExecutedOperations<T>, Seq<char>),
> {
    ops.filter(|op: ExecutedOperations<T>| is_shown(op)).map_values(
        |op: ExecutedOperations<T>| (op, shown_hash(op)),
    )
}

/// What a list of operations with their hashes says.
pub open spec fn listed_ops<T>(listed: Seq<ExecutedOperationWithHash<T>>) -> Seq<
    (ExecutedOperations<T>, Seq<char>),
> {
    listed.map_values(|item: ExecutedOperationWithHash<T>| (item.op, item.tx_hash@))
}

/// Whether the hash of an operation can be rendered: its text must fit in a
/// `String`.
pub open spec fn renderable<T>(op: ExecutedOperations<T>) -> bool {
    op matches ExecutedOperations::PriorityOp(op) ==> 2 * op.eth_hash@.len() + 2 <= isize::MAX
}

/// Replies to a request for the operations of a block with those that are
/// shown, in their order, each with its hash. A failed query is an internal
/// error.
pub fn handle_get_block_transactions<T, E>(
    executed_ops: Result<Vec<ExecutedOperations<T>>, E>,
) -> (reply: Result<Vec<ExecutedOperationWithHash<T>>, ErrorReply>)
    requires
        executed_ops matches Ok(ops) ==> forall|i: int|
            0 <= i < ops@.len() ==> renderable(#[trigger] ops@[i]),
    ensures
        match executed_ops {
            Ok(ops) => reply matches Ok(listed) && listed_ops(listed@) == shown_ops(ops@),
            Err(_) => reply == Err::<Vec<ExecutedOperationWithHash<T>>, ErrorReply>(
                ErrorReply::InternalServerError,
            ),
        },
{
    let ops = match executed_ops {
        Ok(ops) => ops,
        Err(_) => return Err(ErrorReply::InternalServerError),
    };
    let ghost all = ops@;
    let mut listed: Vec<ExecutedOperationWithHash<T>> = Vec::new();
    for op in it: ops
        invariant
            it.seq() == all,
            forall|i: int| 0 <= i < all.len() ==> renderable(#[trigger] all[i]),
            listed_ops(listed@) == shown_ops(all.take(it.index() as int)),
    {
        let ghost before = listed@;
        let ghost current = op;
        proof {
            reveal(Seq::filter);
            assert(all.take(it.index() + 1).drop_last() =~= all.take(it.index() as int));
            assert(all.take(it.index() + 1).last() == op);
            assert(renderable(all[it.index() as int]));
        }
        let tx_hash: Option<String> = match &op {
            ExecutedOperations::Tx(tx) => {
                if tx.has_op {
                    Some(tx.hash.clone())
                } else {
                    None
                }
            },
            ExecutedOperations::PriorityOp(op) => Some(
                hex_text::render_eth_hash(op.eth_hash.as_slice()),
            ),
        };
        match tx_hash {
            Some(tx_hash) => {
                listed.push(ExecutedOperationWithHash { op, tx_hash });
                assert(listed_ops(listed@) =~= listed_ops(before).push(
                    (current, shown_hash(current)),
                ));
            },
            None => {},
        }
        assert(listed_ops(listed@) =~= shown_ops(all.take(it.index() + 1)));
    }
    assert(all.take(all.len() as int) =~= all);
    Ok(listed)
}

/// The operations of two parts of a block are shown one part after the other:
/// what is shown keeps its order, and whether an operation is shown depends on
/// it alone.
pub proof fn law_shown_ops_keep_their_order<T>(
    a: Seq<ExecutedOperations<T>>,
    b: Seq<ExecutedOperations<T>>,
)
    ensures
        shown_ops(a + b) == shown_ops(a) + shown_ops(b),
    decreases b.len(),
{
    if b.len() == 0 {
        reveal(Seq::filter);
        assert(a + b =~= a);
        assert(shown_ops(a) + shown_ops(b) =~= shown_ops(a));
    } else {
        let front = b.drop_last();
        let last = b.last();
        law_shown_ops_keep_their_order(a, front);
        lemma_shown_ops_push(a + front, last);
        lemma_shown_ops_push(front, last);
        assert(a + b =~= (a + front).push(last));
        assert(b =~= front.push(last));
        assert(shown_ops(a + b) =~= shown_ops(a) + shown_ops(b));
    }
}

proof fn lemma_shown_ops_push<T>(ops: Seq<ExecutedOperations<T>>, op: ExecutedOperations<T>)
    ensures
        shown_ops(ops.push(op)) == if is_shown(op) {
            shown_ops(ops).push((op, shown_hash(op)))
        } else {
            shown_ops(ops)
        },
{
    reveal(Seq::filter);
    assert(ops.push(op).drop_last() =~= ops);
    if is_shown(op) {
        assert(shown_ops(ops.push(op)) =~= shown_ops(ops).push((op, shown_hash(op))));
    }
}

/// Priority operations and successful transactions are all shown; a failed
/// transaction never is.
pub proof fn law_only_failed_transactions_are_hidden<T>(
    ops: Seq<ExecutedOperations<T>>,
    op: ExecutedOperations<T>,
)
    ensures
        shown_ops(ops).contains((op, shown_hash(op))) <==> ops.contains(op) && !(op matches
            ExecutedOperations::Tx(tx) && !tx.has_op),
    decreases ops.len(),
{
    if ops.len() == 0 {
        reveal(Seq::filter);
    } else {
        let front = ops.drop_last();
        let last = ops.last();
        let shown = shown_ops(front);
        let item = (op, shown_hash(op));
        law_only_failed_transactions_are_hidden(front, op);
        lemma_shown_ops_push(front, last);
        assert(ops =~= front.push(last));
        assert(ops.contains(op) <==> front.contains(op) || op == last) by {
            if front.contains(op) {
                assert(ops[front.index_of(op)] == op);
            }
            assert(ops[ops.len() - 1] == last);
        }
        if is_shown(last) {
            let longer = shown.push((last, shown_hash(last)));
            assert(longer.contains(item) <==> shown.contains(item) || op == last) by {
                if shown.contains(item) {
                    assert(longer[shown.index_of(item)] == item);
                }
                assert(longer[shown.len() as int] == (last, shown_hash(last)));
            }
        }
    }
}

/// The hash under which a priority operation is shown leads back to its
/// Ethereum transaction.
pub proof fn law_shown_priority_op_is_found<T>(op: ExecutedPriorityOp<T>)
    ensures
        crate::transactions::prefixed_hash(
            vstd::utf8::encode_utf8(shown_hash(ExecutedOperations::PriorityOp(op))),
        ) == Some(op.eth_hash@),
{
    crate::transactions::law_reported_eth_hash_is_found(op.eth_hash@);
}

/// A list of the operations of a block leaves out the failed transactions and
/// keeps all else in its order. Each listed transaction carries its whole hash;
/// each priority operation carries `0x` and the digits of the hash of its
/// Ethereum transaction.
pub proof fn law_listed_ops_carry_their_hashes<T>(
    listed: Seq<ExecutedOperationWithHash<T>>,
    ops: Seq<ExecutedOperations<T>>,
)
    requires
        listed_ops(listed) == shown_ops(ops),
    ensures
        listed.map_values(|item: ExecutedOperationWithHash<T>| item.op) == ops.filter(
            |op: ExecutedOperations<T>| op matches ExecutedOperations::Tx(tx) ==> tx.has_op,
        ),
        forall|i: int|
            0 <= i < listed.len() ==> match (#[trigger] listed[i]).op {
                ExecutedOperations::Tx(tx) => tx.has_op && listed[i].tx_hash@ == tx.hash@,
                ExecutedOperations::PriorityOp(op) => listed[i].tx_hash@ == "0x"@
                    + hex_text::hex_text(op.eth_hash@),
            },
{
    let shown = |op: ExecutedOperations<T>| is_shown(op);
    let kept = ops.filter(shown);
    assert(shown =~= (|op: ExecutedOperations<T>|
        op matches ExecutedOperations::Tx(tx) ==> tx.has_op));
    assert(listed_ops(listed).len() == listed.len());
    assert(shown_ops(ops).len() == kept.len());
    assert forall|i: int| 0 <= i < listed.len() implies (#[trigger] listed[i]).op == kept[i]
        && listed[i].tx_hash@ == shown_hash(kept[i]) && is_shown(kept[i]) by {
        assert(listed_ops(listed)[i] == (listed[i].op, listed[i].tx_hash@));
        assert(shown_ops(ops)[i] == (kept[i], shown_hash(kept[i])));
        ops.lemma_filter_pred(shown, i);
    }
    assert(listed.map_values(|item: ExecutedOperationWithHash<T>| item.op) =~= kept);
    assert forall|i: int| 0 <= i < listed.len() implies match (#[trigger] listed[i]).op {
        ExecutedOperations::Tx(tx) => tx.has_op && listed[i].tx_hash@ == tx.hash@,
        ExecutedOperations::PriorityOp(op) => listed[i].tx_hash@ == "0x"@ + hex_text::hex_text(
            op.eth_hash@,
        ),
    } by {
        if let ExecutedOperations::PriorityOp(op) = listed[i].op {
            hex_text::law_reported_text_has_its_prefix(op.eth_hash@);
        }
    }
}

/// A request for blocks is refused exactly where it names a limit above a
/// hundred. Otherwise the storage is asked from the block that the request
/// names, whatever its limit, and for as many blocks as it names, whatever its
/// block; each default stands in for its own parameter only.
pub proof fn law_each_parameter_counts_for_itself(
    query: HandleBlocksQuery,
    outcome: Result<BlockRange, ErrorReply>,
)
    requires
        call_ensures(handle_get_blocks, (query,), outcome),
    ensures
        outcome is Err <==> query.limit is Some && query.limit->Some_0 > 100,
        outcome matches Err(reply) ==> reply == ErrorReply::BadRequest,
        outcome matches Ok(range) ==> {
            &&& query.max_block matches Some(max_block) ==> range.max_block == max_block
            &&& query.max_block is None ==> range.max_block == 999_999_999
            &&& query.limit matches Some(limit) ==> range.limit == limit
            &&& query.limit is None ==> range.limit == 20
        },
{
}

} // verus!
