//! Where each endpoint is found.

use vstd::prelude::*;

verus! {

/// The scope under which all endpoints but the icon are found.
pub const SCOPE: &'static str = "/api/v0.1";

/// Where the icon is found. It is empty: clients use it to see whether the
/// server can be reached.
pub const ICON: &'static str = "/favicon.ico";

/// How long, in seconds, a client may rely on a preflight reply.
pub const CORS_MAX_AGE: usize = 3600;

/// How long, in seconds, workers may go on after a shutdown.
pub const SHUTDOWN_TIMEOUT: u64 = 1;

/// The endpoints that the server has.
#[derive(Clone, Copy, Debug, PartialEq, Eq, Structural)]
pub enum Endpoint {
    TestnetConfig,
    NetworkStatus,
    AccountState,
    Tokens,
    AccountTransactions,
    AccountTransactionsHistory,
    ExecutedTransactionByHash,
    TxByHash,
    PriorityOpReceipt,
    TransactionById,
    BlockTransactions,
    BlockById,
    Blocks,
    BlockSearch,
}

/// A path within the scope, with named parameters in braces, and the endpoint
/// that answers a `GET` there.
#[derive(Clone, Copy, Debug)]
pub struct Route {
    pub path: &'static str,
    pub endpoint: Endpoint,
}

/// The routes in the order in which they are tried.
pub open spec fn route_table() -> Seq<(Seq<char>, Endpoint)> {
    seq![
        ("/blocks/{block_id}/transactions"@, Endpoint::BlockTransactions),
        ("/testnet_config"@, Endpoint::TestnetConfig),
        ("/status"@, Endpoint::NetworkStatus),
        ("/account/{address}"@, Endpoint::AccountState),
        ("/tokens"@, Endpoint::Tokens),
        ("/account/{id}/transactions"@, Endpoint::AccountTransactions),
        ("/account/{address}/history/{offset}/{limit}"@, Endpoint::AccountTransactionsHistory),
        ("/transactions/{tx_hash}"@, Endpoint::ExecutedTransactionByHash),
        ("/transactions_all/{tx_hash}"@, Endpoint::TxByHash),
        ("/priority_operations/{pq_id}/"@, Endpoint::PriorityOpReceipt),
        ("/blocks/{block_id}/transactions/{tx_id}"@, Endpoint::TransactionById),
        ("/blocks/{block_id}/transactions"@, Endpoint::BlockTransactions),
        ("/blocks/{block_id}"@, Endpoint::BlockById),
        ("/blocks"@, Endpoint::Blocks),
        ("/search"@, Endpoint::BlockSearch),
    ]
}

/// Returns the routes in the order in which they are tried.
pub fn routes() -> (table: Vec<Route>)
    ensures
        table@.map_values(|route: Route| (route.path@, route.endpoint)) == route_table(),
{
    let mut table: Vec<Route> = Vec::new();
    table.push(
        Route {
            path: "/blocks/{block_id}/transactions",
            endpoint: Endpoint::BlockTransactions,
        },
    );
    table.push(Route { path: "/testnet_config", endpoint: Endpoint::TestnetConfig });
    table.push(Route { path: "/status", endpoint: Endpoint::NetworkStatus });
    table.push(Route { path: "/account/{address}", endpoint: Endpoint::AccountState });
    table.push(Route { path: "/tokens", endpoint: Endpoint::Tokens });
    table.push(
        Route { path: "/account/{id}/transactions", endpoint: Endpoint::AccountTransactions },
    );
    table.push(
        Route {
            path: "/account/{address}/history/{offset}/{limit}",
            endpoint: Endpoint::AccountTransactionsHistory,
        },
    );
    table.push(
        Route { path: "/transactions/{tx_hash}", endpoint: Endpoint::ExecutedTransactionByHash },
    );
    table.push(Route { path: "/transactions_all/{tx_hash}", endpoint: Endpoint::TxByHash });
    table.push(
        Route { path: "/priority_operations/{pq_id}/", endpoint: Endpoint::PriorityOpReceipt },
    );
    table.push(
        Route {
            path: "/blocks/{block_id}/transactions/{tx_id}",
            endpoint: Endpoint::TransactionById,
        },
    );
    table.push(
        Route {
            path: "/blocks/{block_id}/transactions",
            endpoint: Endpoint::BlockTransactions,
        },
    );
    table.push(Route { path: "/blocks/{block_id}", endpoint: Endpoint::BlockById });
    table.push(Route { path: "/blocks", endpoint: Endpoint::Blocks });
    table.push(Route { path: "/search", endpoint: Endpoint::BlockSearch });
    assert(table@.map_values(|route: Route| (route.path@, route.endpoint)) =~= route_table());
    table
}

/// No path leads to two endpoints, though one of them is listed twice.
pub proof fn law_one_endpoint_for_each_path(i: int, j: int)
    requires
        0 <= i < route_table().len(),
        0 <= j < route_table().len(),
        route_table()[i].0 == route_table()[j].0,
    ensures
        route_table()[i].1 == route_table()[j].1,
{
    reveal_strlit("/blocks/{block_id}/transactions");
    reveal_strlit("/testnet_config");
    reveal_strlit("/status");
    reveal_strlit("/account/{address}");
    reveal_strlit("/tokens");
    reveal_strlit("/account/{id}/transactions");
    reveal_strlit("/account/{address}/history/{offset}/{limit}");
    reveal_strlit("/transactions/{tx_hash}");
    reveal_strlit("/transactions_all/{tx_hash}");
    reveal_strlit("/priority_operations/{pq_id}/");
    reveal_strlit("/blocks/{block_id}/transactions/{tx_id}");
    reveal_strlit("/blocks/{block_id}");
    reveal_strlit("/blocks");
    reveal_strlit("/search");
    let mark = |k: int|
        (route_table()[k].0.len() as int, route_table()[k].0[1], route_table()[k].0[2]);
    assert(mark(0) == (31int, 'b', 'l'));
    assert(mark(1) == (15int, 't', 'e'));
    assert(mark(2) == (7int, 's', 't'));
    assert(mark(3) == (18int, 'a', 'c'));
    assert(mark(4) == (7int, 't', 'o'));
    assert(mark(5) == (26int, 'a', 'c'));
    assert(mark(6) == (43int, 'a', 'c'));
    assert(mark(7) == (23int, 't', 'r'));
    assert(mark(8) == (27int, 't', 'r'));
    assert(mark(9) == (29int, 'p', 'r'));
    assert(mark(10) == (39int, 'b', 'l'));
    assert(mark(11) == (31int, 'b', 'l'));
    assert(mark(12) == (18int, 'b', 'l'));
    assert(mark(13) == (7int, 'b', 'l'));
    assert(mark(14) == (7int, 's', 'e'));
}

/// Each endpoint can be reached.
pub proof fn law_each_endpoint_has_a_path(endpoint: Endpoint)
    ensures
        exists|i: int| 0 <= i < route_table().len() && (#[trigger] route_table()[i]).1 == endpoint,
{
    let i: int = match endpoint {
        Endpoint::TestnetConfig => 1,
        Endpoint::NetworkStatus => 2,
        Endpoint::AccountState => 3,
        Endpoint::Tokens => 4,
        Endpoint::AccountTransactions => 5,
        Endpoint::AccountTransactionsHistory => 6,
        Endpoint::ExecutedTransactionByHash => 7,
        Endpoint::TxByHash => 8,
        Endpoint::PriorityOpReceipt => 9,
        Endpoint::TransactionById => 10,
        Endpoint::BlockTransactions => 0,
        Endpoint::BlockById => 12,
        Endpoint::Blocks => 13,
        Endpoint::BlockSearch => 14,
    };
    assert(route_table()[i].1 == endpoint);
}

/// Each endpoint answers at its own path, whatever the order in which the routes
/// are tried, and there is a route to each.
pub proof fn law_endpoints_answer_at_their_paths(table: Vec<Route>, i: int, endpoint: Endpoint)
    requires
        call_ensures(routes, (), table),
        0 <= i < table@.len(),
    ensures
        table@[i].path@ == (match table@[i].endpoint {
            Endpoint::TestnetConfig => "/testnet_config"@,
            Endpoint::NetworkStatus => "/status"@,
            Endpoint::AccountState => "/account/{address}"@,
            Endpoint::Tokens => "/tokens"@,
            Endpoint::AccountTransactions => "/account/{id}/transactions"@,
            Endpoint::AccountTransactionsHistory => "/account/{address}/history/{offset}/{limit}"@,
            Endpoint::ExecutedTransactionByHash => "/transactions/{tx_hash}"@,
            Endpoint::TxByHash => "/transactions_all/{tx_hash}"@,
            Endpoint::PriorityOpReceipt => "/priority_operations/{pq_id}/"@,
            Endpoint::TransactionById => "/blocks/{block_id}/transactions/{tx_id}"@,
            Endpoint::BlockTransactions => "/blocks/{block_id}/transactions"@,
            Endpoint::BlockById => "/blocks/{block_id}"@,
            Endpoint::Blocks => "/blocks"@,
            Endpoint::BlockSearch => "/search"@,
        }),
        exists|j: int| 0 <= j < table@.len() && (#[trigger] table@[j]).endpoint == endpoint,
{
    let listed = table@.map_values(|route: Route| (route.path@, route.endpoint));
    assert(listed == route_table());
    assert(listed.len() == table@.len());
    assert(listed[i] == (table@[i].path@, table@[i].endpoint));
    law_each_endpoint_has_a_path(endpoint);
    let j = choose|j: int|
        0 <= j < route_table().len() && (#[trigger] route_table()[j]).1 == endpoint;
    assert(listed[j] == (table@[j].path@, table@[j].endpoint));
}

} // verus!
