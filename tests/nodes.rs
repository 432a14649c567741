use light_rpc::nodes::{Node, Nodes};
use light_rpc::version::ExpectedVersion;

fn hosts(list: &[&str]) -> Vec<String> {
    list.iter().map(|h| h.to_string()).collect()
}

fn pool(list: &[&str], last: Option<&str>) -> Nodes {
    Nodes::new().init(&hosts(list), last.map(|h| h.to_string()))
}

fn host_of(node: Option<Node>) -> Option<String> {
    node.map(|n| n.host)
}

fn all_hosts(nodes: &mut Nodes) -> Vec<String> {
    let mut out = vec![nodes.get_current().unwrap().host];
    while let Some(n) = nodes.next() {
        out.push(n.host);
    }
    out
}

#[test]
fn init_excludes_last_known_node() {
    let mut nodes = pool(&["a", "b", "c"], Some("b"));
    assert_eq!(all_hosts(&mut nodes), vec!["a", "c"]);
}

#[test]
fn init_without_exclusion_keeps_order() {
    let mut nodes = pool(&["x", "y", "z"], None);
    assert_eq!(all_hosts(&mut nodes), vec!["x", "y", "z"]);
    let mut unmatched = pool(&["x", "y"], Some("q"));
    assert_eq!(all_hosts(&mut unmatched), vec!["x", "y"]);
}

#[test]
fn init_excludes_every_copy() {
    let mut nodes = pool(&["a", "b", "a", "c"], Some("a"));
    assert_eq!(all_hosts(&mut nodes), vec!["b", "c"]);
}

#[test]
fn init_builds_fresh_nodes() {
    let nodes = pool(&["h1"], None);
    let n = nodes.get_current().unwrap();
    assert_eq!(n.host, "h1");
    assert_eq!(n.system_version, "");
    assert_eq!(n.spec_version, 0);
    assert_eq!(n.genesis_hash, [0u8; 32]);
}

#[test]
fn next_visits_in_order_then_stays_exhausted() {
    let mut nodes = pool(&["a", "b", "c", "d"], None);
    assert_eq!(host_of(nodes.get_current()), Some("a".to_string()));
    assert_eq!(host_of(nodes.next()), Some("b".to_string()));
    assert_eq!(host_of(nodes.next()), Some("c".to_string()));
    assert_eq!(host_of(nodes.next()), Some("d".to_string()));
    assert!(nodes.next().is_none());
    assert!(nodes.next().is_none());
    assert_eq!(host_of(nodes.get_current()), Some("d".to_string()));
}

#[test]
fn empty_pool_has_no_current_or_next() {
    let mut nodes = pool(&["b"], Some("b"));
    assert!(nodes.get_current().is_none());
    assert!(nodes.next().is_none());
    assert!(nodes.reset().is_none());
}

#[test]
fn reset_returns_first_of_a_permutation() {
    let mut nodes = pool(&["a", "b", "c", "d", "e"], None);
    nodes.next();
    nodes.next();
    let first = nodes.reset().unwrap();
    assert_eq!(host_of(nodes.get_current()), Some(first.host.clone()));
    let mut seen = all_hosts(&mut nodes);
    assert_eq!(seen[0], first.host);
    seen.sort();
    assert_eq!(seen, vec!["a", "b", "c", "d", "e"]);
    assert!(nodes.next().is_none());
}

#[test]
fn shuffle_keeps_the_hosts() {
    let mut nodes = pool(&["a", "b", "c"], None);
    nodes.shuffle();
    let mut seen = all_hosts(&mut nodes);
    seen.sort();
    assert_eq!(seen, vec!["a", "b", "c"]);
}

#[test]
fn fail_over_advances_then_restarts() {
    let mut nodes = pool(&["a", "b"], None);
    assert_eq!(host_of(nodes.fail_over()), Some("b".to_string()));
    let restarted = nodes.fail_over().unwrap();
    assert_eq!(host_of(nodes.get_current()), Some(restarted.host.clone()));
    assert!(restarted.host == "a" || restarted.host == "b");
}

#[test]
fn node_network_identifier() {
    let node = Node {
        host: "ws://127.0.0.1:9944".to_string(),
        system_version: "1.6.3-abc".to_string(),
        spec_version: 120,
        genesis_hash: [7u8; 32],
    };
    let expected = ExpectedVersion { version: "1.6", spec_name: "avail" };
    assert_eq!(node.network(&expected), "ws://127.0.0.1:9944/1.6.3-abc/avail/120");
    let zero = Node { spec_version: 0, ..node };
    assert_eq!(zero.network(&expected), "ws://127.0.0.1:9944/1.6.3-abc/avail/0");
}
