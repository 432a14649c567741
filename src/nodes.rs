//! Candidate upstream nodes and the failover cursor over them.

use vstd::prelude::*;
use vstd::string::StringExecFns;
use crate::version::ExpectedVersion;

verus! {

/// A candidate upstream node. Everything but the host is filled in once a
/// handshake with the host succeeds.
#[derive(Clone, Debug)]
pub struct Node {
    pub host: String,
    pub system_version: String,
    pub spec_version: u32,
    pub genesis_hash: [u8; 32],
}

/// A node built from a bare host: empty system version, spec version 0 and
/// an all-zero genesis hash.
pub open spec fn is_fresh_node(n: Node) -> bool {
    &&& n.system_version@.len() == 0
    &&& n.spec_version == 0
    &&& forall|j: int| 0 <= j < 32 ==> n.genesis_hash[j] == 0
}

/// The digit character of `d`, for `d < 10`.
pub open spec fn digit_char(d: nat) -> char {
    seq!['0', '1', '2', '3', '4', '5', '6', '7', '8', '9'][d as int]
}

/// The decimal text of `n`, without leading zeros.
pub open spec fn decimal_text(n: nat) -> Seq<char>
    decreases n,
{
    if n < 10 {
        seq![digit_char(n)]
    } else {
        decimal_text(n / 10).push(digit_char(n % 10))
    }
}

/// The network identifier `<host>/<system_version>/<spec_name>/<spec_version>`.
pub open spec fn network_text(
    host: Seq<char>,
    system_version: Seq<char>,
    spec_name: Seq<char>,
    spec_version: nat,
) -> Seq<char> {
    host + seq!['/'] + system_version + seq!['/'] + spec_name + seq!['/'] + decimal_text(
        spec_version,
    )
}

/// Relies on u32's `ToString` (its `Display`): the decimal digits of `n`.
#[verifier::external_body]
fn decimal(n: u32) -> (r: String)
    ensures
        r@ == decimal_text(n as nat),
{
    n.to_string()
}

/// A copy of `node`, field by field.
fn copy_node(node: &Node) -> (r: Node)
    ensures
        r == *node,
{
    Node {
        host: node.host.clone(),
        system_version: node.system_version.clone(),
        spec_version: node.spec_version,
        genesis_hash: node.genesis_hash,
    }
}

impl Node {
    /// The node's network identifier, naming the specification that every
    /// node is expected to run.
    pub fn network(&self, expected: &ExpectedVersion) -> (r: String)
        ensures
            r@ == network_text(
                self.host@,
                self.system_version@,
                expected.spec_name@,
                self.spec_version as nat,
            ),
    {
        let mut r = self.host.clone();
        r.append("/");
        r.append(self.system_version.as_str());
        r.append("/");
        r.append(expected.spec_name);
        r.append("/");
        let v = decimal(self.spec_version);
        r.append(v.as_str());
        proof {
            reveal_strlit("/");
        }
        assert(r@ =~= network_text(
            self.host@,
            self.system_version@,
            expected.spec_name@,
            self.spec_version as nat,
        ));
        r
    }
}

/// The hosts of `hosts` other than `excluded`, in their order.
pub open spec fn hosts_without(hosts: Seq<Seq<char>>, excluded: Option<Seq<char>>) -> Seq<
    Seq<char>,
>
    decreases hosts.len(),
{
    if hosts.len() == 0 {
        Seq::empty()
    } else {
        let rest = hosts_without(hosts.drop_last(), excluded);
        if excluded == Some(hosts.last()) {
            rest
        } else {
            rest.push(hosts.last())
        }
    }
}

/// A host that is excluded does not remain.
pub proof fn lemma_excluded_host_absent(hosts: Seq<Seq<char>>, excluded: Seq<char>)
    ensures
        !hosts_without(hosts, Some(excluded)).contains(excluded),
    decreases hosts.len(),
{
    if hosts.len() > 0 {
        let rest = hosts_without(hosts.drop_last(), Some(excluded));
        lemma_excluded_host_absent(hosts.drop_last(), excluded);
        if Some(excluded) != Some(hosts.last()) {
            assert forall|i: int| 0 <= i < rest.push(hosts.last()).len() implies rest.push(
                hosts.last(),
            )[i] != excluded by {
                if i < rest.len() {
                    assert(rest[i] != excluded);
                }
            }
        }
    }
}

/// The characters of each host.
pub open spec fn host_texts(hosts: Seq<String>) -> Seq<Seq<char>> {
    hosts.map_values(|h: String| h@)
}

/// The characters of an optional host.
pub open spec fn optional_text(host: Option<String>) -> Option<Seq<char>> {
    match host {
        Some(h) => Some(h@),
        None => None,
    }
}

/// Where the cursor stands after `next` from `cursor` over `len` nodes:
/// one further, or nowhere new once it is on the last node.
pub open spec fn next_cursor(len: nat, cursor: nat) -> Option<nat> {
    if cursor + 1 < len {
        Some(cursor + 1)
    } else {
        None
    }
}

/// Relies on rand's `SliceRandom::shuffle`, drawing from rand::thread_rng:
/// it permutes the elements in place by swaps.
#[verifier::external_body]
fn shuffle_nodes(list: &mut Vec<Node>)
    ensures
        final(list)@.to_multiset() == old(list)@.to_multiset(),
        final(list)@.len() == old(list)@.len(),
{
    rand::seq::SliceRandom::shuffle(list.as_mut_slice(), &mut rand::thread_rng());
}

/// An ordered list of candidate nodes with a cursor on the current one.
pub struct Nodes {
    list: Vec<Node>,
    current_index: usize,
}

impl Nodes {
    /// The candidates, in their current order.
    pub closed spec fn candidates(&self) -> Seq<Node> {
        self.list@
    }

    /// The position of the current candidate.
    pub closed spec fn cursor(&self) -> nat {
        self.current_index as nat
    }

    /// The cursor is on a candidate, or at 0 over an empty list.
    pub open spec fn wf(&self) -> bool {
        if self.candidates().len() == 0 {
            self.cursor() == 0
        } else {
            self.cursor() < self.candidates().len()
        }
    }

    /// The current candidate, if there is any.
    pub open spec fn current(&self) -> Option<Node> {
        if self.candidates().len() == 0 {
            None
        } else {
            Some(self.candidates()[self.cursor() as int])
        }
    }

    /// The hosts of the candidates, in their current order.
    pub open spec fn hosts(&self) -> Seq<Seq<char>> {
        self.candidates().map_values(|n: Node| n.host@)
    }

    /// An empty pool.
    pub fn new() -> (r: Nodes)
        ensures
            r.wf(),
            r.candidates().len() == 0,
    {
        Nodes { list: Vec::new(), current_index: 0 }
    }

    /// Moves the cursor to the next candidate and returns it. On the last
    /// candidate (or over an empty list) the list is exhausted: nothing is
    /// returned and the cursor stays.
    pub fn next(&mut self) -> (r: Option<Node>)
        requires
            old(self).wf(),
        ensures
            final(self).wf(),
            final(self).candidates() == old(self).candidates(),
            match next_cursor(old(self).candidates().len(), old(self).cursor()) {
                Some(c) => final(self).cursor() == c && r == final(self).current(),
                None => final(self).cursor() == old(self).cursor() && r.is_none(),
            },
    {
        if self.list.len() == 0 || self.current_index == self.list.len() - 1 {
            None
        } else {
            self.current_index = self.current_index + 1;
            self.get_current()
        }
    }

    /// A copy of the current candidate, if there is any.
    pub fn get_current(&self) -> (r: Option<Node>)
        requires
            self.wf(),
        ensures
            r == self.current(),
    {
        if self.list.len() == 0 {
            None
        } else {
            Some(copy_node(&self.list[self.current_index]))
        }
    }

    /// A pool over `nodes` without `last_known_node`, in the given order,
    /// with the cursor on the first; each node holds only its host. The pool
    /// that it is called on is left as it is.
    pub fn init(&mut self, nodes: &[String], last_known_node: Option<String>) -> (r: Self)
        ensures
            *final(self) == *old(self),
            r.wf(),
            r.cursor() == 0,
            r.hosts() == hosts_without(host_texts(nodes@), optional_text(last_known_node)),
            forall|i: int|
                0 <= i < r.candidates().len() ==> is_fresh_node(#[trigger] r.candidates()[i]),
            last_known_node matches Some(last) ==> !r.hosts().contains(last@),
    {
        let ghost hosts = host_texts(nodes@);
        let ghost excluded = optional_text(last_known_node);
        let mut list: Vec<Node> = Vec::new();
        let mut i: usize = 0;
        while i < nodes.len()
            invariant
                i <= nodes@.len(),
                hosts == host_texts(nodes@),
                excluded == optional_text(last_known_node),
                list@.map_values(|n: Node| n.host@) == hosts_without(hosts.take(i as int), excluded),
                forall|k: int| 0 <= k < list@.len() ==> is_fresh_node(#[trigger] list@[k]),
            decreases nodes@.len() - i,
        {
            assert(hosts.take(i + 1).drop_last() =~= hosts.take(i as int));
            let keep = match &last_known_node {
                Some(last) => nodes[i] != *last,
                None => true,
            };
            if keep {
                let node = Node {
                    host: nodes[i].clone(),
                    system_version: String::new(),
                    spec_version: 0,
                    genesis_hash: [0u8; 32],
                };
                list.push(node);
                assert(list@.map_values(|n: Node| n.host@) =~= hosts_without(hosts.take(i + 1), excluded));
            } else {
                assert(list@.map_values(|n: Node| n.host@) =~= hosts_without(hosts.take(i + 1), excluded));
            }
            i = i + 1;
        }
        assert(hosts.take(nodes@.len() as int) =~= hosts);
        if let Some(last) = &last_known_node {
            proof {
                lemma_excluded_host_absent(hosts, last@);
            }
        }
        Nodes { list, current_index: 0 }
    }

    /// Puts the candidates in a random order; the cursor stays.
    pub fn shuffle(&mut self)
        requires
            old(self).wf(),
        ensures
            final(self).wf(),
            final(self).candidates().to_multiset() == old(self).candidates().to_multiset(),
            final(self).candidates().len() == old(self).candidates().len(),
            final(self).cursor() == old(self).cursor(),
    {
        shuffle_nodes(&mut self.list);
    }

    /// Starts a new pass over the candidates: shuffles them, moves the
    /// cursor to the first and returns it.
    pub fn reset(&mut self) -> (r: Option<Node>)
        requires
            old(self).wf(),
        ensures
            final(self).wf(),
            final(self).candidates().to_multiset() == old(self).candidates().to_multiset(),
            final(self).candidates().len() == old(self).candidates().len(),
            final(self).cursor() == 0,
            r == final(self).current(),
    {
        self.shuffle();
        self.current_index = 0;
        self.get_current()
    }

    /// Moves on after the current candidate failed: to the next candidate,
    /// or, once the list is exhausted, to the first of a new shuffled pass.
    pub fn fail_over(&mut self) -> (r: Option<Node>)
        requires
            old(self).wf(),
        ensures
            final(self).wf(),
            final(self).candidates().to_multiset() == old(self).candidates().to_multiset(),
            r == final(self).current(),
            match next_cursor(old(self).candidates().len(), old(self).cursor()) {
                Some(c) => final(self).cursor() == c && final(self).candidates()
                    == old(self).candidates(),
                None => final(self).cursor() == 0,
            },
    {
        match self.next() {
            Some(node) => Some(node),
            None => self.reset(),
        }
    }
}

/// The cursor after `k` calls of `next` from `cursor` over `len` candidates.
pub open spec fn cursor_after(len: nat, cursor: nat, k: nat) -> nat
    decreases k,
{
    if k == 0 {
        cursor
    } else {
        let before = cursor_after(len, cursor, (k - 1) as nat);
        match next_cursor(len, before) {
            Some(c) => c,
            None => before,
        }
    }
}

/// From the first of `len` candidates, the calls of `next` visit each
/// further candidate once and in order: after `k` calls the cursor is on
/// candidate `k` (or on the last one), and the next call moves it to `k + 1`
/// while there is such a candidate, and reports exhaustion on every call
/// after that.
pub proof fn lemma_next_visits_in_order(len: nat, k: nat)
    requires
        len >= 1,
    ensures
        cursor_after(len, 0, k) == if k < len {
            k
        } else {
            (len - 1) as nat
        },
        next_cursor(len, cursor_after(len, 0, k)) == if k + 1 < len {
            Some(k + 1)
        } else {
            None::<nat>
        },
    decreases k,
{
    if k > 0 {
        lemma_next_visits_in_order(len, (k - 1) as nat);
    }
}

} // verus!
