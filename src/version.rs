//! The expected network identity and the check of a node against it.

use vstd::prelude::*;
use vstd::string::StrSliceExecFns;
use vstd::string::StringExecFns;

verus! {

/// The baseline that every node is checked against: a version prefix and an
/// exact specification name.
pub struct ExpectedVersion<'a> {
    pub version: &'a str,
    pub spec_name: &'a str,
}

/// Whether the characters of `node_version` begin with those of `expected`.
pub open spec fn version_accepted(expected: Seq<char>, node_version: Seq<char>) -> bool {
    expected.is_prefix_of(node_version)
}

/// The text of an expected version: `v<version>/<spec_name>`.
pub open spec fn expected_text(version: Seq<char>, spec_name: Seq<char>) -> Seq<char> {
    seq!['v'] + version + seq!['/'] + spec_name
}

/// Whether `prefix` is a prefix of `s`, character by character.
pub fn has_prefix(s: &str, prefix: &str) -> (r: bool)
    ensures
        r == prefix@.is_prefix_of(s@),
{
    let n = prefix.unicode_len();
    let m = s.unicode_len();
    if n > m {
        return false;
    }
    let mut i: usize = 0;
    while i < n
        invariant
            n == prefix@.len(),
            m == s@.len(),
            n <= m,
            i <= n,
            forall|j: int| 0 <= j < i ==> prefix@[j] == s@[j],
        decreases n - i,
    {
        if prefix.get_char(i) != s.get_char(i) {
            return false;
        }
        i = i + 1;
    }
    assert(prefix@ =~= s@.subrange(0, n as int));
    true
}

/// Whether two strings hold the same characters.
pub fn same_text(a: &str, b: &str) -> (r: bool)
    ensures
        r == (a@ == b@),
{
    let n = a.unicode_len();
    if n != b.unicode_len() {
        return false;
    }
    let mut i: usize = 0;
    while i < n
        invariant
            n == a@.len(),
            n == b@.len(),
            i <= n,
            forall|j: int| 0 <= j < i ==> a@[j] == b@[j],
        decreases n - i,
    {
        if a.get_char(i) != b.get_char(i) {
            return false;
        }
        i = i + 1;
    }
    assert(a@ =~= b@);
    true
}

impl<'a> ExpectedVersion<'a> {
    /// Checks whether a node's reported version and specification name are
    /// compatible with this baseline. Only the prefix of the node version is
    /// compared, so that `1.6` accepts `1.6.x`; the specification name must
    /// match exactly. Runtime compatibility is not checked.
    pub fn matches(&self, node_version: &str, spec_name: &str) -> (r: bool)
        ensures
            r == (version_accepted(self.version@, node_version@) && self.spec_name@
                == spec_name@),
    {
        has_prefix(node_version, self.version) && same_text(self.spec_name, spec_name)
    }

    /// The baseline as text, `v<version>/<spec_name>`.
    pub fn to_string(&self) -> (r: String)
        ensures
            r@ == expected_text(self.version@, self.spec_name@),
    {
        let mut r = String::from_str("v");
        r.append(self.version);
        r.append("/");
        r.append(self.spec_name);
        proof {
            reveal_strlit("v");
            reveal_strlit("/");
        }
        assert(r@ =~= expected_text(self.version@, self.spec_name@));
        r
    }
}

} // verus!
