//! The node filter: the search field's text, compiled as a case-insensitive
//! regular expression, decides which nodes the table shows.

use vstd::prelude::*;

use crate::model::Node;

verus! {

/// Names what the regular-expression engine decides: whether the search
/// pattern, compiled case-insensitively — an invalid pattern standing for
/// the match-everything pattern — matches somewhere in the text.  The
/// answer depends on the two strings alone.
pub uninterp spec fn regex_matches(pattern: Seq<char>, text: Seq<char>) -> bool;

/// Relies on regex::RegexBuilder::build (case-insensitive) and
/// regex::Regex::is_match; an invalid pattern degrades to matching
/// everything, and the empty pattern matches every text.
#[verifier::external_body]
pub(crate) fn filter_matches(pattern: &str, text: &str) -> (r: bool)
    ensures
        r == regex_matches(pattern@, text@),
        pattern@.len() == 0 ==> r,
{
    match regex::RegexBuilder::new(pattern).case_insensitive(true).build() {
        Ok(re) => re.is_match(text),
        Err(_) => true,
    }
}

/// Whether the filter admits the node.
pub open spec fn node_matches(pattern: Seq<char>, n: Node) -> bool {
    regex_matches(pattern, n.node_description@)
}

/// The nodes the filter admits, in their stored order.
pub open spec fn matching_nodes(pattern: Seq<char>, nodes: Seq<Node>) -> Seq<Node>
    decreases nodes.len(),
{
    if nodes.len() == 0 {
        Seq::empty()
    } else {
        let rest = matching_nodes(pattern, nodes.drop_last());
        if node_matches(pattern, nodes.last()) {
            rest.push(nodes.last())
        } else {
            rest
        }
    }
}

/// How many nodes the filter admits.
pub open spec fn spec_filtered_len(pattern: Seq<char>, nodes: Seq<Node>) -> int {
    matching_nodes(pattern, nodes).len() as int
}

/// Counts the nodes whose description the filter matches.
pub fn count_matching(pattern: &str, nodes: &Vec<Node>) -> (n: usize)
    ensures
        n == spec_filtered_len(pattern@, nodes@),
{
    let mut n: usize = 0;
    let mut i: usize = 0;
    while i < nodes.len()
        invariant
            i <= nodes@.len(),
            n == spec_filtered_len(pattern@, nodes@.take(i as int)),
            n <= i,
        decreases nodes@.len() - i,
    {
        proof {
            assert(nodes@.take(i + 1).drop_last() =~= nodes@.take(i as int));
            assert(nodes@.take(i + 1).last() == nodes@[i as int]);
        }
        if filter_matches(pattern, nodes[i].node_description.as_str()) {
            n += 1;
        }
        i += 1;
    }
    proof {
        assert(nodes@.take(nodes@.len() as int) =~= nodes@);
    }
    n
}

} // verus!
