//! The static scope file: comma-separated records that seed the node set
//! in place of discovery.  One header line is ignored; each further line
//! holds `guid,description,lid,port_number[,remote_description]`, the GUID
//! in hexadecimal (with a `0x` prefix) or decimal.  Malformed lines are
//! skipped; records sharing a GUID merge into one node that accumulates
//! the ports.

use vstd::prelude::*;

use crate::model::{first_guid_idx, lemma_first_guid_idx_extend, Node, Port};
use crate::text::{string_push_char, spec_trim, trim_front, trim_back, is_space, trim_str};

verus! {

/// The line cut at every comma; a trailing comma yields an empty last
/// field.
pub open spec fn split_from(s: Seq<char>, i: int, start: int) -> Seq<Seq<char>>
    recommends
        0 <= start <= i <= s.len(),
    decreases s.len() - i,
{
    if i >= s.len() {
        seq![s.subrange(start, s.len() as int)]
    } else if s[i] == ',' {
        seq![s.subrange(start, i)] + split_from(s, i + 1, i + 1)
    } else {
        split_from(s, i + 1, start)
    }
}

pub open spec fn spec_split_commas(s: Seq<char>) -> Seq<Seq<char>> {
    split_from(s, 0, 0)
}

/// Cuts a line at its commas.
pub fn split_commas(s: &str) -> (parts: Vec<String>)
    ensures
        parts@.map_values(|p: String| p@) == spec_split_commas(s@),
{
    let len = s.unicode_len();
    let mut parts: Vec<String> = Vec::new();
    let mut cur = String::new();
    let mut i: usize = 0;
    while i < len
        invariant
            i <= len,
            len == s@.len(),
            cur@.len() <= i,
            cur@ == s@.subrange(i - cur@.len(), i as int),
            spec_split_commas(s@) == parts@.map_values(|p: String| p@) + split_from(
                s@,
                i as int,
                i - cur@.len(),
            ),
        decreases len - i,
    {
        let c = s.get_char(i);
        let ghost start = i - cur@.len();
        if c == ',' {
            proof {
                assert(s@.subrange(start, i as int) == cur@);
                let ghost mapped = parts@.map_values(|p: String| p@);
                assert(parts@.push(cur).map_values(|p: String| p@) =~= mapped.push(cur@));
                assert(mapped + (seq![cur@] + split_from(s@, i + 1, i + 1)) =~= mapped.push(cur@)
                    + split_from(s@, i + 1, i + 1));
            }
            parts.push(cur);
            cur = String::new();
        } else {
            proof {
                assert(s@.subrange(start, i + 1) =~= s@.subrange(start, i as int).push(
                    s@[i as int],
                ));
            }
            string_push_char(&mut cur, c);
        }
        i += 1;
    }
    proof {
        let ghost start = i - cur@.len();
        assert(split_from(s@, i as int, start) == seq![s@.subrange(start, s@.len() as int)]);
        assert(s@.subrange(start, s@.len() as int) == cur@);
        let ghost mapped = parts@.map_values(|p: String| p@);
        assert(parts@.push(cur).map_values(|p: String| p@) =~= mapped.push(cur@));
        assert(mapped + seq![cur@] =~= mapped.push(cur@));
    }
    parts.push(cur);
    parts
}

pub open spec fn is_digit(c: char) -> bool {
    48 <= c as u32 <= 57
}

pub open spec fn digit_val(c: char) -> int {
    c as u32 - 48
}

pub open spec fn all_digits(s: Seq<char>) -> bool {
    s.len() > 0 && forall|i: int| 0 <= i < s.len() ==> is_digit(#[trigger] s[i])
}

/// The number a digit string writes.
pub open spec fn dec_val(s: Seq<char>) -> int
    decreases s.len(),
{
    if s.len() == 0 {
        0
    } else {
        dec_val(s.drop_last()) * 10 + digit_val(s.last())
    }
}

pub open spec fn is_hex_digit(c: char) -> bool {
    ||| 48 <= c as u32 <= 57
    ||| 97 <= c as u32 <= 102
    ||| 65 <= c as u32 <= 70
}

pub open spec fn hex_digit_val(c: char) -> int {
    if 48 <= c as u32 <= 57 {
        c as u32 - 48
    } else if 97 <= c as u32 <= 102 {
        c as u32 - 87
    } else {
        c as u32 - 55
    }
}

pub open spec fn all_hex_digits(s: Seq<char>) -> bool {
    s.len() > 0 && forall|i: int| 0 <= i < s.len() ==> is_hex_digit(#[trigger] s[i])
}

/// The number a hexadecimal digit string writes.
pub open spec fn hex_val(s: Seq<char>) -> int
    decreases s.len(),
{
    if s.len() == 0 {
        0
    } else {
        hex_val(s.drop_last()) * 16 + hex_digit_val(s.last())
    }
}

proof fn lemma_dec_val_nonneg(s: Seq<char>)
    requires
        forall|i: int| 0 <= i < s.len() ==> is_digit(#[trigger] s[i]),
    ensures
        dec_val(s) >= 0,
    decreases s.len(),
{
    if s.len() > 0 {
        lemma_dec_val_nonneg(s.drop_last());
    }
}

proof fn lemma_dec_val_prefix(s: Seq<char>, k: int)
    requires
        0 <= k <= s.len(),
        forall|i: int| 0 <= i < s.len() ==> is_digit(#[trigger] s[i]),
    ensures
        dec_val(s.take(k)) <= dec_val(s),
    decreases s.len() - k,
{
    if k < s.len() {
        assert(s.take(k + 1).drop_last() =~= s.take(k));
        lemma_dec_val_nonneg(s.take(k));
        lemma_dec_val_prefix(s, k + 1);
    } else {
        assert(s.take(k) =~= s);
    }
}

proof fn lemma_hex_val_nonneg(s: Seq<char>)
    requires
        forall|i: int| 0 <= i < s.len() ==> is_hex_digit(#[trigger] s[i]),
    ensures
        hex_val(s) >= 0,
    decreases s.len(),
{
    if s.len() > 0 {
        lemma_hex_val_nonneg(s.drop_last());
    }
}

proof fn lemma_hex_val_prefix(s: Seq<char>, k: int)
    requires
        0 <= k <= s.len(),
        forall|i: int| 0 <= i < s.len() ==> is_hex_digit(#[trigger] s[i]),
    ensures
        hex_val(s.take(k)) <= hex_val(s),
    decreases s.len() - k,
{
    if k < s.len() {
        assert(s.take(k + 1).drop_last() =~= s.take(k));
        lemma_hex_val_nonneg(s.take(k));
        lemma_hex_val_prefix(s, k + 1);
    } else {
        assert(s.take(k) =~= s);
    }
}

/// Reads an unsigned decimal number; anything else, or a value out of
/// range, is refused.
pub fn parse_u64_dec(s: &str) -> (r: Option<u64>)
    ensures
        r == if all_digits(s@) && dec_val(s@) <= u64::MAX {
            Some(dec_val(s@) as u64)
        } else {
            None::<u64>
        },
{
    let len = s.unicode_len();
    if len == 0 {
        return None;
    }
    let mut acc: u64 = 0;
    let mut i: usize = 0;
    while i < len
        invariant
            i <= len,
            len == s@.len(),
            forall|j: int| 0 <= j < i ==> is_digit(#[trigger] s@[j]),
            acc as int == dec_val(s@.take(i as int)),
        decreases len - i,
    {
        let c = s.get_char(i);
        let cu = c as u32;
        if cu < 48 || cu > 57 {
            return None;
        }
        proof {
            assert(s@.take(i + 1).drop_last() =~= s@.take(i as int));
            assert(s@.take(i + 1).last() == s@[i as int]);
        }
        let d = (cu - 48) as u64;
        let next: u128 = acc as u128 * 10 + d as u128;
        if next > u64::MAX as u128 {
            proof {
                if all_digits(s@) {
                    lemma_dec_val_prefix(s@, i + 1);
                }
            }
            return None;
        }
        acc = next as u64;
        i += 1;
    }
    proof {
        assert(s@.take(len as int) =~= s@);
    }
    Some(acc)
}

/// Reads an unsigned hexadecimal number, without a prefix.
pub fn parse_u64_hex(s: &str) -> (r: Option<u64>)
    ensures
        r == if all_hex_digits(s@) && hex_val(s@) <= u64::MAX {
            Some(hex_val(s@) as u64)
        } else {
            None::<u64>
        },
{
    let len = s.unicode_len();
    if len == 0 {
        return None;
    }
    let mut acc: u64 = 0;
    let mut i: usize = 0;
    while i < len
        invariant
            i <= len,
            len == s@.len(),
            forall|j: int| 0 <= j < i ==> is_hex_digit(#[trigger] s@[j]),
            acc as int == hex_val(s@.take(i as int)),
        decreases len - i,
    {
        let c = s.get_char(i);
        let cu = c as u32;
        let d: u64 = if cu >= 48 && cu <= 57 {
            (cu - 48) as u64
        } else if cu >= 97 && cu <= 102 {
            (cu - 87) as u64
        } else if cu >= 65 && cu <= 70 {
            (cu - 55) as u64
        } else {
            return None;
        };
        proof {
            assert(s@.take(i + 1).drop_last() =~= s@.take(i as int));
            assert(s@.take(i + 1).last() == s@[i as int]);
        }
        let next: u128 = acc as u128 * 16 + d as u128;
        if next > u64::MAX as u128 {
            proof {
                if all_hex_digits(s@) {
                    lemma_hex_val_prefix(s@, i + 1);
                }
            }
            return None;
        }
        acc = next as u64;
        i += 1;
    }
    proof {
        assert(s@.take(len as int) =~= s@);
    }
    Some(acc)
}

/// What a GUID field means: hexadecimal behind a `0x` or `0X` prefix,
/// decimal otherwise.
pub open spec fn spec_parse_guid(t: Seq<char>) -> Option<u64> {
    if t.len() >= 2 && t[0] == '0' && (t[1] == 'x' || t[1] == 'X') {
        let h = t.skip(2);
        if all_hex_digits(h) && hex_val(h) <= u64::MAX {
            Some(hex_val(h) as u64)
        } else {
            None
        }
    } else {
        if all_digits(t) && dec_val(t) <= u64::MAX {
            Some(dec_val(t) as u64)
        } else {
            None
        }
    }
}

fn parse_guid(t: &str) -> (r: Option<u64>)
    ensures
        r == spec_parse_guid(t@),
{
    let len = t.unicode_len();
    if len >= 2 && t.get_char(0) == '0' && (t.get_char(1) == 'x' || t.get_char(1) == 'X') {
        let rest = t.substring_char(2, len);
        proof {
            assert(rest@ =~= t@.skip(2));
        }
        parse_u64_hex(rest)
    } else {
        parse_u64_dec(t)
    }
}

/// What a port-number field means: an optionally signed decimal number
/// in range.
pub open spec fn spec_parse_i32(s: Seq<char>) -> Option<i32> {
    let neg = s.len() > 0 && s[0] == '-';
    let body = if s.len() > 0 && (s[0] == '-' || s[0] == '+') {
        s.drop_first()
    } else {
        s
    };
    if all_digits(body) {
        if neg {
            if dec_val(body) <= 0x8000_0000 {
                Some((-dec_val(body)) as i32)
            } else {
                None
            }
        } else {
            if dec_val(body) <= i32::MAX {
                Some(dec_val(body) as i32)
            } else {
                None
            }
        }
    } else {
        None
    }
}

fn parse_i32(s: &str) -> (r: Option<i32>)
    ensures
        r == spec_parse_i32(s@),
{
    let len = s.unicode_len();
    let signed = len > 0 && (s.get_char(0) == '-' || s.get_char(0) == '+');
    let neg = len > 0 && s.get_char(0) == '-';
    let body: &str = if signed {
        s.substring_char(1, len)
    } else {
        s
    };
    proof {
        if signed {
            assert(body@ =~= s@.drop_first());
        }
        assert(body@ == (if s@.len() > 0 && (s@[0] == '-' || s@[0] == '+') {
            s@.drop_first()
        } else {
            s@
        }));
        assert(neg == (s@.len() > 0 && s@[0] == '-'));
    }
    match parse_u64_dec(body) {
        Some(v) => {
            proof {
                assert(all_digits(body@));
                lemma_dec_val_nonneg(body@);
                assert(dec_val(body@) == v as int);
            }
            if neg {
                if v <= 0x8000_0000 {
                    let nv: i32 = if v == 0x8000_0000 {
                        i32::MIN
                    } else {
                        0 - (v as i32)
                    };
                    proof {
                        assert(nv as int == -(v as int));
                        assert(spec_parse_i32(s@) == Some((-dec_val(body@)) as i32));
                        assert(((-dec_val(body@)) as i32) as int == -(v as int));
                    }
                    Some(nv)
                } else {
                    proof {
                        assert(spec_parse_i32(s@) is None);
                    }
                    None
                }
            } else {
                if v <= i32::MAX as u64 {
                    Some(v as i32)
                } else {
                    None
                }
            }
        },
        None => {
            proof {
                assert(!(all_digits(body@) && dec_val(body@) <= u64::MAX));
                if all_digits(body@) {
                    if neg {
                        assert(!(dec_val(body@) <= 0x8000_0000));
                    } else {
                        assert(!(dec_val(body@) <= i32::MAX));
                    }
                }
                assert(spec_parse_i32(s@) is None);
            }
            None
        },
    }
}

/// What one scope line means: nothing for the blank or the malformed;
/// else the GUID, trimmed description, LID, port number, and trimmed
/// remote description (empty without a fifth field).
pub open spec fn spec_parse_record(line: Seq<char>) -> Option<(u64, Seq<char>, u16, i32, Seq<
    char,
>)> {
    if spec_trim(line).len() == 0 {
        None
    } else {
        let parts = spec_split_commas(line);
        if parts.len() != 4 && parts.len() != 5 {
            None
        } else {
            let guid_o = spec_parse_guid(spec_trim(parts[0]));
            let lid_ok = all_digits(spec_trim(parts[2])) && dec_val(spec_trim(parts[2]))
                <= u16::MAX;
            let port_o = spec_parse_i32(spec_trim(parts[3]));
            if guid_o is Some && lid_ok && port_o is Some {
                Some(
                    (
                        guid_o->Some_0,
                        spec_trim(parts[1]),
                        dec_val(spec_trim(parts[2])) as u16,
                        port_o->Some_0,
                        if parts.len() == 5 {
                            spec_trim(parts[4])
                        } else {
                            Seq::empty()
                        },
                    ),
                )
            } else {
                None
            }
        }
    }
}

/// Reads one scope line.
pub fn parse_scope_record(line: &str) -> (r: Option<(u64, String, u16, i32, String)>)
    ensures
        match r {
            Some(rec) => spec_parse_record(line@) == Some(
                (rec.0, rec.1@, rec.2, rec.3, rec.4@),
            ),
            None => spec_parse_record(line@) is None,
        },
{
    let trimmed = trim_str(line);
    if trimmed.as_str().unicode_len() == 0 {
        return None;
    }
    let parts = split_commas(line);
    proof {
        let sparts = spec_split_commas(line@);
        assert(parts@.len() == sparts.len());
        assert forall|k: int| 0 <= k < parts@.len() implies #[trigger] sparts[k]
            == parts@[k]@ by {
            assert(parts@.map_values(|p: String| p@)[k] == parts@[k]@);
        }
    }
    if parts.len() != 4 && parts.len() != 5 {
        return None;
    }
    let guid_field = trim_str(parts[0].as_str());
    let guid = match parse_guid(guid_field.as_str()) {
        Some(g) => g,
        None => {
            return None;
        },
    };
    let lid_field = trim_str(parts[2].as_str());
    let lid = match parse_u64_dec(lid_field.as_str()) {
        Some(v) => {
            proof {
                assert(all_digits(lid_field@));
                lemma_dec_val_nonneg(lid_field@);
                assert(dec_val(lid_field@) == v as int);
            }
            if v <= u16::MAX as u64 {
                v as u16
            } else {
                return None;
            }
        },
        None => {
            return None;
        },
    };
    let port_field = trim_str(parts[3].as_str());
    let port = match parse_i32(port_field.as_str()) {
        Some(p) => p,
        None => {
            return None;
        },
    };
    let description = trim_str(parts[1].as_str());
    let remote = if parts.len() == 5 {
        trim_str(parts[4].as_str())
    } else {
        String::new()
    };
    Some((guid, description, lid, port, remote))
}

/// A node reduced to plain values: GUID, label, LID, and the ports as
/// number-label pairs.
pub open spec fn abs_of_node(n: Node) -> (u64, Seq<char>, u16, Seq<(i32, Seq<char>)>) {
    (
        n.guid,
        n.node_description@,
        n.lid,
        n.ports@.map_values(|p: Port| (p.number, p.remote_node_description@)),
    )
}

/// Folds one parsed record into the accumulated nodes: a known GUID gains
/// the port, a new GUID starts a node.
pub open spec fn spec_add_record(
    acc: Seq<(u64, Seq<char>, u16, Seq<(i32, Seq<char>)>)>,
    rec: (u64, Seq<char>, u16, i32, Seq<char>),
) -> Seq<(u64, Seq<char>, u16, Seq<(i32, Seq<char>)>)> {
    let gi = abs_guid_idx(acc, rec.0);
    if gi >= 0 {
        acc.update(gi, (acc[gi].0, acc[gi].1, acc[gi].2, acc[gi].3.push((rec.3, rec.4))))
    } else {
        acc.push((rec.0, rec.1, rec.2, seq![(rec.3, rec.4)]))
    }
}

/// The first position holding the GUID, or -1.
pub open spec fn abs_guid_idx(
    acc: Seq<(u64, Seq<char>, u16, Seq<(i32, Seq<char>)>)>,
    guid: u64,
) -> int
    decreases acc.len(),
{
    if acc.len() == 0 {
        -1
    } else {
        let r = abs_guid_idx(acc.drop_last(), guid);
        if r >= 0 {
            r
        } else if acc.last().0 == guid {
            acc.len() - 1
        } else {
            -1
        }
    }
}

proof fn lemma_abs_idx_matches(nodes: Seq<Node>, guid: u64)
    ensures
        abs_guid_idx(nodes.map_values(|n: Node| abs_of_node(n)), guid) == first_guid_idx(
            nodes,
            guid,
        ),
    decreases nodes.len(),
{
    if nodes.len() > 0 {
        assert(nodes.map_values(|n: Node| abs_of_node(n)).drop_last()
            =~= nodes.drop_last().map_values(|n: Node| abs_of_node(n)));
        lemma_abs_idx_matches(nodes.drop_last(), guid);
    }
}

/// What the whole file means: the nodes accumulated over every line after
/// the header, malformed and blank lines skipped.
pub open spec fn spec_scope_nodes(lines: Seq<Seq<char>>) -> Seq<
    (u64, Seq<char>, u16, Seq<(i32, Seq<char>)>),
>
    decreases lines.len(),
{
    if lines.len() <= 1 {
        Seq::empty()
    } else {
        let prev = spec_scope_nodes(lines.drop_last());
        match spec_parse_record(lines.last()) {
            Some(r) => spec_add_record(prev, r),
            None => prev,
        }
    }
}

/// Builds the node set a scope file describes, one line per record, the
/// first line ignored as a header.
pub fn parse_scope_lines(lines: &Vec<String>) -> (nodes: Vec<Node>)
    ensures
        nodes@.map_values(|n: Node| abs_of_node(n)) == spec_scope_nodes(
            lines@.map_values(|l: String| l@),
        ),
{
    let mut nodes: Vec<Node> = Vec::new();
    let n = lines.len();
    let mut i: usize = 1;
    proof {
        let mapped = lines@.map_values(|l: String| l@);
        assert(nodes@.map_values(|nd: Node| abs_of_node(nd)) =~= Seq::<
            (u64, Seq<char>, u16, Seq<(i32, Seq<char>)>),
        >::empty());
        if n >= 1 {
            assert(mapped.take(1).len() <= 1);
        }
    }
    if n <= 1 {
        proof {
            let mapped = lines@.map_values(|l: String| l@);
            assert(mapped.len() <= 1);
        }
        return nodes;
    }
    while i < n
        invariant
            1 <= i <= n,
            n == lines@.len(),
            nodes@.map_values(|nd: Node| abs_of_node(nd)) == spec_scope_nodes(
                lines@.map_values(|l: String| l@).take(i as int),
            ),
        decreases n - i,
    {
        proof {
            let mapped = lines@.map_values(|l: String| l@);
            assert(mapped.take(i + 1).drop_last() =~= mapped.take(i as int));
            assert(mapped.take(i + 1).last() == lines@[i as int]@);
        }
        match parse_scope_record(lines[i].as_str()) {
            Some(rec) => {
                add_scope_record(&mut nodes, rec);
            },
            None => {},
        }
        i += 1;
    }
    proof {
        let mapped = lines@.map_values(|l: String| l@);
        assert(mapped.take(n as int) =~= mapped);
    }
    nodes
}

/// The position of the node carrying the GUID, first match winning.
fn find_guid_index(nodes: &Vec<Node>, guid: u64) -> (r: Option<usize>)
    ensures
        match r {
            Some(j) => j < nodes@.len() && first_guid_idx(nodes@, guid) == j,
            None => first_guid_idx(nodes@, guid) == -1,
        },
{
    let n = nodes.len();
    let mut j: usize = 0;
    while j < n
        invariant
            j <= n,
            n == nodes@.len(),
            first_guid_idx(nodes@.take(j as int), guid) == -1,
        decreases n - j,
    {
        proof {
            assert(nodes@.take(j + 1).drop_last() =~= nodes@.take(j as int));
            assert(nodes@.take(j + 1).last() == nodes@[j as int]);
        }
        if nodes[j].guid == guid {
            proof {
                assert(first_guid_idx(nodes@.take(j + 1), guid) == j);
                lemma_first_guid_idx_extend(nodes@, guid, j + 1);
            }
            return Some(j);
        }
        j += 1;
    }
    proof {
        assert(nodes@.take(n as int) =~= nodes@);
    }
    None
}

/// Folds one record in, as `spec_add_record` says.
fn add_scope_record(nodes: &mut Vec<Node>, rec: (u64, String, u16, i32, String))
    ensures
        final(nodes)@.map_values(|nd: Node| abs_of_node(nd)) == spec_add_record(
            old(nodes)@.map_values(|nd: Node| abs_of_node(nd)),
            (rec.0, rec.1@, rec.2, rec.3, rec.4@),
        ),
{
    let ghost abs_rec = (rec.0, rec.1@, rec.2, rec.3, rec.4@);
    let ghost abs_prev = old(nodes)@.map_values(|nd: Node| abs_of_node(nd));
    let (guid, description, lid, port_number, remote) = rec;
    let port = Port { number: port_number, remote_node_description: remote };
    proof {
        lemma_abs_idx_matches(old(nodes)@, guid);
    }
    match find_guid_index(nodes, guid) {
        Some(j) => {
            let mut node = nodes.remove(j);
            node.ports.push(port);
            nodes.insert(j, node);
            proof {
                assert(nodes@ =~= old(nodes)@.update(j as int, nodes@[j as int]));
                assert(nodes@[j as int].guid == old(nodes)@[j as int].guid);
                assert(nodes@[j as int].node_description == old(nodes)@[
                    j as int
                ].node_description);
                assert(nodes@[j as int].lid == old(nodes)@[j as int].lid);
                assert(nodes@[j as int].ports@.last().number == abs_rec.3
                    && nodes@[j as int].ports@.last().remote_node_description@ == abs_rec.4);
                assert(nodes@[j as int].ports@ =~= old(nodes)@[j as int].ports@.push(
                    nodes@[j as int].ports@.last(),
                ));
                assert(nodes@[j as int].ports@.map_values(
                    |p: Port| (p.number, p.remote_node_description@),
                ) =~= old(nodes)@[j as int].ports@.map_values(
                    |p: Port| (p.number, p.remote_node_description@),
                ).push((abs_rec.3, abs_rec.4)));
                assert(nodes@.map_values(|nd: Node| abs_of_node(nd)) =~= spec_add_record(
                    abs_prev,
                    abs_rec,
                ));
            }
        },
        None => {
            let mut ports: Vec<Port> = Vec::new();
            ports.push(port);
            nodes.push(Node { guid, node_description: description, ports, lid });
            proof {
                assert(nodes@.last().ports@.map_values(
                    |p: Port| (p.number, p.remote_node_description@),
                ) =~= seq![(abs_rec.3, abs_rec.4)]);
                assert(nodes@.map_values(|nd: Node| abs_of_node(nd)) =~= spec_add_record(
                    abs_prev,
                    abs_rec,
                ));
            }
        },
    }
}

} // verus!
