//! Verified text utilities: character-wise equality and lexicographic order
//! on strings, and width-limited truncation for table cells.

use vstd::prelude::*;

verus! {

/// Lexicographic order on character sequences by code point, shorter
/// prefixes first.
pub open spec fn lex_le(a: Seq<char>, b: Seq<char>) -> bool
    decreases a.len(),
{
    if a.len() == 0 {
        true
    } else if b.len() == 0 {
        false
    } else if (a[0] as u32) < (b[0] as u32) {
        true
    } else if (a[0] as u32) > (b[0] as u32) {
        false
    } else {
        lex_le(a.drop_first(), b.drop_first())
    }
}

/// Any two strings are ordered one way or the other.
pub proof fn lemma_lex_le_total(a: Seq<char>, b: Seq<char>)
    ensures
        lex_le(a, b) || lex_le(b, a),
    decreases a.len(),
{
    if a.len() > 0 && b.len() > 0 && (a[0] as u32) == (b[0] as u32) {
        lemma_lex_le_total(a.drop_first(), b.drop_first());
    }
}

/// Lexicographic order is transitive.
pub proof fn lemma_lex_le_trans(a: Seq<char>, b: Seq<char>, c: Seq<char>)
    requires
        lex_le(a, b),
        lex_le(b, c),
    ensures
        lex_le(a, c),
    decreases a.len(),
{
    if a.len() > 0 && b.len() > 0 && c.len() > 0 {
        if (a[0] as u32) == (b[0] as u32) && (b[0] as u32) == (c[0] as u32) {
            lemma_lex_le_trans(a.drop_first(), b.drop_first(), c.drop_first());
        }
    }
}

/// Character-wise string equality.
pub fn str_eq(a: &str, b: &str) -> (r: bool)
    ensures
        r == (a@ == b@),
{
    let alen = a.unicode_len();
    let blen = b.unicode_len();
    if alen != blen {
        return false;
    }
    let mut i: usize = 0;
    while i < alen
        invariant
            alen == a@.len(),
            alen == b@.len(),
            i <= alen,
            forall|j: int| 0 <= j < i ==> a@[j] == b@[j],
        decreases alen - i,
    {
        if a.get_char(i) != b.get_char(i) {
            return false;
        }
        i += 1;
    }
    proof {
        assert(a@ =~= b@);
    }
    true
}

/// Character-wise lexicographic comparison.
pub fn str_le(a: &str, b: &str) -> (r: bool)
    ensures
        r == lex_le(a@, b@),
{
    let alen = a.unicode_len();
    let blen = b.unicode_len();
    let mut i: usize = 0;
    proof {
        assert(a@.skip(0) =~= a@);
        assert(b@.skip(0) =~= b@);
    }
    loop
        invariant
            alen == a@.len(),
            blen == b@.len(),
            i <= alen,
            i <= blen,
            lex_le(a@, b@) == lex_le(a@.skip(i as int), b@.skip(i as int)),
        decreases alen - i,
    {
        if i >= alen {
            proof {
                assert(a@.skip(i as int).len() == 0);
            }
            return true;
        }
        if i >= blen {
            proof {
                assert(b@.skip(i as int).len() == 0);
                assert(a@.skip(i as int).len() > 0);
            }
            return false;
        }
        let ca = a.get_char(i);
        let cb = b.get_char(i);
        proof {
            assert(a@.skip(i as int)[0] == a@[i as int]);
            assert(b@.skip(i as int)[0] == b@[i as int]);
        }
        if (ca as u32) < (cb as u32) {
            return true;
        }
        if (ca as u32) > (cb as u32) {
            return false;
        }
        proof {
            assert(a@.skip(i as int).drop_first() =~= a@.skip(i + 1));
            assert(b@.skip(i as int).drop_first() =~= b@.skip(i + 1));
        }
        i += 1;
    }
}

/// What `truncate_fit` returns: the string unchanged when it fits, else its
/// first `max_width - 1` characters followed by an ellipsis.
pub open spec fn spec_truncate_fit(s: Seq<char>, max_width: int) -> Seq<char> {
    if s.len() > max_width {
        s.subrange(0, if max_width > 0 { max_width - 1 } else { 0 }) + "\u{2026}"@
    } else {
        s
    }
}

/// Shortens a string to at most `max_width` characters, marking the cut
/// with an ellipsis.
pub fn truncate_fit(s: &str, max_width: usize) -> (r: String)
    ensures
        r@ == spec_truncate_fit(s@, max_width as int),
{
    let len = s.unicode_len();
    if len > max_width {
        let keep: usize = if max_width > 0 {
            max_width - 1
        } else {
            0
        };
        let prefix = s.substring_char(0, keep);
        let mut out = prefix.to_owned();
        out.append("\u{2026}");
        out
    } else {
        s.to_owned()
    }
}


/// Relies on String::push: appends one character at the end.
#[verifier::external_body]
pub(crate) fn string_push_char(s: &mut String, c: char)
    ensures
        final(s)@ == old(s)@.push(c),
{
    s.push(c);
}

/// Relies on String::pop: removes and returns the last character, if any.
#[verifier::external_body]
pub(crate) fn string_pop_char(s: &mut String) -> (r: Option<char>)
    ensures
        old(s)@.len() == 0 ==> final(s)@ == old(s)@ && r is None,
        old(s)@.len() > 0 ==> final(s)@ == old(s)@.drop_last() && r == Some(old(s)@.last()),
{
    s.pop()
}

/// The character of one decimal digit.
pub open spec fn digit_char(d: int) -> char
    recommends
        0 <= d < 10,
{
    ((48 + d) as u8) as char
}

/// The decimal digits of a number, most significant first.
pub open spec fn spec_dec_digits(n: int) -> Seq<char>
    recommends
        n >= 0,
    decreases n,
{
    if n < 10 {
        seq![digit_char(n)]
    } else {
        spec_dec_digits(n / 10).push(digit_char(n % 10))
    }
}

/// Writes a number in decimal.
#[verifier::rlimit(60)]
pub fn u64_to_string(n: u64) -> (r: String)
    ensures
        r@ == spec_dec_digits(n as int),
{
    let mut out = String::new();
    if n == 0 {
        string_push_char(&mut out, '0');
        proof {
            assert(digit_char(0) == '0');
            assert(out@ =~= spec_dec_digits(0));
        }
        return out;
    }
    let mut digits: Vec<char> = Vec::new();
    let mut m: u64 = n;
    proof {
        assert(spec_dec_digits(n as int) =~= spec_dec_digits(n as int) + digits@.reverse());
    }
    while m > 0
        invariant
            spec_dec_digits(n as int) =~= (if m > 0 {
                spec_dec_digits(m as int)
            } else {
                Seq::<char>::empty()
            }) + digits@.reverse(),
        decreases m,
    {
        let d: char = ((m % 10) as u8 + 48) as char;
        proof {
            assert(d == digit_char(m as int % 10));
            assert(digits@.push(d).reverse() =~= seq![d] + digits@.reverse());
            if m >= 10 {
                assert(spec_dec_digits(m as int) == spec_dec_digits(m as int / 10).push(
                    digit_char(m as int % 10),
                ));
                assert(spec_dec_digits(m as int / 10).push(d) =~= spec_dec_digits(m as int / 10)
                    + seq![d]);
            } else {
                assert(spec_dec_digits(m as int) =~= seq![d]);
            }
        }
        digits.push(d);
        m = m / 10;
    }
    let mut i: usize = digits.len();
    while i > 0
        invariant
            i <= digits@.len(),
            out@ =~= digits@.skip(i as int).reverse(),
        decreases i,
    {
        i -= 1;
        string_push_char(&mut out, digits[i]);
        proof {
            assert(out@ =~= digits@.skip(i as int).reverse());
        }
    }
    proof {
        assert(digits@.skip(0) =~= digits@);
    }
    out
}


/// Whitespace stripped from field edges.
pub open spec fn is_space(c: char) -> bool {
    c == ' ' || c == '\t' || c == '\r' || c == '\n'
}

pub open spec fn trim_front(s: Seq<char>) -> Seq<char>
    decreases s.len(),
{
    if s.len() > 0 && is_space(s[0]) {
        trim_front(s.drop_first())
    } else {
        s
    }
}

pub open spec fn trim_back(s: Seq<char>) -> Seq<char>
    decreases s.len(),
{
    if s.len() > 0 && is_space(s.last()) {
        trim_back(s.drop_last())
    } else {
        s
    }
}

/// The string with its leading and trailing whitespace removed.
pub open spec fn spec_trim(s: Seq<char>) -> Seq<char> {
    trim_back(trim_front(s))
}

fn is_space_char(c: char) -> (r: bool)
    ensures
        r == is_space(c),
{
    c == ' ' || c == '\t' || c == '\r' || c == '\n'
}

/// Strips leading and trailing whitespace.
pub fn trim_str(s: &str) -> (r: String)
    ensures
        r@ == spec_trim(s@),
{
    let len = s.unicode_len();
    let mut start: usize = 0;
    proof {
        assert(s@.skip(0) =~= s@);
    }
    while start < len && is_space_char(s.get_char(start))
        invariant
            start <= len,
            len == s@.len(),
            trim_front(s@) == trim_front(s@.skip(start as int)),
        decreases len - start,
    {
        proof {
            assert(s@.skip(start as int)[0] == s@[start as int]);
            assert(s@.skip(start as int).drop_first() =~= s@.skip(start + 1));
        }
        start += 1;
    }
    proof {
        if start < len {
            assert(s@.skip(start as int)[0] == s@[start as int]);
        }
        assert(trim_front(s@) == s@.skip(start as int));
    }
    let ghost t = s@.skip(start as int);
    let mut end: usize = len;
    proof {
        assert(t.take(t.len() as int) =~= t);
        assert(s@.subrange(start as int, end as int) =~= t);
    }
    while end > start && is_space_char(s.get_char(end - 1))
        invariant
            start <= end <= len,
            len == s@.len(),
            t == s@.skip(start as int),
            trim_back(t) == trim_back(s@.subrange(start as int, end as int)),
        decreases end,
    {
        proof {
            let cur = s@.subrange(start as int, end as int);
            assert(cur.last() == s@[end - 1]);
            assert(cur.drop_last() =~= s@.subrange(start as int, end - 1));
        }
        end -= 1;
    }
    proof {
        let cur = s@.subrange(start as int, end as int);
        if end > start {
            assert(cur.last() == s@[end - 1]);
        }
        assert(trim_back(t) == cur);
    }
    let piece = s.substring_char(start, end);
    proof {
        assert(piece@ =~= s@.subrange(start as int, end as int));
    }
    piece.to_owned()
}

} // verus!
