//! Dotted-decimal IPv4 addresses, read as `Ipv4Addr::from_str` reads them.
use crate::text::{all_digits, chars_of, decimal_value, is_digit};
use vstd::prelude::*;

verus! {

/// The dot-separated parts of a text (a text without dots is one part; each
/// dot starts a new, possibly empty, part).
pub open spec fn split_dots(s: Seq<char>) -> Seq<Seq<char>>
    decreases s.len(),
{
    if s.len() == 0 {
        seq![Seq::<char>::empty()]
    } else {
        let r = split_dots(s.drop_last());
        if s.last() == '.' {
            r.push(Seq::<char>::empty())
        } else {
            r.update(r.len() - 1, r.last().push(s.last()))
        }
    }
}

/// One octet of an address: one to three decimal digits, no leading zero
/// unless the octet is `0`, and a value of at most 255.
pub open spec fn octet_ok(p: Seq<char>) -> bool {
    &&& 1 <= p.len() <= 3
    &&& all_digits(p)
    &&& (p.len() == 1 || p[0] != '0')
    &&& decimal_value(p) <= 255
}

/// The four octets of a dotted-decimal IPv4 address, or `None` when the text is
/// not exactly four valid octets separated by dots.
pub open spec fn ipv4_of_text(s: Seq<char>) -> Option<Seq<u8>> {
    let p = split_dots(s);
    if p.len() == 4 && octet_ok(p[0]) && octet_ok(p[1]) && octet_ok(p[2]) && octet_ok(p[3]) {
        Some(
            seq![
                decimal_value(p[0]) as u8,
                decimal_value(p[1]) as u8,
                decimal_value(p[2]) as u8,
                decimal_value(p[3]) as u8,
            ],
        )
    } else {
        None
    }
}

/// The dot-separated parts of a text.
fn split_parts(c: &Vec<char>) -> (r: Vec<Vec<char>>)
    ensures
        r@.len() == split_dots(c@).len(),
        forall|i: int| 0 <= i < r@.len() ==> (#[trigger] r@[i])@ == split_dots(c@)[i],
{
    let mut parts: Vec<Vec<char>> = Vec::new();
    let mut cur: Vec<char> = Vec::new();
    let n = c.len();
    let mut i: usize = 0;
    proof {
        assert(c@.subrange(0, 0) =~= Seq::<char>::empty());
    }
    while i < n
        invariant
            n == c@.len(),
            i <= n,
            split_dots(c@.subrange(0, i as int)).len() == parts@.len() + 1,
            forall|k: int|
                0 <= k < parts@.len() ==> (#[trigger] parts@[k])@ == split_dots(
                    c@.subrange(0, i as int),
                )[k],
            cur@ == split_dots(c@.subrange(0, i as int)).last(),
        decreases n - i,
    {
        let ghost before = c@.subrange(0, i as int);
        let ghost after = c@.subrange(0, i + 1);
        assert(after.drop_last() =~= before);
        let ch = c[i];
        if ch == '.' {
            let done = cur;
            parts.push(done);
            cur = Vec::new();
        } else {
            cur.push(ch);
        }
        i = i + 1;
        proof {
            assert(after.last() == ch);
        }
    }
    assert(c@.subrange(0, n as int) =~= c@);
    parts.push(cur);
    parts
}

/// The value of one octet, when it is valid.
fn octet_value(p: &Vec<char>) -> (r: Option<u8>)
    ensures
        match r {
            Some(v) => octet_ok(p@) && v == decimal_value(p@),
            None => !octet_ok(p@),
        },
{
    let n = p.len();
    if n == 0 || n > 3 {
        return None;
    }
    if n > 1 && p[0] == '0' {
        return None;
    }
    let mut value: u32 = 0;
    let mut i: usize = 0;
    while i < n
        invariant
            n == p@.len(),
            1 <= n <= 3,
            i <= n,
            all_digits(p@.subrange(0, i as int)),
            value as nat == decimal_value(p@.subrange(0, i as int)),
            value < 1000,
            i == 0 ==> value == 0,
            i == 1 ==> value < 10,
            i == 2 ==> value < 100,
        decreases n - i,
    {
        let ch = p[i];
        if !('0' <= ch && ch <= '9') {
            assert(!is_digit(p@[i as int]));
            return None;
        }
        let ghost pre = p@.subrange(0, i + 1);
        assert(pre.drop_last() =~= p@.subrange(0, i as int));
        value = value * 10 + ((ch as u32) - ('0' as u32));
        i = i + 1;
    }
    assert(p@.subrange(0, n as int) =~= p@);
    if value > 255 {
        return None;
    }
    Some(value as u8)
}

/// Reads a dotted-decimal IPv4 address into its four octets.
pub fn parse_ipv4(s: &str) -> (r: Option<[u8; 4]>)
    ensures
        match r {
            Some(a) => ipv4_of_text(s@) == Some(a@),
            None => ipv4_of_text(s@) is None,
        },
{
    let c = chars_of(s);
    let parts = split_parts(&c);
    if parts.len() != 4 {
        return None;
    }
    let a = octet_value(&parts[0]);
    let b = octet_value(&parts[1]);
    let d = octet_value(&parts[2]);
    let e = octet_value(&parts[3]);
    match (a, b, d, e) {
        (Some(a), Some(b), Some(d), Some(e)) => {
            let r = [a, b, d, e];
            assert(r@ =~= ipv4_of_text(s@).unwrap());
            Some(r)
        },
        _ => None,
    }
}

} // verus!
