//! Domain names, record types, and the keys under which answers are stored.
//!
//! An answer for a name and a record type is stored under the UTF-8 bytes of
//! `"<name>:<TYPE>"`, where `<name>` is the name in presentation form (labels
//! joined by dots, with a final dot for a fully qualified name) and `<TYPE>` is
//! the record type's mnemonic.
use vstd::prelude::*;
use vstd::string::StrSliceExecFns;
use vstd::string::StringExecFns;

verus! {

/// Record type code of an IPv4 address record.
pub const TYPE_A: u16 = 1;

/// Record type code of a name server record.
pub const TYPE_NS: u16 = 2;

/// Record type code of an alias record.
pub const TYPE_CNAME: u16 = 5;

/// Record type code of a start-of-authority record.
pub const TYPE_SOA: u16 = 6;

/// Record type code of a reverse-lookup pointer record.
pub const TYPE_PTR: u16 = 12;

/// Record type code of an IPv6 address record.
pub const TYPE_AAAA: u16 = 28;

/// Record type code of an HTTPS service binding record.
pub const TYPE_HTTPS: u16 = 65;

/// A domain name: its labels, leftmost first, each in presentation form, and
/// whether it is fully qualified.
#[derive(Clone, Debug)]
pub struct DomainName {
    pub labels: Vec<String>,
    pub fqdn: bool,
}

/// The mathematical value of a domain name.
#[verifier::ext_equal]
pub struct DomainNameView {
    pub labels: Seq<Seq<char>>,
    pub fqdn: bool,
}

impl View for DomainName {
    type V = DomainNameView;

    open spec fn view(&self) -> DomainNameView {
        DomainNameView { labels: self.labels@.map_values(|l: String| l@), fqdn: self.fqdn }
    }
}

/// Labels joined by single dots.
pub open spec fn join_labels(labels: Seq<Seq<char>>) -> Seq<char>
    decreases labels.len(),
{
    if labels.len() == 0 {
        Seq::empty()
    } else if labels.len() == 1 {
        labels[0]
    } else {
        join_labels(labels.drop_last()) + seq!['.'] + labels.last()
    }
}

/// The presentation form of a name: its labels joined by dots, followed by a
/// dot when the name is fully qualified (so the root name reads ".").
pub open spec fn name_text(n: DomainNameView) -> Seq<char> {
    join_labels(n.labels) + if n.fqdn {
        seq!['.']
    } else {
        Seq::<char>::empty()
    }
}

/// The name with its `d` leftmost labels removed.
pub open spec fn ancestor(n: DomainNameView, d: int) -> DomainNameView {
    DomainNameView { labels: n.labels.skip(d), fqdn: n.fqdn }
}

/// The deepest ancestor that a lookup walks up to: it stops at the first name
/// that has at most one label.
pub open spec fn last_depth(n: DomainNameView) -> int {
    if n.labels.len() <= 1 {
        0
    } else {
        n.labels.len() - 1
    }
}

/// The mnemonic of a record type code, as `RecordType`'s `Display` writes it.
pub uninterp spec fn record_type_name(code: u16) -> Seq<char>;

/// Calls `RecordType::from(code).to_string()` from hickory-proto.
///
/// The contract names the result `record_type_name(code)`, and states the
/// mnemonics that hickory-proto's table gives for the codes this library
/// stores answers under or treats specially (A, NS, CNAME, SOA, PTR, AAAA,
/// HTTPS); the other entries of the table are
/// not restated.
#[verifier::external_body]
pub fn record_type_text(code: u16) -> (r: String)
    ensures
        r@ == record_type_name(code),
        code == TYPE_A ==> r@ == "A"@,
        code == TYPE_NS ==> r@ == "NS"@,
        code == TYPE_CNAME ==> r@ == "CNAME"@,
        code == TYPE_SOA ==> r@ == "SOA"@,
        code == TYPE_PTR ==> r@ == "PTR"@,
        code == TYPE_AAAA ==> r@ == "AAAA"@,
        code == TYPE_HTTPS ==> r@ == "HTTPS"@,
{
    hickory_proto::rr::RecordType::from(code).to_string()
}

/// The text of the key for a name and a record type.
pub open spec fn key_text(n: DomainNameView, code: u16) -> Seq<char> {
    name_text(n) + seq![':'] + record_type_name(code)
}

/// The key, in bytes, under which the answer for a name and a record type is
/// stored.
pub open spec fn store_key(n: DomainNameView, code: u16) -> Seq<u8> {
    vstd::utf8::encode_utf8(key_text(n, code))
}

/// The parsed form of a text, as hickory-proto's `Name::from_str` reads it.
pub uninterp spec fn parsed_name(text: Seq<char>) -> Option<DomainNameView>;

/// Calls `Name::from_str` from hickory-proto and turns the name into its
/// labels, each written by `Label`'s `Display`, and its fully-qualified flag.
///
/// The contract names the result `parsed_name(s)`: the same text always gives
/// the same name, and a failed parse gives `None`.
#[verifier::external_body]
pub fn parse_name(s: &str) -> (r: Option<DomainName>)
    ensures
        match r {
            Some(n) => parsed_name(s@) == Some(n@),
            None => parsed_name(s@) is None,
        },
{
    let name = <hickory_proto::rr::Name as std::str::FromStr>::from_str(s).ok()?;
    let mut labels = Vec::new();
    for raw in name.iter() {
        labels.push(hickory_proto::rr::domain::Label::from_raw_bytes(raw).ok()?.to_string());
    }
    Some(DomainName { labels, fqdn: name.is_fqdn() })
}

impl DomainName {
    /// The presentation form of the name.
    pub fn to_text(&self) -> (r: String)
        ensures
            r@ == name_text(self@),
    {
        proof {
            reveal_strlit(".");
        }
        let n = self.labels.len();
        let mut out = String::new();
        let mut i: usize = 0;
        while i < n
            invariant
                n == self.labels@.len(),
                i <= n,
                out@ == join_labels(self@.labels.take(i as int)),
                "."@ == seq!['.'],
            decreases n - i,
        {
            let ghost before = self@.labels.take(i as int);
            if i > 0 {
                out.append(".");
            }
            out.append(self.labels[i].as_str());
            proof {
                let after = self@.labels.take(i + 1);
                assert(after.drop_last() =~= before);
                assert(after.last() == self.labels@[i as int]@);
                if i == 0 {
                    assert(before.len() == 0);
                }
            }
            i = i + 1;
        }
        assert(self@.labels.take(n as int) =~= self@.labels);
        if self.fqdn {
            out.append(".");
        } else {
            assert(out@ =~= out@ + Seq::<char>::empty());
        }
        out
    }

    /// The name with its `d` leftmost labels removed (the original name when
    /// `d` is zero).
    pub fn ancestor(&self, d: usize) -> (r: DomainName)
        requires
            d <= self@.labels.len(),
        ensures
            r@ == ancestor(self@, d as int),
    {
        let n = self.labels.len();
        let mut labels: Vec<String> = Vec::new();
        let mut i: usize = d;
        while i < n
            invariant
                n == self.labels@.len(),
                d <= i <= n,
                labels@.map_values(|l: String| l@) == self@.labels.subrange(d as int, i as int),
            decreases n - i,
        {
            let ghost prev = labels@;
            let c = self.labels[i].clone();
            assert(c@ == self.labels@[i as int]@);
            labels.push(c);
            proof {
                assert(labels@ == prev.push(c));
                assert(prev.map_values(|l: String| l@) == self@.labels.subrange(d as int, i as int));
                assert(labels@.map_values(|l: String| l@).drop_last() =~= prev.map_values(|l: String| l@));
                assert(labels@.map_values(|l: String| l@) =~= self@.labels.subrange(
                    d as int,
                    i + 1,
                ));
            }
            i = i + 1;
        }
        let r = DomainName { labels, fqdn: self.fqdn };
        assert(r@.labels =~= self@.labels.skip(d as int));
        r
    }

    /// The number of labels of the name.
    pub fn label_count(&self) -> (r: usize)
        ensures
            r == self@.labels.len(),
    {
        self.labels.len()
    }
}

/// The key under which the answer for `name` and record type `code` is stored.
pub fn store_key_for(name: &DomainName, code: u16) -> (r: Vec<u8>)
    ensures
        r@ == store_key(name@, code),
{
    proof {
        reveal_strlit(":");
    }
    let mut text = name.to_text();
    text.append(":");
    let t = record_type_text(code);
    text.append(t.as_str());
    assert(text@ =~= key_text(name@, code));
    text.as_str().as_bytes_vec()
}

} // verus!
