//! The IPLD data model as a value of the crate's own, the DAG-CBOR framing
//! that is checked before a block is handed to the decoder, and the JSON text
//! of a value.
use crate::cid::Cid;
use crate::text::{int_text, int_to_string, push_char, str_eq, to_chars};
use libipld::prelude::Codec;
use vstd::prelude::*;

verus! {

/// One IPLD value. A map lists its entries in the order of their keys, each
/// key once. A float is held by its decimal text.
#[derive(Debug, PartialEq)]
pub enum Datum {
    Null,
    Bool(bool),
    Integer(i128),
    Float(String),
    Text(String),
    Bytes(Vec<u8>),
    List(Vec<Datum>),
    Object(Vec<(String, Datum)>),
    Link(Cid),
}

/// Deepest nesting of lists and maps that a block may have.
pub const MAX_DEPTH: usize = 64;

/// Number of bytes that hold the argument of a CBOR head whose low five bits
/// are `info`.
pub open spec fn arg_width(info: int) -> int {
    if info < 24 {
        0
    } else if info == 24 {
        1
    } else if info == 25 {
        2
    } else if info == 26 {
        4
    } else {
        8
    }
}

/// Big-endian value of the two bytes at `p`.
pub open spec fn be2(b: Seq<u8>, p: int) -> int {
    b[p] * 256 + b[p + 1]
}

/// Big-endian value of the four bytes at `p`.
pub open spec fn be4(b: Seq<u8>, p: int) -> int {
    be2(b, p) * 65536 + be2(b, p + 2)
}

/// Big-endian value of the eight bytes at `p`.
pub open spec fn be8(b: Seq<u8>, p: int) -> int {
    be4(b, p) * 4294967296 + be4(b, p + 4)
}

/// The argument of the CBOR head at `p`: the low five bits themselves, or the
/// big-endian number in the bytes that follow.
pub open spec fn head_arg(b: Seq<u8>, p: int) -> int {
    let info = b[p] % 32;
    if info < 24 {
        info as int
    } else if info == 24 {
        b[p + 1] as int
    } else if info == 25 {
        be2(b, p + 1)
    } else if info == 26 {
        be4(b, p + 1)
    } else {
        be8(b, p + 1)
    }
}

/// Where the DAG-CBOR item that starts at `p` ends, if one well-framed item
/// starts there: every length it declares fits in the bytes that remain, and
/// lists and maps nest at most `depth` deep. Indefinite lengths, which
/// DAG-CBOR does not have, are not accepted.
pub open spec fn item_end(b: Seq<u8>, p: int, depth: nat) -> Option<int>
    decreases depth, 0nat, 0nat,
{
    if p < 0 || p >= b.len() {
        None
    } else {
        let major = b[p] / 32;
        let info = b[p] % 32;
        let body = p + 1 + arg_width(info as int);
        if major == 7 {
            if b[p] == 0xf4 || b[p] == 0xf5 || b[p] == 0xf6 || b[p] == 0xf7 {
                Some(p + 1)
            } else if b[p] == 0xfa && p + 5 <= b.len() {
                Some(p + 5)
            } else if b[p] == 0xfb && p + 9 <= b.len() {
                Some(p + 9)
            } else {
                None
            }
        } else if major == 6 {
            if b[p] == 0xd8 && p + 4 <= b.len() && b[p + 1] == 42 && b[p + 2] == 0x58 && b[p + 3]
                >= 1 && p + 4 + b[p + 3] <= b.len() {
                Some(p + 4 + b[p + 3])
            } else {
                None
            }
        } else if info > 27 || body > b.len() {
            None
        } else if major == 0 || major == 1 {
            Some(body)
        } else if major == 2 || major == 3 {
            if head_arg(b, p) <= b.len() - body {
                Some(body + head_arg(b, p))
            } else {
                None
            }
        } else if depth == 0 {
            None
        } else if major == 4 {
            if head_arg(b, p) <= b.len() - body {
                items_end(b, body, head_arg(b, p) as nat, (depth - 1) as nat)
            } else {
                None
            }
        } else {
            if 2 * head_arg(b, p) <= b.len() - body {
                items_end(b, body, (2 * head_arg(b, p)) as nat, (depth - 1) as nat)
            } else {
                None
            }
        }
    }
}

/// Where `count` items in a row end that start at `p`.
pub open spec fn items_end(b: Seq<u8>, p: int, count: nat, depth: nat) -> Option<int>
    decreases depth, count, 1nat,
{
    if count == 0 {
        Some(p)
    } else {
        match item_end(b, p, depth) {
            Some(q) => items_end(b, q, (count - 1) as nat, depth),
            None => None,
        }
    }
}

/// An item ends after it starts and within the bytes.
pub proof fn lemma_item_end_bounds(b: Seq<u8>, p: int, depth: nat)
    ensures
        item_end(b, p, depth) matches Some(q) ==> p < q <= b.len(),
    decreases depth, 0nat, 0nat,
{
    if 0 <= p < b.len() {
        let major = b[p] / 32;
        let info = b[p] % 32;
        let body = p + 1 + arg_width(info as int);
        if (major == 4 || major == 5) && info <= 27 && body <= b.len() && depth > 0 {
            assert(head_arg(b, p) >= 0);
            if major == 4 {
                lemma_items_end_bounds(b, body, head_arg(b, p) as nat, (depth - 1) as nat);
            } else {
                lemma_items_end_bounds(b, body, (2 * head_arg(b, p)) as nat, (depth - 1) as nat);
            }
        }
    }
}

/// A row of items ends at or after its start and within the bytes.
pub proof fn lemma_items_end_bounds(b: Seq<u8>, p: int, count: nat, depth: nat)
    requires
        p <= b.len(),
    ensures
        items_end(b, p, count, depth) matches Some(q) ==> p <= q <= b.len(),
    decreases depth, count, 1nat,
{
    if count > 0 {
        lemma_item_end_bounds(b, p, depth);
        match item_end(b, p, depth) {
            Some(q) => lemma_items_end_bounds(b, q, (count - 1) as nat, depth),
            None => {},
        }
    }
}

/// Reads the argument of the head at `p`.
fn read_head_arg(b: &[u8], p: usize) -> (r: u64)
    requires
        p < b.len(),
        b@[p as int] % 32 <= 27,
        p + 1 + arg_width((b@[p as int] % 32) as int) <= b.len(),
    ensures
        r == head_arg(b@, p as int),
{
    let info = b[p] % 32;
    if info < 24 {
        info as u64
    } else if info == 24 {
        b[p + 1] as u64
    } else if info == 25 {
        (b[p + 1] as u64) * 256 + b[p + 2] as u64
    } else if info == 26 {
        ((b[p + 1] as u64) * 256 + b[p + 2] as u64) * 65536 + ((b[p + 3] as u64) * 256 + b[p
            + 4] as u64)
    } else {
        let hi: u64 = ((b[p + 1] as u64) * 256 + b[p + 2] as u64) * 65536 + ((b[p + 3] as u64)
            * 256 + b[p + 4] as u64);
        let lo: u64 = ((b[p + 5] as u64) * 256 + b[p + 6] as u64) * 65536 + ((b[p + 7] as u64)
            * 256 + b[p + 8] as u64);
        hi * 4294967296 + lo
    }
}

/// Finds where the item that starts at `p` ends.
pub fn scan_item(b: &[u8], p: usize, depth: usize) -> (r: Option<usize>)
    ensures
        match r {
            Some(q) => item_end(b@, p as int, depth as nat) == Some(q as int) && p < q <= b.len(),
            None => item_end(b@, p as int, depth as nat) is None,
        },
    decreases depth, 0nat, 0nat,
{
    proof {
        lemma_item_end_bounds(b@, p as int, depth as nat);
    }
    if p >= b.len() {
        return None;
    }
    let head = b[p];
    let major = head / 32;
    let info = head % 32;
    let rest: usize = b.len() - p - 1;
    if major == 7 {
        if head == 0xf4 || head == 0xf5 || head == 0xf6 || head == 0xf7 {
            return Some(p + 1);
        } else if head == 0xfa && rest >= 4 {
            return Some(p + 5);
        } else if head == 0xfb && rest >= 8 {
            return Some(p + 9);
        } else {
            return None;
        }
    }
    if major == 6 {
        if head == 0xd8 && rest >= 3 && b[p + 1] == 42 && b[p + 2] == 0x58 && b[p + 3] >= 1
            && rest - 3 >= b[p + 3] as usize {
            return Some(p + 4 + b[p + 3] as usize);
        } else {
            return None;
        }
    }
    let width: usize = if info < 24 {
        0
    } else if info == 24 {
        1
    } else if info == 25 {
        2
    } else if info == 26 {
        4
    } else {
        8
    };
    if info > 27 || width > rest {
        return None;
    }
    let body: usize = p + 1 + width;
    if major == 0 || major == 1 {
        return Some(body);
    }
    let arg: u64 = read_head_arg(b, p);
    let room: usize = b.len() - body;
    if major == 2 || major == 3 {
        if arg <= room as u64 {
            return Some(body + arg as usize);
        } else {
            return None;
        }
    }
    if depth == 0 {
        return None;
    }
    if major == 4 {
        if arg <= room as u64 {
            scan_items(b, body, arg as usize, depth - 1)
        } else {
            None
        }
    } else {
        if arg <= (room / 2) as u64 {
            scan_items(b, body, 2 * (arg as usize), depth - 1)
        } else {
            None
        }
    }
}

/// Finds where `count` items in a row end that start at `p`.
pub fn scan_items(b: &[u8], p: usize, count: usize, depth: usize) -> (r: Option<usize>)
    requires
        p <= b.len(),
    ensures
        match r {
            Some(q) => items_end(b@, p as int, count as nat, depth as nat) == Some(q as int) && p
                <= q <= b.len(),
            None => items_end(b@, p as int, count as nat, depth as nat) is None,
        },
    decreases depth, count, 1nat,
{
    let mut q: usize = p;
    let mut left: usize = count;
    while left > 0
        invariant
            p <= q <= b.len(),
            left <= count,
            items_end(b@, p as int, count as nat, depth as nat) == items_end(
                b@,
                q as int,
                left as nat,
                depth as nat,
            ),
        decreases left,
    {
        match scan_item(b, q, depth) {
            Some(next) => {
                q = next;
            },
            None => {
                return None;
            },
        }
        left -= 1;
    }
    Some(q)
}

/// The value that the DAG-CBOR decoder reads from one well-framed item, if it
/// accepts the item.
pub uninterp spec fn dag_cbor_value(bytes: Seq<u8>) -> Option<Datum>;

/// Declares `libipld::Ipld`, the decoder's own value type. Nothing is known
/// of what such a value holds; it is only handed from the decoder to the
/// functions that copy it.
#[verifier::external_type_specification]
#[verifier::external_body]
pub struct ExRawIpld(libipld::Ipld);

/// Copies a value of `libipld` that holds no other values into the crate's
/// own type: a float by its `Display` text, a link by the parts of its
/// identifier. A list or a map gives null.
#[verifier::external_body]
fn own_leaf(i: &libipld::Ipld) -> Datum {
    match i {
        libipld::Ipld::Bool(b) => Datum::Bool(*b),
        libipld::Ipld::Integer(n) => Datum::Integer(*n),
        libipld::Ipld::Float(x) => Datum::Float(x.to_string()),
        libipld::Ipld::String(s) => Datum::Text(s.clone()),
        libipld::Ipld::Bytes(b) => Datum::Bytes(b.clone()),
        libipld::Ipld::Link(c) => Datum::Link(Cid { version: c.version().into(), codec: c.codec(), hash_code: c.hash().code(), digest: c.hash().digest().to_vec() }),
        _ => Datum::Null,
    }
}

/// Copies a value of `libipld` into the crate's own type, variant by
/// variant: the items of a list in order, the entries of a map in the order of
/// the `BTreeMap`.
#[verifier::external_body]
fn own_value(i: &libipld::Ipld) -> Datum {
    match i {
        libipld::Ipld::List(l) => Datum::List(l.iter().map(own_value).collect()),
        libipld::Ipld::StringMap(m) => Datum::Object(m.iter().map(|(k, v)| (k.clone(), own_value(v))).collect()),
        leaf => own_leaf(leaf),
    }
}

/// Wraps `DagCborCodec::decode` of `libipld` for its `Ipld`, on the bytes
/// `bytes[from..to]`. It is called on one well-framed item only: the decoder
/// allocates what an item's head declares and recurses once per nesting
/// level, so only such an item is safe to hand over. The value is named by
/// `dag_cbor_value`.
#[verifier::external_body]
fn dag_cbor_decode(bytes: &[u8], from: usize, to: usize) -> (r: Option<Datum>)
    requires
        from <= to <= bytes.len(),
        item_end(bytes@, from as int, MAX_DEPTH as nat) == Some(to as int),
    ensures
        r == dag_cbor_value(bytes@.subrange(from as int, to as int)),
{
    match libipld::cbor::DagCborCodec.decode::<libipld::Ipld>(&bytes[from..to]) {
        Ok(i) => Some(own_value(&i)),
        Err(_) => None,
    }
}

/// What decoding the item at `from` gives: the value and where the item
/// ends, or nothing when no well-framed item starts there or the decoder
/// refuses it.
pub open spec fn decoded_item(b: Seq<u8>, from: int) -> Option<(Datum, int)> {
    match item_end(b, from, MAX_DEPTH as nat) {
        Some(q) => match dag_cbor_value(b.subrange(from, q)) {
            Some(v) => Some((v, q)),
            None => None,
        },
        None => None,
    }
}

/// Decodes the DAG-CBOR item that starts at `from`.
pub fn decode_item(bytes: &[u8], from: usize) -> (r: Option<(Datum, usize)>)
    ensures
        match r {
            Some((v, q)) => decoded_item(bytes@, from as int) == Some((v, q as int)) && from < q
                <= bytes.len(),
            None => decoded_item(bytes@, from as int) is None,
        },
{
    match scan_item(bytes, from, MAX_DEPTH) {
        Some(q) => match dag_cbor_decode(bytes, from, q) {
            Some(v) => Some((v, q)),
            None => None,
        },
        None => None,
    }
}

/// The value under `key` among the first `n` entries of a map, the first
/// entry that has the key.
pub open spec fn lookup(entries: Seq<(String, Datum)>, key: Seq<char>, n: int) -> Option<Datum>
    decreases n,
{
    if n <= 0 || n > entries.len() {
        None
    } else {
        match lookup(entries, key, n - 1) {
            Some(v) => Some(v),
            None => if entries[n - 1].0@ == key {
                Some(entries[n - 1].1)
            } else {
                None
            },
        }
    }
}

/// Once a key is found among the first entries, more entries do not change
/// what is found.
pub proof fn lemma_lookup_stable(entries: Seq<(String, Datum)>, key: Seq<char>, i: int, n: int)
    requires
        0 <= i <= n <= entries.len(),
        lookup(entries, key, i) is Some,
    ensures
        lookup(entries, key, n) == lookup(entries, key, i),
    decreases n - i,
{
    if i < n {
        lemma_lookup_stable(entries, key, i, n - 1);
    }
}

impl Datum {
    /// The value under `key`, if `self` is a map that has the key.
    pub open spec fn field(&self, key: Seq<char>) -> Option<Datum> {
        match self {
            Datum::Object(m) => lookup(m@, key, m@.len() as int),
            _ => None,
        }
    }

    /// The text under `key`, if `self` is a map with a string there.
    pub open spec fn text_field(&self, key: Seq<char>) -> Option<Seq<char>> {
        match self.field(key) {
            Some(Datum::Text(s)) => Some(s@),
            _ => None,
        }
    }

    /// The integer under `key`, if `self` is a map with an integer there that
    /// fits in 64 bits.
    pub open spec fn int_field(&self, key: Seq<char>) -> Option<i64> {
        match self.field(key) {
            Some(Datum::Integer(i)) => if i64::MIN <= i <= i64::MAX {
                Some(i as i64)
            } else {
                None
            },
            _ => None,
        }
    }

    /// The flag under `key`, if `self` is a map with a boolean there.
    pub open spec fn bool_field(&self, key: Seq<char>) -> Option<bool> {
        match self.field(key) {
            Some(Datum::Bool(b)) => Some(b),
            _ => None,
        }
    }

    /// Looks a key up in a map.
    pub fn get(&self, key: &str) -> (r: Option<&Datum>)
        ensures
            match r {
                Some(v) => self.field(key@) == Some(*v),
                None => self.field(key@) is None,
            },
    {
        match self {
            Datum::Object(m) => {
                let mut i: usize = 0;
                while i < m.len()
                    invariant
                        i <= m.len(),
                        *self == Datum::Object(*m),
                        lookup(m@, key@, i as int) is None,
                    decreases m.len() - i,
                {
                    if str_eq(m[i].0.as_str(), key) {
                        proof {
                            lemma_lookup_stable(m@, key@, i + 1, m@.len() as int);
                        }
                        return Some(&m[i].1);
                    }
                    i += 1;
                }
                None
            },
            _ => None,
        }
    }

    /// The text under `key`.
    pub fn get_text(&self, key: &str) -> (r: Option<String>)
        ensures
            match r {
                Some(s) => self.text_field(key@) == Some(s@),
                None => self.text_field(key@) is None,
            },
    {
        match self.get(key) {
            Some(Datum::Text(s)) => Some(s.clone()),
            _ => None,
        }
    }

    /// The integer under `key`, within 64 bits.
    pub fn get_int(&self, key: &str) -> (r: Option<i64>)
        ensures
            r == self.int_field(key@),
    {
        match self.get(key) {
            Some(Datum::Integer(i)) => if -0x8000_0000_0000_0000 <= *i && *i
                <= 0x7fff_ffff_ffff_ffff {
                Some(*i as i64)
            } else {
                None
            },
            _ => None,
        }
    }

    /// The flag under `key`.
    pub fn get_bool(&self, key: &str) -> (r: Option<bool>)
        ensures
            r == self.bool_field(key@),
    {
        match self.get(key) {
            Some(Datum::Bool(b)) => Some(*b),
            _ => None,
        }
    }
}

/// One character as it stands inside a JSON string: a backslash, a double
/// quote and a line feed are escaped, every other character stands for itself.
pub open spec fn escaped_char(c: char) -> Seq<char> {
    if c == '\\' {
        seq!['\\', '\\']
    } else if c == '"' {
        seq!['\\', '"']
    } else if c == '\n' {
        seq!['\\', 'n']
    } else {
        seq![c]
    }
}

/// A text with each of its characters escaped.
pub open spec fn escaped(s: Seq<char>) -> Seq<char>
    decreases s.len(),
{
    if s.len() == 0 {
        Seq::<char>::empty()
    } else {
        escaped(s.drop_last()) + escaped_char(s.last())
    }
}

/// The first `n` bytes as decimal numbers with commas between them.
pub open spec fn bytes_text(b: Seq<u8>, n: nat) -> Seq<char>
    decreases n,
{
    if n == 0 {
        Seq::<char>::empty()
    } else if n == 1 {
        int_text(b[0] as int)
    } else {
        bytes_text(b, (n - 1) as nat) + seq![','] + int_text(b[n - 1] as int)
    }
}

/// The JSON text of a value: `null`, `true`, `false`, numbers in decimal,
/// strings in double quotes, bytes as a list of numbers, lists and maps with
/// commas and no spaces, a link as `{"$link": "<text of the identifier>"}`.
/// Map keys are written as they are.
pub open spec fn json_text(v: Datum) -> Seq<char>
    decreases v, 0nat,
{
    match v {
        Datum::Null => "null"@,
        Datum::Bool(b) => if b {
            "true"@
        } else {
            "false"@
        },
        Datum::Integer(i) => int_text(i as int),
        Datum::Float(t) => t@,
        Datum::Text(s) => seq!['"'] + escaped(s@) + seq!['"'],
        Datum::Bytes(b) => seq!['['] + bytes_text(b@, b@.len()) + seq![']'],
        Datum::List(l) => seq!['['] + json_items(l@, l@.len()) + seq![']'],
        Datum::Object(m) => seq!['{'] + json_entries(m@, m@.len()) + seq!['}'],
        Datum::Link(c) => "{\"$link\": \""@ + link_text(c) + "\"}"@,
    }
}

/// The text of the identifier in a link; of the default identifier where the
/// parts make none.
pub open spec fn link_text(c: Cid) -> Seq<char> {
    c@.text()
}

/// The JSON texts of the first `n` values with commas between them.
pub open spec fn json_items(s: Seq<Datum>, n: nat) -> Seq<char>
    decreases s, n,
{
    if n == 0 || n > s.len() {
        Seq::<char>::empty()
    } else if n == 1 {
        json_text(s[0])
    } else {
        json_items(s, (n - 1) as nat) + seq![','] + json_text(s[n - 1])
    }
}

/// One map entry: the key in double quotes, a colon, the value.
pub open spec fn json_entry(k: Seq<char>, v: Seq<char>) -> Seq<char> {
    seq!['"'] + k + seq!['"', ':'] + v
}

/// The first `n` map entries with commas between them.
pub open spec fn json_entries(s: Seq<(String, Datum)>, n: nat) -> Seq<char>
    decreases s, n,
{
    if n == 0 || n > s.len() {
        Seq::<char>::empty()
    } else if n == 1 {
        json_entry(s[0].0@, json_text(s[0].1))
    } else {
        json_entries(s, (n - 1) as nat) + seq![','] + json_entry(s[n - 1].0@, json_text(s[n - 1].1))
    }
}

/// Escapes a text for a JSON string.
pub fn escape(s: &str) -> (r: String)
    ensures
        r@ == escaped(s@),
{
    let chars = to_chars(s);
    let mut out = String::new();
    let mut i: usize = 0;
    while i < chars.len()
        invariant
            i <= chars.len(),
            chars@ == s@,
            out@ == escaped(chars@.take(i as int)),
        decreases chars.len() - i,
    {
        let c = chars[i];
        proof {
            assert(chars@.take(i + 1).drop_last() == chars@.take(i as int));
        }
        if c == '\\' {
            push_char(&mut out, '\\');
            push_char(&mut out, '\\');
        } else if c == '"' {
            push_char(&mut out, '\\');
            push_char(&mut out, '"');
        } else if c == '\n' {
            push_char(&mut out, '\\');
            push_char(&mut out, 'n');
        } else {
            push_char(&mut out, c);
        }
        i += 1;
    }
    proof {
        assert(chars@.take(i as int) == chars@);
    }
    out
}

/// Renders a value as JSON text.
pub fn ipld_to_string(ipld: &Datum) -> (r: String)
    ensures
        r@ == json_text(*ipld),
    decreases ipld,
{
    match ipld {
        Datum::Null => "null".to_owned(),
        Datum::Bool(b) => if *b {
            "true".to_owned()
        } else {
            "false".to_owned()
        },
        Datum::Integer(i) => int_to_string(*i),
        Datum::Float(t) => t.clone(),
        Datum::Text(s) => {
            let mut out = String::new();
            push_char(&mut out, '"');
            out.append(escape(s.as_str()).as_str());
            push_char(&mut out, '"');
            out
        },
        Datum::Bytes(b) => {
            let mut out = String::new();
            push_char(&mut out, '[');
            let ghost open = out@;
            let mut i: usize = 0;
            while i < b.len()
                invariant
                    i <= b.len(),
                    out@ == open + bytes_text(b@, i as nat),
                decreases b.len() - i,
            {
                if i > 0 {
                    push_char(&mut out, ',');
                }
                out.append(int_to_string(b[i] as i128).as_str());
                i += 1;
            }
            push_char(&mut out, ']');
            out
        },
        Datum::List(l) => {
            let mut out = String::new();
            push_char(&mut out, '[');
            let ghost open = out@;
            let mut i: usize = 0;
            assert(decreases_to!(ipld => l));
            while i < l.len()
                invariant
                    i <= l.len(),
                    decreases_to!(ipld => l),
                    out@ == open + json_items(l@, i as nat),
                    *ipld == Datum::List(*l),
                decreases l.len() - i,
            {
                if i > 0 {
                    push_char(&mut out, ',');
                }
                proof {
                    vstd::std_specs::vec::axiom_vec_index_decreases(*l, i as int);
                    assert(decreases_to!(l => l[i as int]));
                }
                out.append(ipld_to_string(&l[i]).as_str());
                i += 1;
            }
            push_char(&mut out, ']');
            out
        },
        Datum::Object(m) => {
            let mut out = String::new();
            push_char(&mut out, '{');
            let ghost open = out@;
            let mut i: usize = 0;
            assert(decreases_to!(ipld => m));
            while i < m.len()
                invariant
                    i <= m.len(),
                    decreases_to!(ipld => m),
                    out@ == open + json_entries(m@, i as nat),
                    *ipld == Datum::Object(*m),
                decreases m.len() - i,
            {
                if i > 0 {
                    push_char(&mut out, ',');
                }
                push_char(&mut out, '"');
                out.append(m[i].0.as_str());
                push_char(&mut out, '"');
                push_char(&mut out, ':');
                proof {
                    vstd::std_specs::vec::axiom_vec_index_decreases(*m, i as int);
                    assert(decreases_to!(m => m[i as int]));
                    assert(decreases_to!(m[i as int] => m[i as int].1));
                }
                out.append(ipld_to_string(&m[i].1).as_str());
                i += 1;
            }
            push_char(&mut out, '}');
            out
        },
        Datum::Link(c) => {
            let mut out = "{\"$link\": \"".to_owned();
            out.append(c.to_string().as_str());
            out.append("\"}");
            out
        },
    }
}

} // verus!
