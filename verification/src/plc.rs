//! The directory of DIDs: its operations as plain data, and the addresses
//! that its client asks.
use crate::cid::Cid;
use crate::text::{joined, int_text, int_to_string};
use crate::time::Timestamp;
use std::collections::HashMap;
use vstd::prelude::*;

verus! {

/// A regular operation on a DID.
#[derive(Debug, Clone, PartialEq, Eq)]
pub struct PlcOperation {
    pub rotation_keys: Vec<String>,
    pub verification_methods: HashMap<String, String>,
    pub also_known_as: Vec<String>,
    pub services: HashMap<String, HashMap<String, String>>,
    pub prev: Option<String>,
    pub sig: String,
}

/// The operation that ends a DID.
#[derive(Debug, Clone, PartialEq, Eq)]
pub struct PlcTombstone {
    pub prev: String,
    pub sig: String,
}

/// The operation that made a DID, in its first form.
#[derive(Debug, Clone, PartialEq, Eq)]
pub struct Create {
    pub signing_key: String,
    pub recovery_key: String,
    pub handle: String,
    pub service: String,
    pub prev: Option<String>,
    pub sig: String,
}

/// An operation of the directory.
#[derive(Debug, Clone, PartialEq, Eq)]
pub enum PlcOp {
    PlcOperation(PlcOperation),
    PlcTombstone(PlcTombstone),
    Create(Create),
}

/// An entry of the directory's log.
#[derive(Debug, Clone, PartialEq, Eq)]
pub struct LogEntry {
    pub did: String,
    pub operation: PlcOp,
    pub cid: Cid,
    pub nullified: bool,
    pub created_at: Timestamp,
}

/// The directory that is asked unless another is named.
pub open spec fn default_host() -> Seq<char> {
    "plc.directory"@
}

/// Most entries that one export may ask for.
pub const MAX_EXPORT: i64 = 1000;

/// Entries that an export asks for where no number is given.
pub const DEFAULT_EXPORT: i64 = 10;

/// The number of entries that an export asks for: the given number, 10
/// where none is given, and never more than 1000.
pub open spec fn export_count_of(count: Option<i64>) -> i64 {
    match count {
        Some(c) => if c > MAX_EXPORT {
            MAX_EXPORT
        } else {
            c
        },
        None => DEFAULT_EXPORT,
    }
}

/// The client of the directory: the host it asks.
#[derive(Debug, Clone, PartialEq, Eq)]
pub struct Plc {
    pub host: String,
}

impl Plc {
    /// The client of `plc.directory`.
    pub fn default() -> (r: Plc)
        ensures
            r.host@ == default_host(),
    {
        Plc { host: "plc.directory".to_string() }
    }

    /// The address of what the directory holds for `did` under `tail`, such
    /// as `/log` or `/data`; of the document of `did` where `tail` is empty.
    pub fn url(&self, did: &str, tail: &str) -> (r: String)
        ensures
            r@ == "https://"@ + self.host@ + "/"@ + did@ + tail@,
    {
        let mut out = joined("https://", self.host.as_str());
        out.append("/");
        out.append(did);
        out.append(tail);
        out
    }

    /// The address of the export of the directory's log.
    pub fn export_url(&self) -> (r: String)
        ensures
            r@ == "https://"@ + self.host@ + "/export"@,
    {
        let mut out = joined("https://", self.host.as_str());
        out.append("/export");
        out
    }

    /// The number of entries that an export asks for.
    pub fn export_count(count: Option<i64>) -> (r: i64)
        ensures
            r == export_count_of(count),
    {
        match count {
            Some(c) => if c > MAX_EXPORT {
                MAX_EXPORT
            } else {
                c
            },
            None => DEFAULT_EXPORT,
        }
    }

    /// The query of an export: how many entries, and after which instant,
    /// given as text.
    pub fn export_query(count: Option<i64>, after: &str) -> (r: Vec<(String, String)>)
        ensures
            r.deep_view() == seq![
                ("count"@, int_text(export_count_of(count) as int)),
                ("after"@, after@),
            ],
    {
        let mut out: Vec<(String, String)> = Vec::new();
        out.push(("count".to_string(), int_to_string(Plc::export_count(count) as i128)));
        out.push(("after".to_string(), after.to_string()));
        assert(out.deep_view() =~= seq![
            ("count"@, int_text(export_count_of(count) as int)),
            ("after"@, after@),
        ]);
        out
    }
}

impl PlcOp {
    /// A regular operation with nothing in it: no keys, no verification
    /// methods, no other names, no services, no operation before it and an
    /// empty signature.
    pub fn default() -> (r: PlcOp)
        ensures
            r matches PlcOp::PlcOperation(o) && o.rotation_keys@.len() == 0
                && o.verification_methods@ == Map::<String, String>::empty() && o.also_known_as@.len()
                == 0 && o.services@ == Map::<String, HashMap<String, String>>::empty() && o.prev is None
                && o.sig@.len() == 0,
    {
        PlcOp::PlcOperation(
            PlcOperation {
                rotation_keys: Vec::new(),
                verification_methods: HashMap::new(),
                also_known_as: Vec::new(),
                services: HashMap::new(),
                prev: None,
                sig: String::new(),
            },
        )
    }
}

} // verus!
