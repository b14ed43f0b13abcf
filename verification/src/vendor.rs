//! OUI vendor lookup: the key a MAC address owes to its vendor, and the
//! search through the loaded vendor table.

use vstd::prelude::*;

use crate::addrs::MacAddress;
use crate::digits::hex_pair_upper;
use crate::digits::append_hex_pair_upper;

verus! {

/// The OUI key of a hardware address: its first three octets, each as two
/// upper-case hexadecimal digits, zero-padded.  The padding matters: a key
/// six characters short of digits would miss its table entry.
pub open spec fn oui_key(m: MacAddress) -> Seq<char> {
    hex_pair_upper(m.0) + hex_pair_upper(m.1) + hex_pair_upper(m.2)
}

/// Render the OUI key of a hardware address.
pub fn oui_key_string(m: &MacAddress) -> (r: String)
    ensures
        r@ == oui_key(*m),
{
    let mut out = String::new();
    append_hex_pair_upper(&mut out, m.0);
    append_hex_pair_upper(&mut out, m.1);
    append_hex_pair_upper(&mut out, m.2);
    proof {
        assert(out@ =~= oui_key(*m));
    }
    out
}

/// One row of the vendor table: an OUI key and the vendor's name, which the
/// table may leave out.
pub struct VendorRecord {
    pub oui: String,
    pub name: Option<String>,
}

/// What a row answers when it matches: its name, or the filler for a row
/// without one.
pub open spec fn record_name(rec: VendorRecord) -> Seq<char> {
    match rec.name {
        Some(n) => n@,
        None => "(no vendor)"@,
    }
}

/// The first row whose key is `key`, searched in table order.
pub open spec fn vendor_lookup(rs: Seq<VendorRecord>, key: Seq<char>) -> Option<Seq<char>>
    decreases rs.len(),
{
    if rs.len() == 0 {
        None
    } else if rs[0].oui@ == key {
        Some(record_name(rs[0]))
    } else {
        vendor_lookup(rs.drop_first(), key)
    }
}

/// The vendor search handle: the loaded table, or nothing when the database
/// could not be opened, which silently disables the lookup.
pub struct Vendor {
    pub records: Option<Vec<VendorRecord>>,
}

impl Vendor {
    /// A search handle over an already-loaded table, or over none.
    pub fn from_records(records: Option<Vec<VendorRecord>>) -> (r: Vendor)
        ensures
            r.records == records,
    {
        Vendor { records }
    }

    /// Is a vendor table loaded?
    pub fn has_vendor_db(&self) -> (r: bool)
        ensures
            r == (self.records is Some),
    {
        self.records.is_some()
    }

    /// The vendor owning the hardware address's OUI: the first table row
    /// keyed by the address's zero-padded key, or nothing without a match
    /// or without a table.
    pub fn search_by_mac(&self, mac_address: &MacAddress) -> (r: Option<String>)
        ensures
            (match self.records {
                None => r is None,
                Some(table) => (match (r, vendor_lookup(table@, oui_key(*mac_address))) {
                    (Some(s), Some(w)) => s@ == w,
                    (None, None) => true,
                    _ => false,
                }),
            }),
    {
        let table = match &self.records {
            Some(t) => t,
            None => {
                return None;
            },
        };
        let key = oui_key_string(mac_address);
        let mut i: usize = 0;
        proof {
            assert(table@.subrange(0, table@.len() as int) =~= table@);
        }
        while i < table.len()
            invariant
                i <= table@.len(),
                key@ == oui_key(*mac_address),
                (match self.records {
                    Some(tbl) => tbl@ == table@,
                    None => false,
                }),
                vendor_lookup(table@, key@) == vendor_lookup(
                    table@.subrange(i as int, table@.len() as int),
                    key@,
                ),
            decreases table@.len() - i,
        {
            let ghost suffix = table@.subrange(i as int, table@.len() as int);
            proof {
                assert(suffix[0] == table@[i as int]);
                assert(suffix.drop_first() =~= table@.subrange(i as int + 1, table@.len() as int));
            }
            if table[i].oui.eq(&key) {
                let found: String = match &table[i].name {
                    Some(n) => n.clone(),
                    None => String::from_str("(no vendor)"),
                };
                return Some(found);
            }
            i = i + 1;
        }
        proof {
            assert(table@.subrange(table@.len() as int, table@.len() as int)
                =~= Seq::<VendorRecord>::empty());
        }
        None
    }
}

} // verus!
