//! The host-side symbol table.
//!
//! The engine translates function addresses and executor or task addresses
//! into names through a table of resolved symbols. Building the table from
//! an image is the surrounding tooling's business; the lookup and the
//! cosmetic trimming of pool suffixes are the library's.

use vstd::prelude::*;
use vstd::string::StringExecFns;
use vstd::string::StrSliceExecFns;

verus! {

broadcast use vstd::string::group_string_axioms;

/// The address-to-name entries of the table.
pub open spec fn spec_entries(entries: Seq<(u64, String)>) -> Seq<(u64, Seq<char>)> {
    entries.map_values(|e: (u64, String)| (e.0, e.1@))
}

/// The first entry for `addr`, scanning from the front.
pub open spec fn spec_lookup(entries: Seq<(u64, Seq<char>)>, addr: u64) -> Option<Seq<char>>
    decreases entries.len(),
{
    if entries.len() == 0 {
        None
    } else if entries[0].0 == addr {
        Some(entries[0].1)
    } else {
        spec_lookup(entries.skip(1), addr)
    }
}

/// The position of the first "::POOL" in `s` at or after `i`, or the length
/// of `s` when there is none.
pub open spec fn spec_pool_index(s: Seq<char>, i: int) -> int
    decreases s.len() - i,
{
    if i < 0 || i + 6 > s.len() {
        s.len() as int
    } else if s.subrange(i, i + 6) == "::POOL"@ {
        i
    } else {
        spec_pool_index(s, i + 1)
    }
}

/// A symbol name with any "::POOL" suffix cut off.
pub open spec fn spec_short_name(s: Seq<char>) -> Seq<char> {
    s.subrange(0, spec_pool_index(s, 0))
}

/// The pool index never leaves the name.
pub proof fn lemma_pool_index_bounds(s: Seq<char>, i: int)
    requires
        0 <= i <= s.len(),
    ensures
        i <= spec_pool_index(s, i) <= s.len(),
    decreases s.len() - i,
{
    if i + 6 <= s.len() && s.subrange(i, i + 6) != "::POOL"@ {
        lemma_pool_index_bounds(s, i + 1);
    }
}

/// Cut a symbol name at its first "::POOL", as pool symbols carry the name
/// of the pool's owner up to that marker.
pub fn try_extract_short_name(full_name: &String) -> (r: String)
    ensures
        r@ == spec_short_name(full_name@),
{
    let s = full_name.as_str();
    let len = s.unicode_len();
    proof {
        reveal_strlit("::POOL");
    }
    let mut i: usize = 0;
    while len - i >= 6
        invariant
            len == s@.len(),
            s@ == full_name@,
            i <= len,
            spec_pool_index(s@, 0) == spec_pool_index(s@, i as int),
        decreases len - i,
    {
        assert(i + 6 <= len);
        let c0 = s.get_char(i);
        let c1 = s.get_char(i + 1);
        let c2 = s.get_char(i + 2);
        let c3 = s.get_char(i + 3);
        let c4 = s.get_char(i + 4);
        let c5 = s.get_char(i + 5);
        if c0 == ':' && c1 == ':' && c2 == 'P' && c3 == 'O' && c4 == 'O' && c5 == 'L' {
            proof {
                reveal_strlit("::POOL");
                assert(s@.subrange(i as int, i as int + 6) =~= "::POOL"@);
                lemma_pool_index_bounds(s@, i as int);
            }
            let short = s.substring_char(0, i);
            return String::from_str(short);
        }
        proof {
            reveal_strlit("::POOL");
            assert(s@.subrange(i as int, i as int + 6) != "::POOL"@) by {
                if s@.subrange(i as int, i as int + 6) == "::POOL"@ {
                    assert(s@[i as int] == "::POOL"@[0]);
                    assert(s@[i as int + 1] == "::POOL"@[1]);
                    assert(s@[i as int + 2] == "::POOL"@[2]);
                    assert(s@[i as int + 3] == "::POOL"@[3]);
                    assert(s@[i as int + 4] == "::POOL"@[4]);
                    assert(s@[i as int + 5] == "::POOL"@[5]);
                }
            }
        }
        i = i + 1;
    }
    proof {
        assert(spec_pool_index(s@, i as int) == s@.len());
        assert(s@.subrange(0, s@.len() as int) =~= s@);
    }
    let whole = s.substring_char(0, len);
    String::from_str(whole)
}

/// Resolved symbols of the traced firmware image, keyed by address.
pub struct FirmwareAddressMap {
    entries: Vec<(u64, String)>,
}

impl FirmwareAddressMap {
    /// The table's entries.
    pub closed spec fn view(&self) -> Seq<(u64, Seq<char>)> {
        spec_entries(self.entries@)
    }

    /// Build the table from already-resolved symbols.
    pub fn new_from_symbols(entries: Vec<(u64, String)>) -> (r: FirmwareAddressMap)
        ensures
            r@ == spec_entries(entries@),
    {
        FirmwareAddressMap { entries }
    }

    /// The name at `addr`, with any pool suffix cut off, or nothing when
    /// the address is unknown.
    pub fn get_symbol_name(&self, addr: u64) -> (r: Option<String>)
        ensures
            match r {
                Some(name) => spec_lookup(self@, addr) is Some && name@ == spec_short_name(
                    spec_lookup(self@, addr).unwrap(),
                ),
                None => spec_lookup(self@, addr) is None,
            },
    {
        let mut i: usize = 0;
        proof {
            assert(self@.skip(0) =~= self@);
        }
        while i < self.entries.len()
            invariant
                i <= self.entries@.len(),
                spec_lookup(self@, addr) == spec_lookup(self@.skip(i as int), addr),
            decreases self.entries@.len() - i,
        {
            proof {
                assert(self@.skip(i as int)[0] == self@[i as int]);
                assert(self@[i as int].0 == self.entries@[i as int].0);
                assert(self@.skip(i as int).skip(1) =~= self@.skip(i as int + 1));
            }
            if self.entries[i].0 == addr {
                proof {
                    assert(spec_lookup(self@, addr) == Some(self@[i as int].1));
                    assert(self@[i as int].1 == self.entries@[i as int].1@);
                }
                return Some(try_extract_short_name(&self.entries[i].1));
            }
            i = i + 1;
        }
        proof {
            assert(self@.skip(i as int) =~= Seq::<(u64, Seq<char>)>::empty());
        }
        None
    }
}

} // verus!
