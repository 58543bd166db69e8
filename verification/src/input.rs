//! What is done to the output of the parser before it is read as JSON, and
//! what stands in for an inventory that it does not hold.

use vstd::prelude::*;
use crate::types::parsed::{HostFactsView, HostGroupView, ParsedInventory, ParsedInventoryView};
use crate::types::plan::KeyValueView;

verus! {

/// The bytes of `"inventory":`, the key of the inventory with its colon.
pub open spec fn inventory_key() -> Seq<u8> {
    seq![34u8, 105u8, 110u8, 118u8, 101u8, 110u8, 116u8, 111u8, 114u8, 121u8, 34u8, 58u8]
}

/// The bytes of `"old_inventory":`, the key that an inventory is put aside
/// under.
pub open spec fn old_inventory_key() -> Seq<u8> {
    seq![
        34u8,
        111u8,
        108u8,
        100u8,
        95u8,
        105u8,
        110u8,
        118u8,
        101u8,
        110u8,
        116u8,
        111u8,
        114u8,
        121u8,
        34u8,
        58u8,
    ]
}

/// Whether `pattern` stands in `text` at position `i`.
pub open spec fn occurs_at(text: Seq<u8>, pattern: Seq<u8>, i: int) -> bool {
    0 <= i && i + pattern.len() <= text.len() && text.subrange(i, i + pattern.len()) == pattern
}

/// Whether `i` is the first position at or after `from` at which `pattern`
/// stands in `text`.
pub open spec fn is_first_occurrence(text: Seq<u8>, pattern: Seq<u8>, from: int, i: int) -> bool {
    &&& from <= i
    &&& occurs_at(text, pattern, i)
    &&& forall|j: int| from <= j < i ==> !occurs_at(text, pattern, j)
}

/// Whether `pattern` stands nowhere in `text` at or after `from`.
pub open spec fn occurs_nowhere(text: Seq<u8>, pattern: Seq<u8>, from: int) -> bool {
    forall|j: int| from <= j ==> !occurs_at(text, pattern, j)
}

/// Whether `result` is `content` with its first inventory put aside: where
/// the key of the inventory stands in `content` more than once, the first
/// of them is written as the key of an old inventory; else nothing is
/// changed.
pub open spec fn is_without_first_inventory(content: Seq<u8>, result: Seq<u8>) -> bool {
    let key = inventory_key();
    if exists|i: int, j: int| occurs_at(content, key, i) && occurs_at(content, key, j) && i < j {
        exists|i: int|
            #[trigger] is_first_occurrence(content, key, 0, i) && result == content.subrange(0, i)
                + old_inventory_key() + content.subrange(i + key.len(), content.len() as int)
    } else {
        result == content
    }
}

/// Whether `pattern` stands in `text` at position `i`.
fn matches_at(text: &[u8], pattern: &Vec<u8>, i: usize) -> (r: bool)
    requires
        i + pattern.len() <= text.len(),
    ensures
        r == occurs_at(text@, pattern@, i as int),
{
    let mut k: usize = 0;
    while k < pattern.len()
        invariant
            k <= pattern.len(),
            i + pattern.len() <= text.len(),
            forall|m: int| 0 <= m < k ==> text@[i + m] == pattern@[m],
        decreases pattern.len() - k,
    {
        if text[i + k] != pattern[k] {
            assert(text@.subrange(i as int, i + pattern.len())[k as int] != pattern@[k as int]);
            return false;
        }
        k += 1;
    }
    assert(text@.subrange(i as int, i + pattern.len()) =~= pattern@);
    true
}

/// The first position at or after `from` at which `pattern` stands in
/// `text`.
fn find_from(text: &[u8], pattern: &Vec<u8>, from: usize) -> (r: Option<usize>)
    requires
        pattern.len() > 0,
    ensures
        match r {
            Some(i) => is_first_occurrence(text@, pattern@, from as int, i as int),
            None => occurs_nowhere(text@, pattern@, from as int),
        },
{
    if pattern.len() > text.len() || from > text.len() - pattern.len() {
        return None;
    }
    let last = text.len() - pattern.len();
    let mut i: usize = from;
    while i <= last
        invariant
            from <= i <= last + 1,
            pattern.len() > 0,
            last == text.len() - pattern.len(),
            forall|j: int| from <= j < i ==> !occurs_at(text@, pattern@, j),
        decreases last + 1 - i,
    {
        if matches_at(text, pattern, i) {
            return Some(i);
        }
        i += 1;
    }
    None
}

/// Appends the bytes of `part` from `start` up to `end`.
fn push_range(out: &mut Vec<u8>, part: &[u8], start: usize, end: usize)
    requires
        start <= end <= part.len(),
    ensures
        final(out)@ == old(out)@ + part@.subrange(start as int, end as int),
{
    let ghost before = out@;
    let mut k: usize = start;
    assert(out@ =~= before + part@.subrange(start as int, start as int));
    while k < end
        invariant
            start <= k <= end <= part.len(),
            out@ == before + part@.subrange(start as int, k as int),
        decreases end - k,
    {
        out.push(part[k]);
        assert(out@ =~= before + part@.subrange(start as int, k + 1));
        k += 1;
    }
}

/// The content with its first inventory put aside: a producer that writes
/// two inventories means the second.
pub fn remove_first_inventory_field(content: &[u8]) -> (r: Vec<u8>)
    ensures
        is_without_first_inventory(content@, r@),
{
    let key: Vec<u8> = vec![34u8, 105u8, 110u8, 118u8, 101u8, 110u8, 116u8, 111u8, 114u8, 121u8, 34u8, 58u8];
    let old_key: Vec<u8> = vec![
        34u8,
        111u8,
        108u8,
        100u8,
        95u8,
        105u8,
        110u8,
        118u8,
        101u8,
        110u8,
        116u8,
        111u8,
        114u8,
        121u8,
        34u8,
        58u8,
    ];
    assert(key@ =~= inventory_key());
    assert(old_key@ =~= old_inventory_key());
    assert(key.len() == 12);
    let mut out: Vec<u8> = Vec::new();
    match find_from(content, &key, 0) {
        Some(first) => {
            assert(occurs_at(content@, key@, first as int));
            assert(first + 12 <= content@.len());
            assert(content@.len() == content.len());
            match find_from(content, &key, first + 1) {
                Some(second) => {
                    push_range(&mut out, content, 0, first);
                    push_range(&mut out, old_key.as_slice(), 0, old_key.len());
                    push_range(&mut out, content, first + key.len(), content.len());
                    proof {
                        assert(old_key@.subrange(0, old_key.len() as int) =~= old_key@);
                        assert(occurs_at(content@, key@, first as int) && occurs_at(
                            content@,
                            key@,
                            second as int,
                        ) && first < second);
                        assert(is_first_occurrence(content@, inventory_key(), 0, first as int));
                        assert(out@ =~= content@.subrange(0, first as int) + old_inventory_key()
                            + content@.subrange(first + key.len(), content.len() as int));
                    }
                },
                None => {
                    push_range(&mut out, content, 0, content.len());
                    proof {
                        assert(out@ =~= content@);
                        assert forall|i: int, j: int|
                            occurs_at(content@, key@, i) && occurs_at(content@, key@, j) && i
                                < j implies false by {
                            if i < first {
                                assert(!occurs_at(content@, key@, i));
                            } else {
                                assert(!occurs_at(content@, key@, j));
                            }
                        }
                    }
                },
            }
        },
        None => {
            push_range(&mut out, content, 0, content.len());
            assert(out@ =~= content@);
        },
    }
    out
}

/// The inventory that stands in where the parser gives none: the local
/// host alone, without groups, variables and facts.
pub fn create_default_inventory() -> (r: ParsedInventory)
    ensures
        r.deep_view() == (ParsedInventoryView {
            hosts: seq!["localhost"@],
            groups: Seq::empty(),
            vars: Seq::empty(),
            host_facts: Seq::empty(),
        }),
{
    let mut hosts: Vec<String> = Vec::new();
    hosts.push(String::from_str("localhost"));
    let inventory = ParsedInventory {
        hosts,
        groups: Vec::new(),
        vars: Vec::new(),
        host_facts: Vec::new(),
    };
    proof {
        let v = inventory.deep_view();
        assert(v.hosts =~= seq!["localhost"@]);
        assert(v.groups =~= Seq::<HostGroupView>::empty());
        assert(v.vars =~= Seq::<KeyValueView>::empty());
        assert(v.host_facts =~= Seq::<HostFactsView>::empty());
    }
    inventory
}

} // verus!
