//! Content hashes of playbooks and inventories.

use vstd::prelude::*;
use crate::json::{inventory_json, playbook_json, write_inventory, write_playbook};
use crate::planner::error::PlanError;
use crate::types::parsed::{ParsedInventory, ParsedPlaybook};

verus! {

/// The MD5 digest of the UTF-8 bytes of a text, as 32 lowercase hexadecimal
/// digits.
pub uninterp spec fn md5_hex(text: Seq<char>) -> Seq<char>;

/// `md5::compute` on the bytes of a string, formatted in lowercase
/// hexadecimal.
#[verifier::external_body]
pub(crate) fn md5_digest_hex(text: &str) -> (r: String)
    ensures
        r@ == md5_hex(text@),
{
    format!("{:x}", md5::compute(text.as_bytes()))
}

/// The content hash of a JSON text: its digest.
pub open spec fn content_hash(json: Seq<char>) -> Seq<char> {
    md5_hex(json)
}

/// Whether `r` is the digest `expected`.
pub open spec fn hashes_to(r: Result<String, PlanError>, expected: Seq<char>) -> bool {
    r matches Ok(hash) && hash@ == expected
}

/// The content hash of a playbook: the digest of its JSON text. The text
/// lists maps in the order of their entries, so the hash follows the order
/// in which the producer of the playbook listed them.
pub fn calculate_playbook_hash(playbook: &ParsedPlaybook) -> (r: Result<String, PlanError>)
    ensures
        hashes_to(r, content_hash(playbook_json(playbook.deep_view()))),
{
    let text = write_playbook(playbook)?;
    Ok(md5_digest_hex(text.as_str()))
}

/// The content hash of an inventory: the digest of its JSON text.
pub fn calculate_inventory_hash(inventory: &ParsedInventory) -> (r: Result<String, PlanError>)
    ensures
        hashes_to(r, content_hash(inventory_json(inventory.deep_view()))),
{
    let text = write_inventory(inventory)?;
    Ok(md5_digest_hex(text.as_str()))
}

} // verus!
