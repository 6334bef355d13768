//! Accounts, dispatch origins and the validation results that both pallets
//! keep on chain.

use vstd::prelude::*;

verus! {

broadcast use vstd::array::group_array_axioms;

/// A 32-byte account identifier (the runtime's `AccountId32`).
pub type AccountId = [u8; 32];

/// The origin of a dispatched call, as the runtime's raw origin knows it.
#[derive(Clone, Copy, Debug)]
pub enum Origin {
    Root,
    Signed(AccountId),
    /// An unsigned transaction (the raw origin `None`).
    Unsigned,
}

/// Why a dispatched call was refused.
#[derive(Clone, Copy, Debug, PartialEq, Eq, Structural)]
pub enum DispatchError {
    /// The call needs a signed origin and did not have one.
    BadOrigin,
}

/// The signer of `origin`, or `BadOrigin` when the call is not signed.
pub fn ensure_signed(origin: Origin) -> (r: Result<AccountId, DispatchError>)
    ensures
        match origin {
            Origin::Signed(who) => r == Ok::<AccountId, DispatchError>(who),
            _ => r == Err::<AccountId, DispatchError>(DispatchError::BadOrigin),
        },
{
    match origin {
        Origin::Signed(who) => Ok(who),
        _ => Err(DispatchError::BadOrigin),
    }
}

/// Whether two accounts are the same account.
pub fn same_account(a: &AccountId, b: &AccountId) -> (r: bool)
    ensures
        r == (*a == *b),
{
    let mut i: usize = 0;
    while i < 32
        invariant
            0 <= i <= 32,
            forall|j: int| 0 <= j < i ==> a[j] == b[j],
        decreases 32 - i,
    {
        if a[i] != b[i] {
            return false;
        }
        i = i + 1;
    }
    assert(*a =~= *b);
    true
}

/// One validator's verdict on a CDN node for an era, as stored on chain.
#[derive(Debug, PartialEq, Eq)]
pub struct ValidationResult {
    pub era: String,
    pub signer: AccountId,
    pub val_res: bool,
    pub cdn_node_pub_key: String,
}

/// The record that `save_validated_data` stores for a signed call.
pub open spec fn validation_record(
    r: ValidationResult,
    signer: AccountId,
    val_res: bool,
    cdn_node_pub_key: Seq<char>,
    era: Seq<char>,
) -> bool {
    &&& r.signer == signer
    &&& r.val_res == val_res
    &&& r.cdn_node_pub_key@ == cdn_node_pub_key
    &&& r.era@ == era
}

/// Appends the verdict of a signed call to `results`; an unsigned call is
/// refused with `BadOrigin` and changes nothing.
pub fn append_validation_result(
    results: &mut Vec<ValidationResult>,
    origin: Origin,
    val_res: bool,
    cdn_node_pub_key: String,
    era: String,
) -> (r: Result<(), DispatchError>)
    ensures
        match origin {
            Origin::Signed(signer) => {
                &&& r is Ok
                &&& final(results)@.len() == old(results)@.len() + 1
                &&& final(results)@.take(old(results)@.len() as int) == old(results)@
                &&& validation_record(
                    final(results)@.last(),
                    signer,
                    val_res,
                    cdn_node_pub_key@,
                    era@,
                )
            },
            _ => r == Err::<(), DispatchError>(DispatchError::BadOrigin) && final(results)@
                == old(results)@,
        },
{
    let signer = match ensure_signed(origin) {
        Ok(who) => who,
        Err(e) => {
            return Err(e);
        },
    };
    let ghost before = results@;
    results.push(ValidationResult { era, val_res, cdn_node_pub_key, signer });
    assert(results@.take(before.len() as int) =~= before);
    Ok(())
}

} // verus!
