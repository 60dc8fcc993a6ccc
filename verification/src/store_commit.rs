//! Whether a store mutation takes effect after its save failed: it does when
//! the intended snapshot is found on disk all the same; otherwise the
//! mutation is dropped and the save's error reported.
use vstd::prelude::*;
use crate::text::push_str;

verus! {

/// The outcome of a mutation whose save reported `save_error`, given what
/// the check of the file on disk then found: `Ok(())` keeps the mutation
/// (the intended snapshot is there); an error drops it, quoting the check's
/// own failure when it could not tell.
pub fn store_commit_after_save_error(save_error: String, verified: Result<bool, String>) -> (r: Result<(), String>)
    ensures
        match verified {
            Ok(true) => r is Ok,
            Ok(false) => r matches Err(e) && e@ == save_error@,
            Err(v) => r matches Err(e) && e@ == save_error@ + "; 无法判定 Store 提交是否生效，请重启应用: "@ + v@,
        },
{
    match verified {
        Ok(true) => Ok(()),
        Ok(false) => Err(save_error),
        Err(v) => {
            let mut e = save_error;
            push_str(&mut e, "; 无法判定 Store 提交是否生效，请重启应用: ");
            push_str(&mut e, v.as_str());
            Err(e)
        },
    }
}

} // verus!
