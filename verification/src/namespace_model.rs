use vstd::prelude::*;
use crate::error::ReportError;
use crate::text::{copy_texts, same_text};

verus! {

/// One entry of the namespace registry: an account and the namespaces it owns.
#[derive(Clone, Debug, PartialEq, Eq)]
pub struct Namespace {
    pub account: String,
    pub namespaces: Vec<String>,
}

/// Entry `index` is the first one of the registry that belongs to `account`.
pub open spec fn is_first_entry(registry: Seq<Namespace>, account: Seq<char>, index: int) -> bool {
    &&& 0 <= index < registry.len()
    &&& registry[index].account@ == account
    &&& forall|j: int| 0 <= j < index ==> registry[j].account@ != account
}

/// The registry holds an entry for `account`.
pub open spec fn has_entry(registry: Seq<Namespace>, account: Seq<char>) -> bool {
    exists|i: int| 0 <= i < registry.len() && registry[i].account@ == account
}

/// The namespaces registered for `account`, in the order in which the entry lists them.
///
/// An account without an entry is an error, not an empty list. Where several
/// entries name the account, the first one in registry order is taken.
pub fn lookup_namespaces(registry: &Vec<Namespace>, account: &str) -> (found: Result<
    Vec<String>,
    ReportError,
>)
    ensures
        found is Ok <==> has_entry(registry@, account@),
        found matches Ok(names) ==> exists|i: int|
            is_first_entry(registry@, account@, i) && names@ == registry@[i].namespaces@,
        found matches Err(e) ==> e == ReportError::LookupNotFound,
{
    let mut i: usize = 0;
    while i < registry.len()
        invariant
            i <= registry@.len(),
            forall|j: int| 0 <= j < i ==> registry@[j].account@ != account@,
        decreases registry@.len() - i,
    {
        if same_text(registry[i].account.as_str(), account) {
            let names = copy_texts(&registry[i].namespaces);
            assert(is_first_entry(registry@, account@, i as int));
            return Ok(names);
        }
        i += 1;
    }
    Err(ReportError::LookupNotFound)
}

} // verus!
