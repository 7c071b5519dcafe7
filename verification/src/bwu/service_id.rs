//! Service ids of the two sides of an upgrade.
//!
//! The side that starts an upgrade keeps its state under a wrapped service id, the
//! plain id with a postfix, so that the mediums of the upgrade are told apart from
//! those used for advertising and discovery. The other side uses the plain id.

use vstd::prelude::*;

use crate::text;

verus! {

/// Stands for the service of an endpoint that has no channel.
pub const UNKNOWN_SERVICE_ID: &'static str = "UNKNOWN_SERVICE";

/// The postfix of a wrapped service id.
pub const INITIATOR_UPGRADE_SERVICE_ID_POSTFIX: &'static str = "_UPGRADE";

/// A service id with the postfix.
pub open spec fn is_wrapped(service_id: Seq<char>) -> bool {
    service_id.len() > 0 && text::ends_in(service_id, INITIATOR_UPGRADE_SERVICE_ID_POSTFIX@)
}

/// The id with the postfix added, unless it is empty or has it already.
pub open spec fn wrapped(service_id: Seq<char>) -> Seq<char> {
    if service_id.len() == 0 || is_wrapped(service_id) {
        service_id
    } else {
        service_id + INITIATOR_UPGRADE_SERVICE_ID_POSTFIX@
    }
}

/// The id with the postfix taken off, if it has it.
pub open spec fn unwrapped(service_id: Seq<char>) -> Seq<char> {
    if is_wrapped(service_id) {
        service_id.take(service_id.len() - INITIATOR_UPGRADE_SERVICE_ID_POSTFIX@.len())
    } else {
        service_id
    }
}

/// Whether `service_id` has the postfix.
pub fn is_initiator_upgrade_service_id(service_id: &str) -> (r: bool)
    ensures
        r == is_wrapped(service_id@),
{
    !service_id.is_empty() && text::ends_with(service_id, INITIATOR_UPGRADE_SERVICE_ID_POSTFIX)
}

/// Adds the postfix to `service_id`, unless it is empty or has it already.
pub fn wrap_initiator_upgrade_service_id(service_id: &str) -> (r: String)
    ensures
        r@ == wrapped(service_id@),
{
    if service_id.is_empty() || is_initiator_upgrade_service_id(service_id) {
        return service_id.to_owned();
    }
    service_id.to_owned().concat(INITIATOR_UPGRADE_SERVICE_ID_POSTFIX)
}

/// Takes the postfix off `service_id`, if it has it.
pub fn unwrap_initiator_upgrade_service_id(service_id: &str) -> (r: String)
    ensures
        r@ == unwrapped(service_id@),
{
    if !is_initiator_upgrade_service_id(service_id) {
        return service_id.to_owned();
    }
    let n: usize = service_id.unicode_len();
    let postfix: usize = INITIATOR_UPGRADE_SERVICE_ID_POSTFIX.unicode_len();
    assert(service_id@.subrange(0, n - postfix) =~= service_id@.take(n - postfix));
    service_id.substring_char(0, n - postfix).to_owned()
}

/// Wrapping an id that is not empty gives a wrapped id.
pub proof fn lemma_wrapped_is_wrapped(service_id: Seq<char>)
    requires
        service_id.len() > 0,
    ensures
        is_wrapped(wrapped(service_id)),
{
    let postfix = INITIATOR_UPGRADE_SERVICE_ID_POSTFIX@;
    if !is_wrapped(service_id) {
        let w = service_id + postfix;
        assert(w.subrange(w.len() - postfix.len(), w.len() as int) =~= postfix);
    }
}

/// Wrapping twice is wrapping once.
pub proof fn lemma_wrapped_twice(service_id: Seq<char>)
    ensures
        wrapped(wrapped(service_id)) == wrapped(service_id),
{
    if service_id.len() > 0 {
        lemma_wrapped_is_wrapped(service_id);
    }
}

/// Unwrapping undoes wrapping. An id that had the postfix before it was wrapped
/// loses it.
pub proof fn lemma_unwrapped_wrapped(service_id: Seq<char>)
    requires
        !is_wrapped(service_id),
    ensures
        unwrapped(wrapped(service_id)) == service_id,
{
    let postfix = INITIATOR_UPGRADE_SERVICE_ID_POSTFIX@;
    if service_id.len() > 0 {
        lemma_wrapped_is_wrapped(service_id);
        let w = service_id + postfix;
        assert(w.take(w.len() - postfix.len()) =~= service_id);
    }
}

/// The postfix is `_UPGRADE`: an id that is not empty and does not end in it gets it, an id
/// that ends in it is left as it is, and what ends in it was wrapped.
pub proof fn lemma_postfix(service_id: Seq<char>)
    ensures
        is_wrapped(service_id) == text::ends_in(service_id, "_UPGRADE"@),
        service_id.len() > 0 && !text::ends_in(service_id, "_UPGRADE"@) ==> wrapped(service_id)
            == service_id + "_UPGRADE"@,
        service_id.len() == 0 || text::ends_in(service_id, "_UPGRADE"@) ==> wrapped(service_id)
            == service_id,
        !text::ends_in(service_id, "_UPGRADE"@) ==> unwrapped(service_id) == service_id,
        unwrapped(service_id + "_UPGRADE"@) == service_id,
{
    reveal_strlit("_UPGRADE");
    let w = service_id + "_UPGRADE"@;
    assert(w.subrange(service_id.len() as int, w.len() as int) =~= "_UPGRADE"@);
    assert(w.take(service_id.len() as int) =~= service_id);
}

/// Two ids that are not empty, and without the postfix, are wrapped to different ones.
pub proof fn lemma_wrapped_apart(a: Seq<char>, b: Seq<char>)
    requires
        !is_wrapped(a),
        !is_wrapped(b),
        wrapped(a) == wrapped(b),
    ensures
        a == b,
{
    lemma_unwrapped_wrapped(a);
    lemma_unwrapped_wrapped(b);
}

} // verus!
