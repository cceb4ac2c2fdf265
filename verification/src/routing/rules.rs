//! How a recipient address names an application.

use crate::text::{chars_of, find_first, first_index, lemma_first_index, opt_view, string_of_range};
use vstd::prelude::*;

verus! {

/// One destination of a message: the application and its queue.
#[derive(Debug, Clone, PartialEq, Eq)]
pub struct RouteDestination {
    pub app_name: String,
    pub queue_url: String,
}

impl View for RouteDestination {
    type V = (Seq<char>, Seq<char>);

    open spec fn view(&self) -> (Seq<char>, Seq<char>) {
        (self.app_name@, self.queue_url@)
    }
}

/// The part of `address` before its first `@`; all of it when it has none.
pub open spec fn local_part(address: Seq<char>) -> Seq<char> {
    address.take(first_index(address, '@'))
}

/// The application that `address` names: what follows the leading `_` of its
/// local part, if the local part starts with `_`.
pub open spec fn app_name_of(address: Seq<char>) -> Option<Seq<char>> {
    let local = local_part(address);
    if local.len() > 0 && local[0] == '_' {
        Some(local.skip(1))
    } else {
        None
    }
}

/// An address names an application exactly when its local part starts with
/// `_`, and the name is the local part without that `_`.
pub proof fn lemma_app_name_iff_underscore(address: Seq<char>)
    ensures
        app_name_of(address) is Some <==> local_part(address).len() > 0 && local_part(address)[0]
            == '_',
        app_name_of(address) matches Some(name) ==> name == local_part(address).skip(1)
            && local_part(address) == seq!['_'] + name,
{
    let local = local_part(address);
    if local.len() > 0 && local[0] == '_' {
        assert(local =~= seq!['_'] + local.skip(1));
    }
}

/// The application that a recipient address names, if any:
/// `_billing@acme.com` names `billing`, `user@acme.com` names none.
pub fn extract_app_name(email: &str) -> (r: Option<String>)
    ensures
        opt_view(r) == app_name_of(email@),
{
    let v = chars_of(email);
    let at = find_first(&v, '@');
    proof {
        lemma_first_index(v@, '@');
    }
    if at > 0 && v[0] == '_' {
        let name = string_of_range(&v, 1, at);
        assert(v@.subrange(1, at as int) =~= v@.take(at as int).skip(1));
        Some(name)
    } else {
        None
    }
}

} // verus!
