use vstd::prelude::*;

use crate::{is_generated_name, is_name_char, NAME_LEN};

verus! {

/// Relies on rand's `Alphanumeric` distribution: every sampled value is an
/// ASCII letter or digit (`a-z`, `A-Z`, `0-9`), as its documentation states.
/// Which characters come back is random; nothing more is assumed, and two
/// calls may differ.
#[verifier::external_body]
fn random_alphanumeric(len: usize) -> (r: String)
    ensures
        r@.len() == len,
        forall|i: int| 0 <= i < r@.len() ==> is_name_char(#[trigger] r@[i]),
{
    rand::Rng::sample_iter(rand::thread_rng(), &rand::distributions::Alphanumeric)
        .take(len)
        .map(char::from)
        .collect()
}

/// Draws a fresh identifier: `NAME_LEN` random alphanumeric characters.
///
/// One upload draws twice, once for the stored filename's stem and once for
/// the deletion ticket; the two draws are independent, and neither is derived
/// from the other.
pub fn generate_name() -> (r: String)
    ensures
        is_generated_name(r@),
{
    random_alphanumeric(NAME_LEN)
}

/// Relies on rand's `SliceRandom::choose`: `None` exactly on an empty slice,
/// otherwise some element of it. Which element comes back is random.
#[verifier::external_body]
fn choose_slice<'a>(items: &'a [String]) -> (r: Option<&'a String>)
    ensures
        match r {
            Some(s) => exists|i: int| 0 <= i < items@.len() && s@ == (#[trigger] items@[i])@,
            None => items@.len() == 0,
        },
{
    rand::seq::SliceRandom::choose(items, &mut rand::thread_rng())
}

/// Picks a response base URL uniformly from a non-empty pool.
pub fn choose_base_url<'a>(pool: &'a Vec<String>) -> (r: &'a String)
    requires
        pool@.len() > 0,
    ensures
        exists|i: int| 0 <= i < pool@.len() && r@ == (#[trigger] pool@[i])@,
{
    match choose_slice(pool.as_slice()) {
        Some(s) => s,
        None => {
            // The wrapper promises `Some` on a non-empty slice.
            unreached()
        },
    }
}

} // verus!
