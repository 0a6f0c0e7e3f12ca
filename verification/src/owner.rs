//! The owner of an entry as the listing shows it.

use vstd::prelude::*;
use vstd::string::*;
use crate::text::{decimal, decimal_string, lemma_decimal_is_digits};

verus! {

/// The owner as shown: the user name where one was found, and the number of
/// the id where none was.
pub open spec fn owner_text(uid: u32, found: Option<Seq<char>>) -> Seq<char> {
    match found {
        Some(name) => name,
        None => decimal(uid as nat),
    }
}

/// Whether the text holds no NUL character.
pub open spec fn holds_no_nul(text: Seq<char>) -> bool {
    forall|i: int| 0 <= i < text.len() ==> #[trigger] text[i] != '\0'
}

/// Whether `label` is what is shown for the owner with the id `uid`: the
/// number of the id, or a name, which as a name of the user database holds
/// no NUL character.
pub open spec fn is_owner_text(uid: u32, label: Seq<char>) -> bool {
    label == decimal(uid as nat) || exists|name: Seq<char>|
        holds_no_nul(name) && label == #[trigger] owner_text(uid, Some(name))
}

/// Calls `users::get_user_by_uid` and hands back the name of the user that
/// it found, or `None` where it found none or the name is no valid text.
/// Which name comes back depends on the user database of the machine. The
/// contract claims of it only that it holds no NUL character: the crate
/// reads the name as a C string, which ends at the first NUL.
#[verifier::external_body]
fn lookup_user_name(uid: u32) -> (found: Option<String>)
    ensures
        found matches Some(name) ==> holds_no_nul(name@),
{
    match users::get_user_by_uid(uid) {
        Some(user) => user.name().to_str().map(|name| name.to_owned()),
        None => None,
    }
}

/// Chooses what to show for the owner with the id `uid`, given what the
/// lookup of that id found.
pub fn owner_label(uid: u32, found: Option<String>) -> (label: String)
    ensures
        label@ == owner_text(
            uid,
            match found {
                Some(name) => Some(name@),
                None => None,
            },
        ),
{
    match found {
        Some(name) => name,
        None => decimal_string(uid as u64),
    }
}

/// The owner with the id `uid` as shown: the name under which the machine
/// knows the user, or the number where it knows none. What comes back is
/// `owner_label` of whatever the lookup found, so it is the number or a
/// name of the user database, and either way holds no NUL character.
pub fn get_owner(uid: u32) -> (label: String)
    ensures
        is_owner_text(uid, label@),
        holds_no_nul(label@),
{
    let found = lookup_user_name(uid);
    proof {
        lemma_decimal_is_digits(uid as nat);
        if found is Some {
            assert(owner_text(uid, Some(found->0@)) == found->0@);
        }
    }
    owner_label(uid, found)
}

} // verus!
