//! What holds of the numbers that calls are for: the radio that an address names is found.
use vstd::prelude::*;
use crate::fields;
use crate::laws::reading;
use crate::text;
use crate::text::Text;

verus! {

/// Whether a text can stand as the user part of an address: it is a single word, does not hold
/// what ends a user part, and has no quotes at its ends.
pub open spec fn is_user(s: Text) -> bool {
    &&& reading::is_word(s)
    &&& forall|i: int| 0 <= i < s.len() ==> !fields::ends_user(#[trigger] s[i])
    &&& s[0] != '"'
    &&& s.last() != '"'
}

/// The address of a user at a host.
pub open spec fn address_at(user: Text, host: Text) -> Text {
    "sip:"@ + user + "@"@ + host
}

/// The user in an address is found.
pub proof fn law_users_are_found(user: Text, host: Text)
    requires
        is_user(user),
        reading::is_word(host),
    ensures
        fields::uri_user(address_at(user, host)) == Some(user),
{
    reveal_strlit("sip:");
    reveal_strlit("@");
    let v = address_at(user, host);
    assert(v[0] == 's');
    assert(v.last() == host[host.len() - 1]);
    assert(!text::is_white(host[host.len() - 1]));
    reading::lemma_trimmed(v);
    let low = text::lower(v);
    assert("sip:"@.is_prefix_of(low)) by {
        assert(low.subrange(0, 4) =~= "sip:"@);
    }
    assert(text::position(low, "sip:"@) == Some(0int));
    let rest = "@"@ + host;
    assert(v.skip(4) =~= user + rest);
    lemma_user_part(user, rest);
    assert(!text::is_white(user[0]));
    assert(!text::is_white(user[user.len() - 1]));
    reading::lemma_trimmed(user);
    let q = |c: char| c == '"';
    assert(!q(user[0]) && !q(user.last()));
    assert(text::unquoted(user) == user);
}

pub(crate) proof fn lemma_user_part(user: Text, rest: Text)
    requires
        forall|i: int| 0 <= i < user.len() ==> !fields::ends_user(#[trigger] user[i]),
        rest.len() > 0,
        fields::ends_user(rest[0]),
    ensures
        fields::user_part(user + rest) == user,
    decreases user.len(),
{
    let s = user + rest;
    if user.len() == 0 {
        assert(s =~= rest);
        assert(fields::user_part(s) =~= user);
    } else {
        assert(!fields::ends_user(user[0]));
        assert(s[0] == user[0]);
        assert(s.drop_first() =~= user.drop_first() + rest);
        lemma_user_part(user.drop_first(), rest);
        assert(seq![user[0]] + user.drop_first() =~= user);
    }
}

/// A prefix and a number make a user.
pub(crate) proof fn lemma_prefixed_user(n: u32, prefix: Text)
    requires
        is_user(prefix),
    ensures
        is_user(prefix + text::decimal(n as nat)),
{
    let digits = text::decimal(n as nat);
    let user = prefix + digits;
    reading::law_numbers_are_read_back(n as nat, u32::MAX as nat);
    assert forall|i: int| 0 <= i < user.len() implies !text::is_white(#[trigger] user[i])
        && !fields::ends_user(user[i]) by {
        if i < prefix.len() {
            assert(user[i] == prefix[i]);
        } else {
            assert(user[i] == digits[i - prefix.len()]);
            assert('0' <= digits[i - prefix.len()] <= '9');
        }
    }
    assert(user[0] == prefix[0]);
    assert(user.last() == digits[digits.len() - 1]);
    assert('0' <= digits[digits.len() - 1] <= '9');
}

/// A radio is called by its number after the prefix, or by its bare number if that does not
/// happen to begin with the prefix.
pub proof fn law_radios_are_found(n: u32, prefix: Text, host: Text)
    requires
        reading::is_word(host),
    ensures
        is_user(prefix) ==> fields::address_issi(
            Some(address_at(prefix + text::decimal(n as nat), host)),
            prefix,
        ) == Some(n as nat),
        !prefix.is_prefix_of(text::decimal(n as nat)) || prefix.len() == 0
            ==> fields::address_issi(Some(address_at(text::decimal(n as nat), host)), prefix)
            == Some(n as nat),
{
    let digits = text::decimal(n as nat);
    reading::law_numbers_are_read_back(n as nat, u32::MAX as nat);
    assert forall|i: int| 0 <= i < digits.len() implies !fields::ends_user(#[trigger] digits[i])
        && digits[i] != '"' by {
        assert('0' <= digits[i] <= '9');
    }
    assert(is_user(digits)) by {
        assert(digits[0] != '"');
        assert(digits[digits.len() - 1] != '"');
    }
    law_users_are_found(digits, host);
    if is_user(prefix) {
        let user = prefix + digits;
        lemma_prefixed_user(n, prefix);
        law_users_are_found(user, host);
        assert(prefix.is_prefix_of(user)) by {
            assert(user.subrange(0, prefix.len() as int) =~= prefix);
        }
        assert(user.skip(prefix.len() as int) =~= digits);
    }
}

} // verus!
