//! The fields of SIP headers that calls depend on: tags, contact addresses, users and numbers.
use vstd::prelude::*;
use vstd::slice::slice_subrange;
use crate::entity::AsteriskEntity;
use crate::net::SocketAddr;
use crate::sip;
use crate::sip::SipMessage;
use crate::text;
use crate::text::Text;

verus! {

/// The tag that the first of `parts` to carry one carries.
pub open spec fn tag_among(parts: Seq<Text>) -> Option<Text>
    decreases parts.len(),
{
    if parts.len() == 0 {
        None
    } else {
        match text::after_prefix(text::trimmed(parts[0]), "tag="@) {
            Some(tag) => Some(text::unquoted(tag)),
            None => tag_among(parts.drop_first()),
        }
    }
}

/// The tag parameter of a From or To header.
pub open spec fn to_tag(header: Option<Text>) -> Option<Text> {
    match header {
        Some(h) => tag_among(text::pieces(h, ';')),
        None => None,
    }
}

/// What a Contact header points at: the text in the first pair of angle brackets, or else all
/// that comes before the first semicolon.
pub open spec fn contact_target(header: Text) -> Option<Text> {
    let value = text::trimmed(header);
    match text::halves(value, "<"@) {
        Some((_, rest)) => match text::halves(rest, ">"@) {
            Some((uri, _)) => Some(uri),
            None => None,
        },
        None => Some(text::trimmed(text::pieces(value, ';')[0])),
    }
}

/// The URI in a Contact header, if it is a SIP URI.
pub open spec fn contact_uri(header: Option<Text>) -> Option<Text> {
    match header {
        Some(h) => match contact_target(h) {
            Some(uri) => if "sip"@.is_prefix_of(text::lower(uri)) {
                Some(uri)
            } else {
                None
            },
            None => None,
        },
        None => None,
    }
}

/// Whether `c` ends the user part of a SIP URI.
pub open spec fn ends_user(c: char) -> bool {
    c == '@' || c == ';' || c == '?' || c == '>'
}

/// The characters of `s` before the first that ends a user part.
pub open spec fn user_part(s: Text) -> Text
    decreases s.len(),
{
    if s.len() > 0 && !ends_user(s[0]) {
        seq![s[0]] + user_part(s.drop_first())
    } else {
        Seq::empty()
    }
}

/// The user that an address names: what follows the first `sip:`, or the whole value if there
/// is none, up to the end of the user part.
pub open spec fn uri_user(value: Text) -> Option<Text> {
    let v = text::trimmed(value);
    let after_scheme = match text::position(text::lower(v), "sip:"@) {
        Some(i) => v.skip(i + 4),
        None => v,
    };
    let user = text::unquoted(text::trimmed(user_part(after_scheme)));
    if user.len() == 0 {
        None
    } else {
        Some(user)
    }
}

/// The radio number that a user denotes, after the prefix if it has it.
pub open spec fn issi_of(user: Text, prefix: Text) -> Option<nat> {
    let digits = if prefix.len() > 0 && prefix.is_prefix_of(user) {
        user.skip(prefix.len() as int)
    } else {
        user
    };
    if text::all_digits(digits) {
        text::number(digits, u32::MAX as nat)
    } else {
        None
    }
}

/// The radio number in an address.
pub open spec fn address_issi(address: Option<Text>, prefix: Text) -> Option<nat> {
    match address {
        Some(a) => match uri_user(a) {
            Some(user) => issi_of(user, prefix),
            None => None,
        },
        None => None,
    }
}

/// The radio that a request is for: the one that the Request-URI names, or else the one in To.
pub open spec fn destination_issi(msg: sip::MessageModel, prefix: Text) -> Option<nat> {
    match address_issi(msg.request_uri(), prefix) {
        Some(issi) => Some(issi),
        None => address_issi(msg.header("To"@), prefix),
    }
}

/// The user in an address.
pub open spec fn address_user(address: Option<Text>) -> Option<Text> {
    match address {
        Some(a) => uri_user(a),
        None => None,
    }
}

/// The number of the caller: the first user among the asserted identity, the remote party and
/// From, or `0`.
pub open spec fn caller_number(msg: sip::MessageModel) -> Text {
    match address_user(msg.header("P-Asserted-Identity"@)) {
        Some(user) => user,
        None => match address_user(msg.header("Remote-Party-ID"@)) {
            Some(user) => user,
            None => match address_user(msg.header("From"@)) {
                Some(user) => user,
                None => "0"@,
            },
        },
    }
}

/// A To header with the tag added, unless it has a tag already.
pub open spec fn with_tag(to: Text, tag: Option<Text>) -> Text {
    match tag {
        Some(t) => if text::position(text::lower(to), ";tag="@) is Some {
            to
        } else {
            to + ";tag="@ + t
        },
        None => to,
    }
}

/// The headers of a request that its responses repeat, and where the request came from.
pub struct SipRequestContext {
    pub via: String,
    pub from: String,
    pub to: String,
    pub call_id: String,
    pub cseq: String,
    pub addr: SocketAddr,
}

/// What a [`SipRequestContext`] says.
#[verifier::ext_equal]
pub struct ContextModel {
    pub via: Text,
    pub from: Text,
    pub to: Text,
    pub call_id: Text,
    pub cseq: Text,
    pub addr: SocketAddr,
}

impl View for SipRequestContext {
    type V = ContextModel;

    open spec fn view(&self) -> ContextModel {
        ContextModel {
            via: self.via@,
            from: self.from@,
            to: self.to@,
            call_id: self.call_id@,
            cseq: self.cseq@,
            addr: self.addr,
        }
    }
}

impl Clone for SipRequestContext {
    fn clone(&self) -> (r: Self)
        ensures
            r@ == self@,
    {
        SipRequestContext {
            via: self.via.clone(),
            from: self.from.clone(),
            to: self.to.clone(),
            call_id: self.call_id.clone(),
            cseq: self.cseq.clone(),
            addr: self.addr,
        }
    }
}

/// The context of a request that has all five headers.
pub open spec fn context_of(msg: sip::MessageModel, addr: SocketAddr) -> Option<ContextModel> {
    let via = msg.header("Via"@);
    let from = msg.header("From"@);
    let to = msg.header("To"@);
    let call_id = msg.header("Call-ID"@);
    let cseq = msg.header("CSeq"@);
    if via is Some && from is Some && to is Some && call_id is Some && cseq is Some {
        Some(
            ContextModel {
                via: via->0,
                from: from->0,
                to: to->0,
                call_id: call_id->0,
                cseq: cseq->0,
                addr,
            },
        )
    } else {
        None
    }
}

/// The characters of `s` before the first that ends a user part.
fn take_user(s: &[char]) -> (r: &[char])
    ensures
        r@ == user_part(s@),
{
    let mut i: usize = 0;
    assert(s@.skip(0) == s@);
    assert(s@.take(0) + user_part(s@) == user_part(s@));
    while i < s.len() && !(s[i] == '@' || s[i] == ';' || s[i] == '?' || s[i] == '>')
        invariant
            i <= s@.len(),
            user_part(s@) == s@.take(i as int) + user_part(s@.skip(i as int)),
        decreases s@.len() - i,
    {
        proof {
            assert(s@.skip(i as int).drop_first() == s@.skip(i + 1));
            assert(s@.take(i + 1) == s@.take(i as int) + seq![s@[i as int]]);
            assert(s@.take(i as int) + (seq![s@[i as int]] + user_part(s@.skip(i + 1)))
                == s@.take(i as int) + seq![s@[i as int]] + user_part(s@.skip(i + 1)));
        }
        i = i + 1;
    }
    assert(s@.take(i as int) + Seq::<char>::empty() == s@.take(i as int));
    slice_subrange(s, 0, i)
}

impl AsteriskEntity {
    /// The tag in a From or To header.
    pub fn parse_to_tag(header: Option<&str>) -> (r: Option<String>)
        ensures
            sip::opt_string(r) == to_tag(sip::opt_text(header)),
    {
        let h = match header {
            Some(h) => h,
            None => return None,
        };
        let chars: Vec<char> = text::chars_of(h);
        let parts: Vec<&[char]> = text::split(&chars, ';');
        let key: Vec<char> = text::chars_of("tag=");
        let ghost all = text::pieces(h@, ';');
        let mut i: usize = 0;
        assert(all.skip(0) == all);
        while i < parts.len()
            invariant
                i <= parts@.len(),
                key@ == "tag="@,
                text::spelled(parts@) == all,
                tag_among(all) == tag_among(all.skip(i as int)),
                header is Some,
                all == text::pieces(header->0@, ';'),
            decreases parts@.len() - i,
        {
            proof {
                assert(all.skip(i as int).drop_first() == all.skip(i + 1));
                assert(all.skip(i as int)[0] == parts@[i as int]@);
            }
            if let Some(tag) = text::strip_prefix(text::trim(parts[i]), &key) {
                return Some(text::string_of(text::unquote(tag)));
            }
            i = i + 1;
        }
        None
    }

    /// Remote target for in-dialog requests: the bare URI inside the peer's Contact header.
    pub fn parse_contact_uri(header: Option<&str>) -> (r: Option<String>)
        ensures
            sip::opt_string(r) == contact_uri(sip::opt_text(header)),
    {
        let h = match header {
            Some(h) => h,
            None => return None,
        };
        let chars: Vec<char> = text::chars_of(h);
        let value: &[char] = text::trim(&chars);
        let open: Vec<char> = text::chars_of("<");
        let close: Vec<char> = text::chars_of(">");
        let scheme: Vec<char> = text::chars_of("sip");
        let uri: &[char] = match text::split_once(value, &open) {
            Some((_, rest)) => match text::split_once(rest, &close) {
                Some((uri, _)) => uri,
                None => return None,
            },
            None => {
                let parts: Vec<&[char]> = text::split(value, ';');
                assert(text::spelled(parts@).len() > 0);
                text::trim(parts[0])
            },
        };
        let folded: Vec<char> = text::to_lower(uri);
        if text::starts_with(&folded, &scheme) {
            Some(text::string_of(uri))
        } else {
            None
        }
    }

    /// The user that an address names.
    pub fn sip_uri_user(value: &str) -> (r: Option<String>)
        ensures
            sip::opt_string(r) == uri_user(value@),
    {
        let chars: Vec<char> = text::chars_of(value);
        let v: &[char] = text::trim(&chars);
        let scheme: Vec<char> = text::chars_of("sip:");
        proof {
            reveal_strlit("sip:");
        }
        let folded: Vec<char> = text::to_lower(v);
        let n: usize = v.len();
        let after_scheme: &[char] = match text::find(&folded, &scheme) {
            Some(i) => slice_subrange(v, i + 4, n),
            None => v,
        };
        let user: &[char] = text::unquote(text::trim(take_user(after_scheme)));
        if user.len() == 0 {
            None
        } else {
            Some(text::string_of(user))
        }
    }

    /// A To header with the tag added, unless it has a tag already.
    pub fn tagged_to(to: &str, tag: Option<&str>) -> (r: String)
        ensures
            r@ == with_tag(to@, sip::opt_text(tag)),
    {
        let mut out: String = to.to_owned();
        if let Some(t) = tag {
            let folded: Vec<char> = text::to_lower(&text::chars_of(to));
            let key: Vec<char> = text::chars_of(";tag=");
            if text::find(&folded, &key).is_none() {
                out.append(";tag=");
                out.append(t);
            }
        }
        out
    }

    /// The context of a request that has all the headers that a response repeats.
    pub fn request_context(msg: &SipMessage, addr: SocketAddr) -> (r: Option<SipRequestContext>)
        ensures
            match r {
                Some(ctx) => context_of(msg@, addr) == Some(ctx@),
                None => context_of(msg@, addr) is None,
            },
    {
        let via = msg.header("Via");
        let from = msg.header("From");
        let to = msg.header("To");
        let call_id = msg.header("Call-ID");
        let cseq = msg.header("CSeq");
        match (via, from, to, call_id, cseq) {
            (Some(via), Some(from), Some(to), Some(call_id), Some(cseq)) => Some(
                SipRequestContext {
                    via: via.to_owned(),
                    from: from.to_owned(),
                    to: to.to_owned(),
                    call_id: call_id.to_owned(),
                    cseq: cseq.to_owned(),
                    addr,
                },
            ),
            _ => None,
        }
    }

    /// The number of the caller.
    pub fn inbound_caller_number(msg: &SipMessage) -> (r: String)
        ensures
            r@ == caller_number(msg@),
    {
        match Self::header_user(msg, "P-Asserted-Identity") {
            Some(user) => user,
            None => match Self::header_user(msg, "Remote-Party-ID") {
                Some(user) => user,
                None => match Self::header_user(msg, "From") {
                    Some(user) => user,
                    None => "0".to_owned(),
                },
            },
        }
    }

    /// The user in the address that a header carries.
    fn header_user(msg: &SipMessage, name: &str) -> (r: Option<String>)
        ensures
            sip::opt_string(r) == address_user(msg@.header(name@)),
    {
        match msg.header(name) {
            Some(value) => Self::sip_uri_user(value),
            None => None,
        }
    }

    /// The radio number in an address.
    fn parse_issi(address: Option<&str>, prefix: &[char]) -> (r: Option<u32>)
        ensures
            match r {
                Some(n) => address_issi(sip::opt_text(address), prefix@) == Some(n as nat),
                None => address_issi(sip::opt_text(address), prefix@) is None,
            },
    {
        let a = match address {
            Some(a) => a,
            None => return None,
        };
        let user: Vec<char> = match Self::sip_uri_user(a) {
            Some(user) => text::chars_of(user.as_str()),
            None => return None,
        };
        let n: usize = user.len();
        let digits: &[char] = if prefix.len() > 0 && text::starts_with(&user, prefix) {
            slice_subrange(&user, prefix.len(), n)
        } else {
            &user
        };
        if text::digits_only(digits) {
            text::parse_number(digits, u32::MAX)
        } else {
            None
        }
    }

    /// The radio that a request is for.
    pub fn inbound_destination(msg: &SipMessage, inbound_prefix: &str) -> (r: Option<u32>)
        ensures
            match r {
                Some(n) => destination_issi(msg@, text::trimmed(inbound_prefix@)) == Some(n as nat),
                None => destination_issi(msg@, text::trimmed(inbound_prefix@)) is None,
            },
    {
        let chars: Vec<char> = text::chars_of(inbound_prefix);
        let prefix: &[char] = text::trim(&chars);
        match Self::parse_issi(msg.request_uri(), prefix) {
            Some(issi) => Some(issi),
            None => Self::parse_issi(msg.header("To"), prefix),
        }
    }
}

} // verus!
