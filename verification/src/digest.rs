//! HTTP digest authentication, as SIP uses it.
use vstd::prelude::*;
use vstd::slice::slice_subrange;
use crate::config::CfgAsterisk;
use crate::entity::AsteriskEntity;
use crate::ident;
use crate::sip;
use crate::sip::SipMessage;
use crate::text;
use crate::text::Text;

verus! {

/// A challenge to authenticate.
#[derive(Debug)]
pub struct DigestChallenge {
    pub realm: String,
    pub nonce: String,
    pub qop: Option<String>,
    pub opaque: Option<String>,
    pub algorithm: Option<String>,
    /// Whether a proxy asks.
    pub proxy: bool,
}

/// What a [`DigestChallenge`] says.
#[verifier::ext_equal]
pub struct ChallengeModel {
    pub realm: Text,
    pub nonce: Text,
    pub qop: Option<Text>,
    pub opaque: Option<Text>,
    pub algorithm: Option<Text>,
    pub proxy: bool,
}

impl View for DigestChallenge {
    type V = ChallengeModel;

    open spec fn view(&self) -> ChallengeModel {
        ChallengeModel {
            realm: self.realm@,
            nonce: self.nonce@,
            qop: sip::opt_string(self.qop),
            opaque: sip::opt_string(self.opaque),
            algorithm: sip::opt_string(self.algorithm),
            proxy: self.proxy,
        }
    }
}

/// What an optional challenge says.
pub open spec fn opt_challenge(o: Option<DigestChallenge>) -> Option<ChallengeModel> {
    match o {
        Some(c) => Some(c@),
        None => None,
    }
}

/// A copy of an optional string.
pub(crate) fn copy_opt(o: &Option<String>) -> (r: Option<String>)
    ensures
        sip::opt_string(r) == sip::opt_string(*o),
{
    match o {
        Some(s) => Some(s.clone()),
        None => None,
    }
}

impl Clone for DigestChallenge {
    fn clone(&self) -> (r: Self)
        ensures
            r@ == self@,
    {
        DigestChallenge {
            realm: self.realm.clone(),
            nonce: self.nonce.clone(),
            qop: copy_opt(&self.qop),
            opaque: copy_opt(&self.opaque),
            algorithm: copy_opt(&self.algorithm),
            proxy: self.proxy,
        }
    }
}

/// One `key=value` parameter: the key in lower case, the value without its quotes.
pub open spec fn param_of(part: Text) -> Option<(Text, Text)> {
    match text::halves(text::trimmed(part), "="@) {
        Some((key, value)) => Some(
            (text::lower(text::trimmed(key)), text::unquoted(text::trimmed(value))),
        ),
        None => None,
    }
}

/// The value of the last parameter with that key.
pub open spec fn param(parts: Seq<Text>, key: Text) -> Option<Text>
    decreases parts.len(),
{
    if parts.len() == 0 {
        None
    } else {
        match param_of(parts.last()) {
            Some((k, v)) if k == key => Some(v),
            _ => param(parts.drop_last(), key),
        }
    }
}

/// The parameters in the value of a challenge header, after the scheme.
pub open spec fn challenge_parts(header: Text) -> Seq<Text> {
    let v = text::trimmed(header);
    let rest = if "digest"@.is_prefix_of(text::lower(v)) {
        text::trimmed(v.skip(6))
    } else {
        v
    };
    text::pieces(rest, ',')
}

/// The challenge in the value of a header; without a nonce there is none.
pub open spec fn challenge_in(header: Text, proxy: bool) -> Option<ChallengeModel> {
    let parts = challenge_parts(header);
    match param(parts, "nonce"@) {
        Some(nonce) => Some(
            ChallengeModel {
                realm: match param(parts, "realm"@) {
                    Some(realm) => realm,
                    None => Seq::empty(),
                },
                nonce,
                qop: param(parts, "qop"@),
                opaque: param(parts, "opaque"@),
                algorithm: param(parts, "algorithm"@),
                proxy,
            },
        ),
        None => None,
    }
}

/// The challenge in a response: of the server, or else of a proxy.
pub open spec fn challenge_of(msg: sip::MessageModel) -> Option<ChallengeModel> {
    match msg.header("WWW-Authenticate"@) {
        Some(h) => challenge_in(h, false),
        None => match msg.header("Proxy-Authenticate"@) {
            Some(h) => challenge_in(h, true),
            None => None,
        },
    }
}

/// The quality of protection to answer with: `auth` where it is offered, else what is offered.
pub open spec fn chosen_qop(qop: Text) -> Text {
    if exists|i: int|
        0 <= i < text::pieces(qop, ',').len() && text::trimmed(#[trigger] text::pieces(qop, ',')[i])
            == "auth"@ {
        "auth"@
    } else {
        qop
    }
}

/// The realm to authenticate in.
pub open spec fn chosen_realm(cfg: CfgAsterisk, c: ChallengeModel) -> Text {
    if c.realm.len() == 0 {
        cfg.realm@
    } else {
        c.realm
    }
}

/// The answer to a challenge: the digest that shows knowledge of the password.
pub open spec fn digest_response(
    cfg: CfgAsterisk,
    method: Text,
    uri: Text,
    c: ChallengeModel,
    cnonce: Text,
) -> Text {
    let ha1 = ident::md5_text(
        cfg.auth_user@ + ":"@ + chosen_realm(cfg, c) + ":"@ + cfg.password@,
    );
    let ha2 = ident::md5_text(method + ":"@ + uri);
    match c.qop {
        Some(qop) => ident::md5_text(
            ha1 + ":"@ + c.nonce + ":"@ + "00000001"@ + ":"@ + cnonce + ":"@ + chosen_qop(qop)
                + ":"@ + ha2,
        ),
        None => ident::md5_text(ha1 + ":"@ + c.nonce + ":"@ + ha2),
    }
}

/// The parameters that go with a quality of protection.
pub open spec fn qop_params(qop: Option<Text>, cnonce: Text) -> Text {
    match qop {
        Some(q) => ", qop="@ + chosen_qop(q) + ", nc="@ + "00000001"@ + ", cnonce=\""@ + cnonce
            + "\""@,
        None => Seq::empty(),
    }
}

/// The opaque parameter, quoted.
pub open spec fn opaque_param(opaque: Option<Text>) -> Text {
    match opaque {
        Some(o) => ", opaque=\""@ + o + "\""@,
        None => Seq::empty(),
    }
}

/// The algorithm parameter.
pub open spec fn algorithm_param(algorithm: Option<Text>) -> Text {
    match algorithm {
        Some(a) => ", algorithm="@ + a,
        None => Seq::empty(),
    }
}

/// The header line that answers a challenge, without its line end.
pub open spec fn authorization(
    cfg: CfgAsterisk,
    method: Text,
    uri: Text,
    c: ChallengeModel,
    cnonce: Text,
) -> Text {
    let name = if c.proxy {
        "Proxy-Authorization"@
    } else {
        "Authorization"@
    };
    name + ": Digest username=\""@ + cfg.auth_user@ + "\", realm=\""@ + chosen_realm(cfg, c)
        + "\", nonce=\""@ + c.nonce + "\", uri=\""@ + uri + "\", response=\""@ + digest_response(
        cfg,
        method,
        uri,
        c,
        cnonce,
    ) + "\""@ + qop_params(c.qop, cnonce) + opaque_param(c.opaque) + algorithm_param(c.algorithm)
}

/// The line that answers an optional challenge, with its line end.
pub open spec fn authorization_line(
    cfg: CfgAsterisk,
    method: Text,
    uri: Text,
    c: Option<ChallengeModel>,
    cnonce: Text,
) -> Text {
    match c {
        Some(c) => authorization(cfg, method, uri, c, cnonce) + "\r\n"@,
        None => Seq::empty(),
    }
}

/// The value of the last parameter with that key.
fn find_param(parts: &Vec<&[char]>, key: &str) -> (r: Option<String>)
    ensures
        sip::opt_string(r) == param(text::spelled(parts@), key@),
{
    let eq: Vec<char> = text::chars_of("=");
    let wanted: Vec<char> = text::chars_of(key);
    let ghost all = text::spelled(parts@);
    let mut i: usize = parts.len();
    assert(all.take(i as int) == all);
    while i > 0
        invariant
            i <= parts@.len(),
            eq@ == "="@,
            wanted@ == key@,
            all == text::spelled(parts@),
            param(all, key@) == param(all.take(i as int), key@),
        decreases i,
    {
        proof {
            assert(all.take(i as int).drop_last() == all.take(i - 1));
            assert(all.take(i as int).last() == parts@[i - 1]@);
        }
        i = i - 1;
        if let Some((k, v)) = text::split_once(text::trim(parts[i]), &eq) {
            let folded: Vec<char> = text::to_lower(text::trim(k));
            if text::same(&folded, &wanted) {
                return Some(text::string_of(text::unquote(text::trim(v))));
            }
        }
    }
    None
}

/// Reads the value of a challenge header.
fn read_challenge(header: &str, proxy: bool) -> (r: Option<DigestChallenge>)
    ensures
        opt_challenge(r) == challenge_in(header@, proxy),
{
    let chars: Vec<char> = text::chars_of(header);
    let v: &[char] = text::trim(&chars);
    let scheme: Vec<char> = text::chars_of("digest");
    proof {
        reveal_strlit("digest");
    }
    let folded: Vec<char> = text::to_lower(v);
    let n: usize = v.len();
    let rest: &[char] = if text::starts_with(&folded, &scheme) {
        text::trim(slice_subrange(v, 6, n))
    } else {
        v
    };
    let parts: Vec<&[char]> = text::split(rest, ',');
    let nonce: String = match find_param(&parts, "nonce") {
        Some(nonce) => nonce,
        None => return None,
    };
    let realm: String = match find_param(&parts, "realm") {
        Some(realm) => realm,
        None => String::new(),
    };
    Some(
        DigestChallenge {
            realm,
            nonce,
            qop: find_param(&parts, "qop"),
            opaque: find_param(&parts, "opaque"),
            algorithm: find_param(&parts, "algorithm"),
            proxy,
        },
    )
}

/// The quality of protection to answer with.
fn choose_qop(qop: &str) -> (r: String)
    ensures
        r@ == chosen_qop(qop@),
{
    let chars: Vec<char> = text::chars_of(qop);
    let parts: Vec<&[char]> = text::split(&chars, ',');
    let auth: Vec<char> = text::chars_of("auth");
    let ghost all = text::pieces(qop@, ',');
    let mut i: usize = 0;
    while i < parts.len()
        invariant
            i <= parts@.len(),
            auth@ == "auth"@,
            all == text::pieces(qop@, ','),
            text::spelled(parts@) == all,
            forall|j: int| 0 <= j < i ==> text::trimmed(#[trigger] all[j]) != "auth"@,
        decreases parts@.len() - i,
    {
        assert(all[i as int] == parts@[i as int]@);
        if text::same(text::trim(parts[i]), &auth) {
            return "auth".to_owned();
        }
        i = i + 1;
    }
    qop.to_owned()
}

impl AsteriskEntity {
    /// The challenge in a response.
    pub fn parse_challenge(msg: &SipMessage) -> (r: Option<DigestChallenge>)
        ensures
            opt_challenge(r) == challenge_of(msg@),
    {
        match msg.header("WWW-Authenticate") {
            Some(h) => read_challenge(h, false),
            None => match msg.header("Proxy-Authenticate") {
                Some(h) => read_challenge(h, true),
                None => None,
            },
        }
    }

    /// The header line that answers a challenge with a fresh client nonce.
    pub fn authorization_header(&self, method: &str, uri: &str, challenge: &DigestChallenge) -> (r:
        String)
        ensures
            exists|id: u128| #[trigger]
                ident::is_random_uuid(id) && r@ == authorization(
                    self@.config,
                    method@,
                    uri@,
                    challenge@,
                    ident::cnonce_of(id),
                ),
    {
        let cnonce: String = ident::fresh_cnonce();
        authorize(&self.config, method, uri, challenge, cnonce.as_str())
    }
}

/// The answer to a challenge.
fn respond(
    cfg: &CfgAsterisk,
    method: &str,
    uri: &str,
    challenge: &DigestChallenge,
    cnonce: &str,
) -> (r: String)
    ensures
        r@ == digest_response(*cfg, method@, uri@, challenge@, cnonce@),
{
    let mut a1: String = cfg.auth_user.clone();
    a1.append(":");
    a1.append(realm_for(cfg, challenge));
    a1.append(":");
    a1.append(cfg.password.as_str());
    let ha1: String = ident::md5_of_text(a1.as_str());
    let mut a2: String = method.to_owned();
    a2.append(":");
    a2.append(uri);
    let ha2: String = ident::md5_of_text(a2.as_str());
    let mut out: String = ha1;
    out.append(":");
    out.append(challenge.nonce.as_str());
    out.append(":");
    if let Some(qop) = &challenge.qop {
        out.append("00000001");
        out.append(":");
        out.append(cnonce);
        out.append(":");
        out.append(choose_qop(qop.as_str()).as_str());
        out.append(":");
    }
    out.append(ha2.as_str());
    ident::md5_of_text(out.as_str())
}

/// The realm to authenticate in.
fn realm_for<'a>(cfg: &'a CfgAsterisk, challenge: &'a DigestChallenge) -> (r: &'a str)
    ensures
        r@ == chosen_realm(*cfg, challenge@),
{
    if challenge.realm.as_str().is_empty() {
        cfg.realm.as_str()
    } else {
        challenge.realm.as_str()
    }
}

/// The parameters that go with a quality of protection.
fn format_qop(qop: &Option<String>, cnonce: &str) -> (r: String)
    ensures
        r@ == qop_params(sip::opt_string(*qop), cnonce@),
{
    match qop {
        Some(q) => {
            let mut out: String = ", qop=".to_owned();
            out.append(choose_qop(q.as_str()).as_str());
            out.append(", nc=");
            out.append("00000001");
            out.append(", cnonce=\"");
            out.append(cnonce);
            out.append("\"");
            out
        },
        None => String::new(),
    }
}

/// The opaque parameter.
fn format_opaque(opaque: &Option<String>) -> (r: String)
    ensures
        r@ == opaque_param(sip::opt_string(*opaque)),
{
    match opaque {
        Some(o) => {
            let mut out: String = ", opaque=\"".to_owned();
            out.append(o.as_str());
            out.append("\"");
            out
        },
        None => String::new(),
    }
}

/// The algorithm parameter.
fn format_algorithm(algorithm: &Option<String>) -> (r: String)
    ensures
        r@ == algorithm_param(sip::opt_string(*algorithm)),
{
    match algorithm {
        Some(a) => {
            let mut out: String = ", algorithm=".to_owned();
            out.append(a.as_str());
            out
        },
        None => String::new(),
    }
}

/// The header line that answers a challenge with the given client nonce.
pub fn authorize(
    cfg: &CfgAsterisk,
    method: &str,
    uri: &str,
    challenge: &DigestChallenge,
    cnonce: &str,
) -> (r: String)
    ensures
        r@ == authorization(*cfg, method@, uri@, challenge@, cnonce@),
{
    let mut out: String = if challenge.proxy {
        "Proxy-Authorization".to_owned()
    } else {
        "Authorization".to_owned()
    };
    out.append(": Digest username=\"");
    out.append(cfg.auth_user.as_str());
    out.append("\", realm=\"");
    out.append(realm_for(cfg, challenge));
    out.append("\", nonce=\"");
    out.append(challenge.nonce.as_str());
    out.append("\", uri=\"");
    out.append(uri);
    out.append("\", response=\"");
    out.append(respond(cfg, method, uri, challenge, cnonce).as_str());
    out.append("\"");
    out.append(format_qop(&challenge.qop, cnonce).as_str());
    out.append(format_opaque(&challenge.opaque).as_str());
    out.append(format_algorithm(&challenge.algorithm).as_str());
    out
}

/// The line that answers an optional challenge, with its line end.
pub(crate) fn authorize_line(
    cfg: &CfgAsterisk,
    method: &str,
    uri: &str,
    challenge: &Option<DigestChallenge>,
    cnonce: &str,
) -> (r: String)
    ensures
        r@ == authorization_line(*cfg, method@, uri@, opt_challenge(*challenge), cnonce@),
{
    match challenge {
        Some(c) => {
            let mut out: String = authorize(cfg, method, uri, c, cnonce);
            out.append("\r\n");
            out
        },
        None => String::new(),
    }
}

} // verus!
