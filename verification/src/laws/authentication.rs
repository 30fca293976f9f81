//! What holds of authentication: that challenges are understood, and that their answers prove
//! the password to whoever reads them.
use vstd::prelude::*;
use crate::config::CfgAsterisk;
use crate::digest;
use crate::digest::ChallengeModel;
use crate::ident;
use crate::laws::offers;
use crate::laws::reading;
use crate::sip::MessageModel;
use crate::text;
use crate::text::Text;
use crate::wire;

verus! {

// ---------------------------------------------------------------------------------------------
// Parameters

/// A parameter: its key, its value, and whether the value is written in quotes.
pub type Param = (Text, Text, bool);

/// How a parameter is written.
pub open spec fn written(p: Param) -> Text {
    p.0 + "="@ + if p.2 {
        "\""@ + p.1 + "\""@
    } else {
        p.1
    }
}

/// How several parameters are written.
pub open spec fn listed(ps: Seq<Param>) -> Text
    decreases ps.len(),
{
    if ps.len() == 0 {
        Seq::empty()
    } else if ps.len() == 1 {
        written(ps[0])
    } else {
        listed(ps.drop_last()) + ", "@ + written(ps.last())
    }
}

/// Whether a text can stand in quotes as the value of a parameter.
pub open spec fn quotable(s: Text) -> bool {
    !s.contains(',') && !s.contains('"')
}

/// Whether a text can stand as the value of a parameter without quotes.
pub open spec fn bare(s: Text) -> bool {
    quotable(s) && text::trimmed(s) == s
}

/// Whether a text can be the key of a parameter.
pub open spec fn is_key(s: Text) -> bool {
    reading::is_word(s) && !s.contains('=') && !s.contains(',')
}

/// Whether a parameter can be written.
pub open spec fn writable(p: Param) -> bool {
    is_key(p.0) && quotable(p.1) && (p.2 || bare(p.1))
}

/// Whether all parameters can be written.
pub open spec fn all_writable(ps: Seq<Param>) -> bool {
    forall|i: int| 0 <= i < ps.len() ==> writable(#[trigger] ps[i])
}

/// The value of the last parameter with that key, in whatever case it is written.
pub open spec fn value_of(ps: Seq<Param>, key: Text) -> Option<Text>
    decreases ps.len(),
{
    if ps.len() == 0 {
        None
    } else if text::lower(ps.last().0) == key {
        Some(ps.last().1)
    } else {
        value_of(ps.drop_last(), key)
    }
}

/// What a header says of a parameter, to whoever reads it.
pub open spec fn said(header: Text, key: Text) -> Option<Text> {
    digest::param(digest::challenge_parts(header), key)
}

/// Parameters that are written after the scheme, in whatever case that is written, are read back,
/// whatever keys and values they have and in whatever order they come.
pub proof fn law_parameters_are_read_back(scheme: Text, ps: Seq<Param>, key: Text)
    requires
        text::lower(scheme) == "digest"@,
        ps.len() > 0,
        all_writable(ps),
    ensures
        said(scheme + " "@ + listed(ps), key) == value_of(ps, key),
{
    reveal_strlit("digest");
    reveal_strlit(" ");
    let l = listed(ps);
    let h = scheme + " "@ + l;
    lemma_listed_ends(ps);
    assert(scheme.len() == text::lower(scheme).len());
    assert(text::lower(scheme)[0] == 'd');
    assert(text::lower_char(scheme[0]) == 'd');
    assert(!text::is_white(scheme[0]));
    assert(h[0] == scheme[0]);
    assert(h.last() == l.last());
    reading::lemma_trimmed(h);
    let low = text::lower(h);
    assert("digest"@.is_prefix_of(low)) by {
        assert(low.subrange(0, 6) =~= text::lower(scheme));
    }
    assert(h.skip(6) =~= seq![' '] + l);
    wire::lemma_trim_space(l);
    reading::lemma_trimmed(l);
    lemma_listed_read(ps, key);
}

/// Parameters after the usual scheme are read back.
proof fn lemma_said(ps: Seq<Param>, key: Text)
    requires
        ps.len() > 0,
        all_writable(ps),
    ensures
        said("Digest "@ + listed(ps), key) == value_of(ps, key),
{
    reveal_strlit("Digest ");
    reveal_strlit("Digest");
    reveal_strlit("digest");
    reveal_strlit(" ");
    assert("Digest "@ =~= "Digest"@ + " "@);
    assert(text::lower("Digest"@) =~= "digest"@);
    law_parameters_are_read_back("Digest"@, ps, key);
}

/// A list of parameters begins and ends with characters that are not white space.
proof fn lemma_listed_ends(ps: Seq<Param>)
    requires
        ps.len() > 0,
        all_writable(ps),
    ensures
        listed(ps).len() > 0,
        !text::is_white(listed(ps)[0]),
        !text::is_white(listed(ps).last()),
    decreases ps.len(),
{
    assert(writable(ps[ps.len() - 1]));
    lemma_written_ends(ps.last());
    if ps.len() > 1 {
        let front = ps.drop_last();
        assert forall|i: int| 0 <= i < front.len() implies writable(#[trigger] front[i]) by {
            assert(writable(ps[i]));
        }
        lemma_listed_ends(front);
        assert(listed(ps)[0] == listed(front)[0]);
    } else {
        assert(ps[0] == ps.last());
    }
}

proof fn lemma_written_ends(p: Param)
    requires
        writable(p),
    ensures
        written(p).len() > 0,
        written(p)[0] == p.0[0],
        !text::is_white(written(p)[0]),
        !text::is_white(written(p).last()),
        !written(p).contains(','),
{
    reveal_strlit("=");
    reveal_strlit("\"");
    let w = written(p);
    assert(!text::is_white(p.0[0]));
    if !p.2 && p.1.len() > 0 {
        reading::lemma_trimmed_ends(p.1);
    }
    assert forall|i: int| 0 <= i < w.len() implies w[i] != ',' by {
        let n = p.0.len();
        if i < n {
            assert(p.0.contains(w[i]));
        } else if i > n {
            if p.2 {
                if n + 1 < i < n + 2 + p.1.len() {
                    assert(w[i] == p.1[i - n - 2]);
                    assert(p.1.contains(w[i]));
                }
            } else {
                assert(w[i] == p.1[i - n - 1]);
                assert(p.1.contains(w[i]));
            }
        }
    }
}

/// One more piece comes last.
proof fn lemma_pieces_last(a: Text, b: Text, sep: char)
    requires
        !b.contains(sep),
    ensures
        text::pieces(a + seq![sep] + b, sep) == text::pieces(a, sep).push(b),
        text::pieces(b, sep) == seq![b],
{
    let pat = seq![sep];
    assert(b + Seq::<char>::empty() =~= b);
    wire::lemma_position_after(b, Seq::empty(), pat);
    assert(!pat.is_prefix_of(Seq::<char>::empty()));
    assert(text::pieces(b, sep) =~= seq![b]);
    lemma_pieces_join(a, b, sep);
    assert(text::pieces(a, sep) + seq![b] =~= text::pieces(a, sep).push(b));
}

/// The pieces of two texts with the separator between them are those of the one and the other.
pub(crate) proof fn lemma_pieces_join(a: Text, b: Text, sep: char)
    ensures
        text::pieces(a + seq![sep] + b, sep) == text::pieces(a, sep) + text::pieces(b, sep),
    decreases a.len(),
{
    let pat = seq![sep];
    let s = a + pat + b;
    let rest = pat + b;
    assert(s =~= a + rest);
    text::lemma_position(a, pat);
    match text::position(a, pat) {
        Some(i) => {
            offers::lemma_position_kept(a, rest, pat);
            assert(s.take(i) =~= a.take(i));
            assert(s.skip(i + 1) =~= a.skip(i + 1) + pat + b);
            lemma_pieces_join(a.skip(i + 1), b, sep);
            assert(seq![a.take(i)] + (text::pieces(a.skip(i + 1), sep) + text::pieces(b, sep))
                =~= (seq![a.take(i)] + text::pieces(a.skip(i + 1), sep)) + text::pieces(b, sep));
        },
        None => {
            assert(!a.contains(sep)) by {
                if a.contains(sep) {
                    let j = choose|j: int| 0 <= j < a.len() && a[j] == sep;
                    assert(pat.is_prefix_of(a.skip(j))) by {
                        assert(a.skip(j).subrange(0, 1) =~= pat);
                    }
                }
            }
            wire::lemma_position_after(a, rest, pat);
            assert(pat.is_prefix_of(rest)) by {
                assert(rest.subrange(0, 1) =~= pat);
            }
            assert(s.take(a.len() as int) =~= a);
            assert(s.skip(a.len() + 1int) =~= b);
        },
    }
}

proof fn lemma_listed_read(ps: Seq<Param>, key: Text)
    requires
        ps.len() > 0,
        all_writable(ps),
    ensures
        digest::param(text::pieces(listed(ps), ','), key) == value_of(ps, key),
    decreases ps.len(),
{
    let p = ps.last();
    let w = written(p);
    assert(writable(ps[ps.len() - 1]));
    lemma_written_ends(p);
    lemma_param_read(p);
    if ps.len() == 1 {
        lemma_pieces_last(Seq::empty(), w, ',');
        assert(ps[0] == p);
        let parts = seq![w];
        assert(parts.drop_last() =~= Seq::empty());
        assert(digest::param(parts.drop_last(), key) is None);
        assert(value_of(ps.drop_last(), key) is None);
    } else {
        let front = ps.drop_last();
        assert forall|i: int| 0 <= i < front.len() implies writable(#[trigger] front[i]) by {
            assert(writable(ps[i]));
        }
        lemma_listed_read(front, key);
        reveal_strlit(", ");
        let b = seq![' '] + w;
        assert(listed(ps) =~= listed(front) + seq![','] + b);
        assert(!b.contains(',')) by {
            if b.contains(',') {
                let i = choose|i: int| 0 <= i < b.len() && b[i] == ',';
                assert(w[i - 1] == ',');
            }
        }
        lemma_pieces_last(listed(front), b, ',');
        let parts = text::pieces(listed(front), ',');
        assert(parts.push(b).drop_last() =~= parts);
    }
}

/// A parameter is read back, with or without a space before it.
proof fn lemma_param_read(p: Param)
    requires
        writable(p),
    ensures
        digest::param_of(written(p)) == Some((text::lower(p.0), p.1)),
        digest::param_of(seq![' '] + written(p)) == Some((text::lower(p.0), p.1)),
{
    reveal_strlit("=");
    reveal_strlit("\"");
    let w = written(p);
    lemma_written_ends(p);
    wire::lemma_trim_space(w);
    reading::lemma_trimmed(w);
    let v = if p.2 {
        "\""@ + p.1 + "\""@
    } else {
        p.1
    };
    let rest = "="@ + v;
    assert(w =~= p.0 + rest);
    wire::lemma_position_after(p.0, rest, "="@);
    assert("="@.is_prefix_of(rest)) by {
        assert(rest.subrange(0, 1) =~= "="@);
    }
    assert(w.take(p.0.len() as int) =~= p.0);
    assert(w.skip(p.0.len() + 1int) =~= v);
    assert(!text::is_white(p.0[0]) && !text::is_white(p.0[p.0.len() - 1]));
    reading::lemma_trimmed(p.0);
    let q = |c: char| c == '"';
    if p.2 {
        assert(v[0] == '"' && v.last() == '"');
        reading::lemma_trimmed(v);
        let inner = p.1 + "\""@;
        assert(v.drop_first() =~= inner);
        if p.1.len() == 0 {
            assert(inner =~= "\""@);
            assert(inner.drop_first() =~= p.1);
            assert(text::strip_start(p.1, q) == p.1);
            assert(text::strip_start(inner, q) == p.1);
            assert(text::strip_start(v, q) == p.1);
            assert(text::strip_end(p.1, q) == p.1);
        } else {
            assert(p.1.contains(p.1[0]) && p.1.contains(p.1.last()));
            assert(inner[0] == p.1[0]);
            assert(text::strip_start(inner, q) == inner);
            assert(text::strip_start(v, q) == inner);
            assert(inner.drop_last() =~= p.1);
            assert(text::strip_end(p.1, q) == p.1);
            assert(text::strip_end(inner, q) == p.1);
        }
    } else if p.1.len() > 0 {
        assert(p.1.contains(p.1[0]) && p.1.contains(p.1.last()));
        assert(text::strip_start(v, q) == v);
    }
    assert(text::unquoted(text::trimmed(v)) == p.1);
}

// ---------------------------------------------------------------------------------------------
// Challenges

/// A challenge is read as its parameters, whatever their order; without a nonce there is none. A
/// challenge of the server counts before that of a proxy.
pub proof fn law_challenges_are_understood(msg: MessageModel, scheme: Text, ps: Seq<Param>)
    requires
        text::lower(scheme) == "digest"@,
        ps.len() > 0,
        all_writable(ps),
    ensures
        ({
            let c = digest::challenge_of(msg);
            let here = scheme + " "@ + listed(ps);
            let www = msg.header("WWW-Authenticate"@);
            let proxy = msg.header("Proxy-Authenticate"@);
            &&& www == Some(here) || (www is None && proxy == Some(here)) ==> {
                &&& c is Some <==> value_of(ps, "nonce"@) is Some
                &&& c is Some ==> {
                    &&& c->0.nonce == value_of(ps, "nonce"@)->0
                    &&& c->0.realm == match value_of(ps, "realm"@) {
                        Some(realm) => realm,
                        None => Seq::empty(),
                    }
                    &&& c->0.qop == value_of(ps, "qop"@)
                    &&& c->0.opaque == value_of(ps, "opaque"@)
                    &&& c->0.algorithm == value_of(ps, "algorithm"@)
                    &&& c->0.proxy <==> www is None
                }
            }
            &&& www is None && proxy is None ==> c is None
        }),
{
    law_parameters_are_read_back(scheme, ps, "nonce"@);
    law_parameters_are_read_back(scheme, ps, "realm"@);
    law_parameters_are_read_back(scheme, ps, "qop"@);
    law_parameters_are_read_back(scheme, ps, "opaque"@);
    law_parameters_are_read_back(scheme, ps, "algorithm"@);
}

// ---------------------------------------------------------------------------------------------
// Answers

/// The MD5 digest of some texts, with colons between them.
pub open spec fn digested(parts: Seq<Text>) -> Text {
    ident::md5_text(colons(parts))
}

/// Some texts with colons between them.
pub open spec fn colons(parts: Seq<Text>) -> Text
    decreases parts.len(),
{
    if parts.len() == 0 {
        Seq::empty()
    } else if parts.len() == 1 {
        parts[0]
    } else {
        colons(parts.drop_last()) + ":"@ + parts.last()
    }
}

/// Whether a list of qualities of protection offers plain authentication.
pub open spec fn offers_auth(qop: Text) -> bool {
    exists|i: int|
        0 <= i < text::pieces(qop, ',').len() && text::trimmed(#[trigger] text::pieces(qop, ',')[i])
            == "auth"@
}

/// The realm that a challenge is answered in: its own, or the configured one if it names none.
pub open spec fn realm_of(cfg: CfgAsterisk, c: ChallengeModel) -> Text {
    if c.realm.len() > 0 {
        c.realm
    } else {
        cfg.realm@
    }
}

/// Whether whoever knows the password and reads `header` can tell that its writer knows it too:
/// the response is the digest of the very values that the header states, of the password and of
/// the method, and the header repeats what the challenge gave.
pub open spec fn proves_password(
    header: Text,
    cfg: CfgAsterisk,
    method: Text,
    uri: Text,
    c: ChallengeModel,
    cnonce: Text,
) -> bool {
    let user = said(header, "username"@);
    let realm = said(header, "realm"@);
    let nonce = said(header, "nonce"@);
    let to = said(header, "uri"@);
    let qop = said(header, "qop"@);
    let nc = said(header, "nc"@);
    let client = said(header, "cnonce"@);
    let ha1 = digested(seq![user->0, realm->0, cfg.password@]);
    let ha2 = digested(seq![method, to->0]);
    &&& user == Some(cfg.auth_user@)
    &&& realm == Some(realm_of(cfg, c))
    &&& nonce == Some(c.nonce)
    &&& to == Some(uri)
    &&& said(header, "opaque"@) == c.opaque
    &&& said(header, "algorithm"@) == c.algorithm
    &&& match c.qop {
        Some(offered) => {
            &&& nc == Some("00000001"@)
            &&& client == Some(cnonce)
            &&& qop == Some(
                if offers_auth(offered) {
                    "auth"@
                } else {
                    offered
                },
            )
            &&& said(header, "response"@) == Some(
                digested(seq![ha1, nonce->0, nc->0, client->0, qop->0, ha2]),
            )
        },
        None => {
            &&& qop is None && nc is None && client is None
            &&& said(header, "response"@) == Some(digested(seq![ha1, nonce->0, ha2]))
        },
    }
}

/// Whether a challenge and its answer can be written as parameters.
pub open spec fn answerable(
    cfg: CfgAsterisk,
    uri: Text,
    c: ChallengeModel,
    cnonce: Text,
) -> bool {
    &&& quotable(cfg.auth_user@)
    &&& quotable(realm_of(cfg, c))
    &&& quotable(c.nonce)
    &&& quotable(uri)
    &&& quotable(cnonce)
    &&& c.qop matches Some(q) ==> bare(q) || offers_auth(q)
    &&& c.opaque matches Some(o) ==> quotable(o)
    &&& c.algorithm matches Some(a) ==> bare(a)
}

/// The header that an answer to a challenge stands in.
pub open spec fn answer_header(c: ChallengeModel) -> Text {
    if c.proxy {
        "Proxy-Authorization"@
    } else {
        "Authorization"@
    }
}

/// Every challenge is answered in the header that is meant for it, so that whoever asked can
/// check the password: with the digest over the count, the client nonce and the quality of
/// protection that the same header states if the challenge has a quality of protection, and
/// without them if it has none.
pub proof fn law_answers_prove_the_password(
    cfg: CfgAsterisk,
    method: Text,
    uri: Text,
    c: ChallengeModel,
    cnonce: Text,
)
    requires
        answerable(cfg, uri, c, cnonce),
    ensures
        ({
            let line = digest::authorization(cfg, method, uri, c, cnonce);
            let start = answer_header(c) + ": "@;
            &&& start.is_prefix_of(line)
            &&& proves_password(line.skip(start.len() as int), cfg, method, uri, c, cnonce)
        }),
{
    let line = digest::authorization(cfg, method, uri, c, cnonce);
    let start = answer_header(c) + ": "@;
    let value = wire::authorization_header(cfg, method, uri, c, cnonce).1;
    lemma_authorization_line(cfg, method, uri, c, cnonce);
    assert(line.subrange(0, start.len() as int) =~= start);
    assert(line.skip(start.len() as int) =~= value);
    lemma_value_proves(cfg, method, uri, c, cnonce);
}

/// An answer is a header line.
pub(crate) proof fn lemma_authorization_line(
    cfg: CfgAsterisk,
    method: Text,
    uri: Text,
    c: ChallengeModel,
    cnonce: Text,
)
    ensures
        digest::authorization(cfg, method, uri, c, cnonce) == answer_header(c) + ": "@
            + wire::authorization_header(cfg, method, uri, c, cnonce).1,
{
    wire::lemma_authorization_text(cfg, method, uri, c, cnonce);
}

/// The parameters of an answer.
spec fn answer_params(
    cfg: CfgAsterisk,
    method: Text,
    uri: Text,
    c: ChallengeModel,
    cnonce: Text,
) -> Seq<Param> {
    let base = Seq::<Param>::empty()
        .push(("username"@, cfg.auth_user@, true))
        .push(("realm"@, realm_of(cfg, c), true))
        .push(("nonce"@, c.nonce, true))
        .push(("uri"@, uri, true))
        .push(("response"@, digest::digest_response(cfg, method, uri, c, cnonce), true));
    let protected = match c.qop {
        Some(q) => base
            .push(("qop"@, digest::chosen_qop(q), false))
            .push(("nc"@, "00000001"@, false))
            .push(("cnonce"@, cnonce, true)),
        None => base,
    };
    let opaque = match c.opaque {
        Some(o) => protected.push(("opaque"@, o, true)),
        None => protected,
    };
    match c.algorithm {
        Some(a) => opaque.push(("algorithm"@, a, false)),
        None => opaque,
    }
}

/// One more parameter is written at the end.
broadcast proof fn lemma_listed_more(ps: Seq<Param>, p: Param)
    requires
        ps.len() > 0,
    ensures
        #[trigger] listed(ps.push(p)) == listed(ps) + ", "@ + written(p),
{
    assert(ps.push(p).drop_last() =~= ps);
}

/// One more parameter counts before the others.
broadcast proof fn lemma_value_more(ps: Seq<Param>, p: Param, key: Text)
    ensures
        #[trigger] value_of(ps.push(p), key) == (if text::lower(p.0) == key {
            Some(p.1)
        } else {
            value_of(ps, key)
        }),
{
    assert(ps.push(p).drop_last() =~= ps);
}

broadcast proof fn lemma_writable_more(ps: Seq<Param>, p: Param)
    ensures
        #[trigger] all_writable(ps.push(p)) == (all_writable(ps) && writable(p)),
{
    let more = ps.push(p);
    if all_writable(more) {
        assert forall|i: int| 0 <= i < ps.len() implies writable(#[trigger] ps[i]) by {
            assert(writable(more[i]));
        }
        assert(writable(more[ps.len() as int]));
    }
}

/// The value of an answer is its parameters after the scheme.
#[verifier::rlimit(40)]
proof fn lemma_value_is_listed(
    cfg: CfgAsterisk,
    method: Text,
    uri: Text,
    c: ChallengeModel,
    cnonce: Text,
)
    ensures
        wire::authorization_header(cfg, method, uri, c, cnonce).1 == "Digest "@ + listed(
            answer_params(cfg, method, uri, c, cnonce),
        ),
{
    let response = digest::digest_response(cfg, method, uri, c, cnonce);
    let realm = realm_of(cfg, c);
    assert(digest::chosen_realm(cfg, c) == realm);
    let p1 = Seq::<Param>::empty().push(("username"@, cfg.auth_user@, true));
    let p2 = p1.push(("realm"@, realm, true));
    let p3 = p2.push(("nonce"@, c.nonce, true));
    let p4 = p3.push(("uri"@, uri, true));
    let p5 = p4.push(("response"@, response, true));
    let user = cfg.auth_user@;
    let t1 = "Digest username=\""@ + user;
    let t2 = t1 + "\", realm=\""@ + realm;
    let t3 = t2 + "\", nonce=\""@ + c.nonce;
    let t4 = t3 + "\", uri=\""@ + uri;
    let t5 = t4 + "\", response=\""@ + response;
    assert(t1 + "\""@ == "Digest "@ + listed(p1)) by {
        reveal_strlit("Digest username=\"");
        reveal_strlit("Digest ");
        reveal_strlit("username");
        reveal_strlit("=");
        reveal_strlit("\"");
        assert(listed(p1) == written(p1[0]));
        assert("Digest username=\""@ =~= "Digest "@ + ("username"@ + "="@ + "\""@));
        assert(t1 + "\""@ =~= "Digest "@ + ("username"@ + "="@ + ("\""@ + user + "\""@)));
    }
    assert("\", realm=\""@ == "\""@ + ", "@ + "realm"@ + "="@ + "\""@) by {
        reveal_strlit("\", realm=\"");
        reveal_strlit("\"");
        reveal_strlit(", ");
        reveal_strlit("realm");
        reveal_strlit("=");
        assert("\", realm=\""@ =~= "\""@ + ", "@ + "realm"@ + "="@ + "\""@);
    }
    lemma_next_quoted(t1, p1, "realm"@, realm, "\", realm=\""@);
    assert("\", nonce=\""@ == "\""@ + ", "@ + "nonce"@ + "="@ + "\""@) by {
        reveal_strlit("\", nonce=\"");
        reveal_strlit("\"");
        reveal_strlit(", ");
        reveal_strlit("nonce");
        reveal_strlit("=");
        assert("\", nonce=\""@ =~= "\""@ + ", "@ + "nonce"@ + "="@ + "\""@);
    }
    lemma_next_quoted(t2, p2, "nonce"@, c.nonce, "\", nonce=\""@);
    assert("\", uri=\""@ == "\""@ + ", "@ + "uri"@ + "="@ + "\""@) by {
        reveal_strlit("\", uri=\"");
        reveal_strlit("\"");
        reveal_strlit(", ");
        reveal_strlit("uri");
        reveal_strlit("=");
        assert("\", uri=\""@ =~= "\""@ + ", "@ + "uri"@ + "="@ + "\""@);
    }
    lemma_next_quoted(t3, p3, "uri"@, uri, "\", uri=\""@);
    assert("\", response=\""@ == "\""@ + ", "@ + "response"@ + "="@ + "\""@) by {
        reveal_strlit("\", response=\"");
        reveal_strlit("\"");
        reveal_strlit(", ");
        reveal_strlit("response");
        reveal_strlit("=");
        assert("\", response=\""@ =~= "\""@ + ", "@ + "response"@ + "="@ + "\""@);
    }
    lemma_next_quoted(t4, p4, "response"@, response, "\", response=\""@);
    let v5 = t5 + "\""@;
    assert(v5 == "Digest "@ + listed(p5));
    let p6 = match c.qop {
        Some(q) => p5.push(("qop"@, digest::chosen_qop(q), false)).push(
            ("nc"@, "00000001"@, false),
        ).push(("cnonce"@, cnonce, true)),
        None => p5,
    };
    let v6 = v5 + digest::qop_params(c.qop, cnonce);
    assert(v6 == "Digest "@ + listed(p6)) by {
        lemma_qop_listed(v5, p5, c.qop, cnonce);
    }
    let p7 = match c.opaque {
        Some(o) => p6.push(("opaque"@, o, true)),
        None => p6,
    };
    let v7 = v6 + digest::opaque_param(c.opaque);
    assert(v7 == "Digest "@ + listed(p7)) by {
        match c.opaque {
            Some(o) => {
                reveal_strlit(", opaque=\"");
                reveal_strlit(", ");
                reveal_strlit("opaque");
                reveal_strlit("=");
                reveal_strlit("\"");
                lemma_listed_more(p6, ("opaque"@, o, true));
                assert(", opaque=\""@ =~= ", "@ + ("opaque"@ + "="@ + "\""@));
                assert(v7 =~= "Digest "@ + (listed(p6) + ", "@ + ("opaque"@ + "="@ + ("\""@ + o
                    + "\""@))));
            },
            None => {
                assert(v7 =~= v6);
            },
        }
    }
    let v8 = v7 + digest::algorithm_param(c.algorithm);
    match c.algorithm {
        Some(a) => {
            reveal_strlit(", algorithm=");
            reveal_strlit(", ");
            reveal_strlit("algorithm");
            reveal_strlit("=");
            lemma_listed_more(p7, ("algorithm"@, a, false));
            assert(", algorithm="@ =~= ", "@ + ("algorithm"@ + "="@));
            assert(v8 =~= "Digest "@ + (listed(p7) + ", "@ + ("algorithm"@ + "="@ + a)));
        },
        None => {
            assert(v8 =~= v7);
        },
    }
}

/// One more quoted parameter is written after the closing quotes of the one before it.
proof fn lemma_next_quoted(t: Text, ps: Seq<Param>, key: Text, value: Text, between: Text)
    requires
        ps.len() > 0,
        t + "\""@ == "Digest "@ + listed(ps),
        between == "\""@ + ", "@ + key + "="@ + "\""@,
    ensures
        t + between + value + "\""@ == "Digest "@ + listed(ps.push((key, value, true))),
{
    lemma_listed_more(ps, (key, value, true));
    let w = key + "="@ + ("\""@ + value + "\""@);
    assert(written((key, value, true)) == w);
    assert(t + between + value + "\""@ =~= (t + "\""@) + ", "@ + w);
    assert(("Digest "@ + listed(ps)) + ", "@ + w =~= "Digest "@ + (listed(ps) + ", "@ + w));
}

proof fn lemma_qop_listed(v: Text, ps: Seq<Param>, qop: Option<Text>, cnonce: Text)
    requires
        ps.len() > 0,
        v == "Digest "@ + listed(ps),
    ensures
        v + digest::qop_params(qop, cnonce) == "Digest "@ + listed(
            match qop {
                Some(q) => ps.push(("qop"@, digest::chosen_qop(q), false)).push(
                    ("nc"@, "00000001"@, false),
                ).push(("cnonce"@, cnonce, true)),
                None => ps,
            },
        ),
{
    match qop {
        Some(q) => {
            let chosen = digest::chosen_qop(q);
            let p1 = ps.push(("qop"@, chosen, false));
            let p2 = p1.push(("nc"@, "00000001"@, false));
            let p3 = p2.push(("cnonce"@, cnonce, true));
            lemma_listed_more(ps, ("qop"@, chosen, false));
            lemma_listed_more(p1, ("nc"@, "00000001"@, false));
            lemma_listed_more(p2, ("cnonce"@, cnonce, true));
            assert(", qop="@ == ", "@ + ("qop"@ + "="@)) by {
                reveal_strlit(", qop=");
                reveal_strlit(", ");
                reveal_strlit("qop");
                reveal_strlit("=");
                assert(", qop="@ =~= ", "@ + ("qop"@ + "="@));
            }
            assert(", nc="@ == ", "@ + ("nc"@ + "="@)) by {
                reveal_strlit(", nc=");
                reveal_strlit(", ");
                reveal_strlit("nc");
                reveal_strlit("=");
                assert(", nc="@ =~= ", "@ + ("nc"@ + "="@));
            }
            assert(", cnonce=\""@ == ", "@ + ("cnonce"@ + "="@ + "\""@)) by {
                reveal_strlit(", cnonce=\"");
                reveal_strlit(", ");
                reveal_strlit("cnonce");
                reveal_strlit("=");
                reveal_strlit("\"");
                assert(", cnonce=\""@ =~= ", "@ + ("cnonce"@ + "="@ + "\""@));
            }
            let a = ", qop="@ + chosen;
            let b = a + ", nc="@ + "00000001"@;
            let d = b + ", cnonce=\""@ + cnonce + "\""@;
            assert(listed(p1) =~= listed(ps) + a);
            assert(listed(p2) =~= listed(ps) + b);
            assert(listed(p3) =~= listed(ps) + d);
            assert(v + d =~= "Digest "@ + (listed(ps) + d));
        },
        None => {
            assert(v + Seq::<char>::empty() =~= v);
        },
    }
}

/// The keys of an answer are keys, and are told apart.
proof fn lemma_answer_keys()
    ensures
        is_key("username"@),
        is_key("realm"@),
        is_key("nonce"@),
        is_key("uri"@),
        is_key("response"@),
        is_key("qop"@),
        is_key("nc"@),
        is_key("cnonce"@),
        is_key("opaque"@),
        is_key("algorithm"@),
        "username"@.len() == 8 && "username"@[0] == 'u',
        "realm"@.len() == 5 && "realm"@[0] == 'r',
        "nonce"@.len() == 5 && "nonce"@[0] == 'n',
        "uri"@.len() == 3 && "uri"@[0] == 'u',
        "response"@.len() == 8 && "response"@[0] == 'r',
        "qop"@.len() == 3 && "qop"@[0] == 'q',
        "nc"@.len() == 2,
        "cnonce"@.len() == 6 && "cnonce"@[0] == 'c',
        "opaque"@.len() == 6 && "opaque"@[0] == 'o',
        "algorithm"@.len() == 9,
        bare("00000001"@),
        bare("auth"@),
        text::lower("username"@) == "username"@,
        text::lower("realm"@) == "realm"@,
        text::lower("nonce"@) == "nonce"@,
        text::lower("uri"@) == "uri"@,
        text::lower("response"@) == "response"@,
        text::lower("qop"@) == "qop"@,
        text::lower("nc"@) == "nc"@,
        text::lower("cnonce"@) == "cnonce"@,
        text::lower("opaque"@) == "opaque"@,
        text::lower("algorithm"@) == "algorithm"@,
{
    reveal_strlit("username");
    reveal_strlit("realm");
    reveal_strlit("nonce");
    reveal_strlit("uri");
    reveal_strlit("response");
    reveal_strlit("qop");
    reveal_strlit("nc");
    reveal_strlit("cnonce");
    reveal_strlit("opaque");
    reveal_strlit("algorithm");
    reveal_strlit("00000001");
    reveal_strlit("auth");
    assert(text::lower("username"@) =~= "username"@);
    assert(text::lower("realm"@) =~= "realm"@);
    assert(text::lower("nonce"@) =~= "nonce"@);
    assert(text::lower("uri"@) =~= "uri"@);
    assert(text::lower("response"@) =~= "response"@);
    assert(text::lower("qop"@) =~= "qop"@);
    assert(text::lower("nc"@) =~= "nc"@);
    assert(text::lower("cnonce"@) =~= "cnonce"@);
    assert(text::lower("opaque"@) =~= "opaque"@);
    assert(text::lower("algorithm"@) =~= "algorithm"@);
    reading::lemma_trimmed("00000001"@);
    reading::lemma_trimmed("auth"@);
}

/// A digest is written in hexadecimal digits alone.
pub(crate) proof fn lemma_digest_is_plain(s: Text)
    ensures
        quotable(ident::md5_text(s)),
        wire::one_line(ident::md5_text(s)),
{
    let h = ident::md5_text(s);
    assert forall|i: int| 0 <= i < h.len() implies h[i] != ',' && h[i] != '"' && h[i] != '\r'
        && h[i] != '\n' by {
        let octets = ident::md5_digest(vstd::utf8::encode_utf8(s));
        let o = octets[i / 2] as nat;
        assert(o / 16 < 16 && o % 16 < 16);
    }
}

/// Some texts with colons between them, written out.
broadcast proof fn lemma_colons_more(parts: Seq<Text>, p: Text)
    requires
        parts.len() > 0,
    ensures
        #[trigger] colons(parts.push(p)) == colons(parts) + ":"@ + p,
{
    assert(parts.push(p).drop_last() =~= parts);
}

/// The digests of an answer.
proof fn lemma_digests(cfg: CfgAsterisk, method: Text, uri: Text, c: ChallengeModel, cnonce: Text)
    ensures
        ({
            let ha1 = digested(seq![cfg.auth_user@, realm_of(cfg, c), cfg.password@]);
            let ha2 = digested(seq![method, uri]);
            digest::digest_response(cfg, method, uri, c, cnonce) == match c.qop {
                Some(q) => digested(
                    seq![
                        ha1,
                        c.nonce,
                        "00000001"@,
                        cnonce,
                        if offers_auth(q) {
                            "auth"@
                        } else {
                            q
                        },
                        ha2,
                    ],
                ),
                None => digested(seq![ha1, c.nonce, ha2]),
            }
        }),
{
    broadcast use lemma_colons_more;

    let user = cfg.auth_user@;
    let realm = realm_of(cfg, c);
    let a1 = Seq::<Text>::empty().push(user).push(realm).push(cfg.password@);
    assert(seq![user, realm, cfg.password@] =~= a1);
    assert(colons(Seq::<Text>::empty().push(user)) == user);
    let ha1 = digested(a1);
    let a2 = Seq::<Text>::empty().push(method).push(uri);
    assert(seq![method, uri] =~= a2);
    assert(colons(Seq::<Text>::empty().push(method)) == method);
    let ha2 = digested(a2);
    assert(colons(Seq::<Text>::empty().push(ha1)) == ha1);
    match c.qop {
        Some(q) => {
            let chosen = digest::chosen_qop(q);
            let all = Seq::<Text>::empty()
                .push(ha1)
                .push(c.nonce)
                .push("00000001"@)
                .push(cnonce)
                .push(chosen)
                .push(ha2);
            assert(seq![ha1, c.nonce, "00000001"@, cnonce, chosen, ha2] =~= all);
        },
        None => {
            let all = Seq::<Text>::empty().push(ha1).push(c.nonce).push(ha2);
            assert(seq![ha1, c.nonce, ha2] =~= all);
        },
    }
}

/// The value of an answer proves the password.
pub(crate) proof fn lemma_value_proves(
    cfg: CfgAsterisk,
    method: Text,
    uri: Text,
    c: ChallengeModel,
    cnonce: Text,
)
    requires
        answerable(cfg, uri, c, cnonce),
    ensures
        proves_password(
            wire::authorization_header(cfg, method, uri, c, cnonce).1,
            cfg,
            method,
            uri,
            c,
            cnonce,
        ),
{
    broadcast use lemma_value_more;

    let ps = answer_params(cfg, method, uri, c, cnonce);
    lemma_value_is_listed(cfg, method, uri, c, cnonce);
    lemma_answer_keys();
    lemma_answer_writable(cfg, method, uri, c, cnonce);
    lemma_digests(cfg, method, uri, c, cnonce);
    assert(forall|key: Text| (#[trigger] value_of(Seq::<Param>::empty(), key)) is None);
    lemma_said(ps, "username"@);
    lemma_said(ps, "realm"@);
    lemma_said(ps, "nonce"@);
    lemma_said(ps, "uri"@);
    lemma_said(ps, "response"@);
    lemma_said(ps, "qop"@);
    lemma_said(ps, "nc"@);
    lemma_said(ps, "cnonce"@);
    lemma_said(ps, "opaque"@);
    lemma_said(ps, "algorithm"@);
}

/// A response is written in hexadecimal digits alone.
pub(crate) proof fn lemma_response_is_plain(
    cfg: CfgAsterisk,
    method: Text,
    uri: Text,
    c: ChallengeModel,
    cnonce: Text,
)
    ensures
        quotable(digest::digest_response(cfg, method, uri, c, cnonce)),
        wire::one_line(digest::digest_response(cfg, method, uri, c, cnonce)),
{
    let ha1 = ident::md5_text(
        cfg.auth_user@ + ":"@ + digest::chosen_realm(cfg, c) + ":"@ + cfg.password@,
    );
    let ha2 = ident::md5_text(method + ":"@ + uri);
    match c.qop {
        Some(q) => {
            lemma_digest_is_plain(
                ha1 + ":"@ + c.nonce + ":"@ + "00000001"@ + ":"@ + cnonce + ":"@
                    + digest::chosen_qop(q) + ":"@ + ha2,
            );
        },
        None => {
            lemma_digest_is_plain(ha1 + ":"@ + c.nonce + ":"@ + ha2);
        },
    }
}

/// Whether nothing that an answer to a challenge is made from holds a line break.
pub open spec fn plain_challenge(cfg: CfgAsterisk, c: ChallengeModel, cnonce: Text) -> bool {
    &&& wire::one_line(cfg.auth_user@)
    &&& wire::one_line(realm_of(cfg, c))
    &&& wire::one_line(c.nonce)
    &&& wire::one_line(cnonce)
    &&& c.qop matches Some(q) ==> wire::one_line(q)
    &&& c.opaque matches Some(o) ==> wire::one_line(o)
    &&& c.algorithm matches Some(a) ==> wire::one_line(a)
}

/// The value of an answer lies within one line, and has no white space at its ends if it can be
/// read.
pub(crate) proof fn lemma_value_is_plain(
    cfg: CfgAsterisk,
    method: Text,
    uri: Text,
    c: ChallengeModel,
    cnonce: Text,
)
    requires
        plain_challenge(cfg, c, cnonce),
        wire::one_line(uri),
    ensures
        wire::one_line(wire::authorization_header(cfg, method, uri, c, cnonce).1),
        answerable(cfg, uri, c, cnonce) ==> text::trimmed(
            wire::authorization_header(cfg, method, uri, c, cnonce).1,
        ) == wire::authorization_header(cfg, method, uri, c, cnonce).1,
{
    broadcast use reading::lemma_one_line_added;

    let v = wire::authorization_header(cfg, method, uri, c, cnonce).1;
    lemma_response_is_plain(cfg, method, uri, c, cnonce);
    lemma_literals();
    assert(wire::one_line(digest::qop_params(c.qop, cnonce)));
    assert(wire::one_line(digest::opaque_param(c.opaque)));
    assert(wire::one_line(digest::algorithm_param(c.algorithm)));
    if answerable(cfg, uri, c, cnonce) {
        let ps = answer_params(cfg, method, uri, c, cnonce);
        lemma_value_is_listed(cfg, method, uri, c, cnonce);
        lemma_answer_writable(cfg, method, uri, c, cnonce);
        lemma_listed_ends(ps);
        reveal_strlit("Digest ");
        assert(v[0] == 'D');
        assert(v.last() == listed(ps).last());
        reading::lemma_trimmed(v);
    }
}

proof fn lemma_answer_writable(
    cfg: CfgAsterisk,
    method: Text,
    uri: Text,
    c: ChallengeModel,
    cnonce: Text,
)
    requires
        answerable(cfg, uri, c, cnonce),
    ensures
        all_writable(answer_params(cfg, method, uri, c, cnonce)),
        answer_params(cfg, method, uri, c, cnonce).len() > 0,
{
    broadcast use lemma_writable_more;

    lemma_answer_keys();
    lemma_response_is_plain(cfg, method, uri, c, cnonce);
    assert(all_writable(Seq::<Param>::empty()));
}

proof fn lemma_literals()
    ensures
        wire::one_line("Digest username=\""@),
        wire::one_line("\", realm=\""@),
        wire::one_line("\", nonce=\""@),
        wire::one_line("\", uri=\""@),
        wire::one_line("\", response=\""@),
        wire::one_line("\""@),
        wire::one_line(", qop="@),
        wire::one_line(", nc="@),
        wire::one_line("00000001"@),
        wire::one_line("auth"@),
        wire::one_line(", cnonce=\""@),
        wire::one_line(", opaque=\""@),
        wire::one_line(", algorithm="@),
        wire::one_line(Seq::empty()),
{
    reveal_strlit("Digest username=\"");
    reveal_strlit("\", realm=\"");
    reveal_strlit("\", nonce=\"");
    reveal_strlit("\", uri=\"");
    reveal_strlit("\", response=\"");
    reveal_strlit("\"");
    reveal_strlit(", qop=");
    reveal_strlit(", nc=");
    reveal_strlit("00000001");
    reveal_strlit("auth");
    reveal_strlit(", cnonce=\"");
    reveal_strlit(", opaque=\"");
    reveal_strlit(", algorithm=");
}

/// The response to a challenge, whatever the challenge holds: with a quality of protection it is
/// the digest over the user, the realm and the password, the nonce, the count, the client nonce,
/// the quality of protection and the request, and without one it leaves the three in the middle
/// out.
pub proof fn law_responses_digest_what_they_state(
    cfg: CfgAsterisk,
    method: Text,
    uri: Text,
    c: ChallengeModel,
    cnonce: Text,
)
    ensures
        ({
            let line = digest::authorization(cfg, method, uri, c, cnonce);
            let ha1 = digested(seq![cfg.auth_user@, realm_of(cfg, c), cfg.password@]);
            let ha2 = digested(seq![method, uri]);
            exists|before: Text, after: Text, nc: Text, qop: Text| #[trigger]
                answers_within(
                    line,
                    before,
                    after,
                    c.nonce,
                    nc,
                    cnonce,
                    qop,
                    ha1,
                    ha2,
                    c.qop is Some,
                ) && nc == "00000001"@ && (c.qop matches Some(q) ==> qop == if offers_auth(q) {
                    "auth"@
                } else {
                    q
                })
        }),
{
    let line = digest::authorization(cfg, method, uri, c, cnonce);
    let ha1 = digested(seq![cfg.auth_user@, realm_of(cfg, c), cfg.password@]);
    let ha2 = digested(seq![method, uri]);
    let response = digest::digest_response(cfg, method, uri, c, cnonce);
    lemma_digests(cfg, method, uri, c, cnonce);
    let nc = "00000001"@;
    let qop = match c.qop {
        Some(q) => digest::chosen_qop(q),
        None => Seq::empty(),
    };
    let after = digest::opaque_param(c.opaque) + digest::algorithm_param(c.algorithm);
    let head = answer_header(c) + ": Digest username=\""@ + cfg.auth_user@ + "\", realm=\""@
        + realm_of(cfg, c) + "\", nonce=\""@ + c.nonce + "\", uri=\""@ + uri;
    let lead = "\", "@;
    assert("\", response=\""@ == lead + "response=\""@) by {
        reveal_strlit("\", response=\"");
        reveal_strlit("\", ");
        reveal_strlit("response=\"");
        assert("\", response=\""@ =~= "\", "@ + "response=\""@);
    }
    let before = head + lead;
    assert(head + (lead + "response=\""@) =~= before + "response=\""@);
    let protection = digest::qop_params(c.qop, cnonce);
    let core = before + "response=\""@ + response + "\""@;
    assert(line =~= core + protection + after);
    if c.qop is None {
        assert(core + Seq::<char>::empty() =~= core);
    } else {
        assert(core + protection =~= core + ", qop="@ + qop + ", nc="@ + nc + ", cnonce=\""@
            + cnonce + "\""@);
    }
    assert(answers_within(line, before, after, c.nonce, nc, cnonce, qop, ha1, ha2, c.qop is Some));
}

/// Whether an answer states a response and, with a quality of protection, right after it the
/// values that the response was made from.
pub open spec fn answers_within(
    line: Text,
    before: Text,
    after: Text,
    nonce: Text,
    nc: Text,
    cnonce: Text,
    qop: Text,
    ha1: Text,
    ha2: Text,
    protected: bool,
) -> bool {
    line == if protected {
        before + "response=\""@ + digested(seq![ha1, nonce, nc, cnonce, qop, ha2]) + "\""@
            + ", qop="@ + qop + ", nc="@ + nc + ", cnonce=\""@ + cnonce + "\""@ + after
    } else {
        before + "response=\""@ + digested(seq![ha1, nonce, ha2]) + "\""@ + after
    }
}

/// Digests are those of the UTF-8 encoding of a text, in hexadecimal, and a client nonce is the
/// digest of the octets of a UUID.
pub proof fn law_digests_are_of_octets(s: Text, id: u128)
    ensures
        ident::md5_text(s) == ident::hex_octets(ident::md5_digest(vstd::utf8::encode_utf8(s))),
        ident::cnonce_of(id) == ident::hex_octets(ident::md5_digest(ident::uuid_octets(id))),
{
}

/// Neither the algorithm nor the opaque parameter of a challenge changes the response to it.
pub proof fn law_responses_ignore_what_is_only_repeated(
    cfg: CfgAsterisk,
    method: Text,
    uri: Text,
    a: ChallengeModel,
    b: ChallengeModel,
    cnonce: Text,
)
    requires
        a.realm == b.realm,
        a.nonce == b.nonce,
        a.qop == b.qop,
    ensures
        digest::digest_response(cfg, method, uri, a, cnonce) == digest::digest_response(
            cfg,
            method,
            uri,
            b,
            cnonce,
        ),
{
}

} // verus!
