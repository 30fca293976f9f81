//! What holds of the fields of headers: that tags, contacts, callers and radios are found in them.
use vstd::prelude::*;
use crate::fields;
use crate::laws::authentication;
use crate::laws::numbers;
use crate::laws::reading;
use crate::sip;
use crate::sip::MessageModel;
use crate::text;
use crate::text::Text;
use crate::wire;

verus! {

// ---------------------------------------------------------------------------------------------
// Headers

/// A header is found by its name in whatever case it is written.
pub proof fn law_headers_are_found_in_any_case(m: MessageModel, a: Text, b: Text)
    requires
        text::lower(a) == text::lower(b),
    ensures
        m.header(a) == m.header(b),
{
    lemma_first_value_in_any_case(m.headers, a, b);
}

proof fn lemma_first_value_in_any_case(headers: Seq<(Text, Text)>, a: Text, b: Text)
    requires
        text::lower(a) == text::lower(b),
    ensures
        sip::first_value(headers, a) == sip::first_value(headers, b),
    decreases headers.len(),
{
    if headers.len() > 0 {
        lemma_first_value_in_any_case(headers.drop_first(), a, b);
    }
}

/// A header is what the first line with its name says, and there is none if no line has its name.
pub proof fn law_first_headers_count(m: MessageModel, name: Text)
    ensures
        match m.header(name) {
            Some(value) => exists|i: int|
                0 <= i < m.headers.len() && (#[trigger] m.headers[i]).1 == value
                    && text::same_ignoring_case(m.headers[i].0, name) && forall|j: int|
                    0 <= j < i ==> !text::same_ignoring_case((#[trigger] m.headers[j]).0, name),
            None => forall|i: int|
                0 <= i < m.headers.len() ==> !text::same_ignoring_case(
                    (#[trigger] m.headers[i]).0,
                    name,
                ),
        },
{
    lemma_first_value(m.headers, name);
}

proof fn lemma_first_value(hs: Seq<(Text, Text)>, name: Text)
    ensures
        match sip::first_value(hs, name) {
            Some(value) => exists|i: int|
                0 <= i < hs.len() && (#[trigger] hs[i]).1 == value && text::same_ignoring_case(
                    hs[i].0,
                    name,
                ) && forall|j: int|
                    0 <= j < i ==> !text::same_ignoring_case((#[trigger] hs[j]).0, name),
            None => forall|i: int|
                0 <= i < hs.len() ==> !text::same_ignoring_case((#[trigger] hs[i]).0, name),
        },
    decreases hs.len(),
{
    if hs.len() > 0 {
        let rest = hs.drop_first();
        lemma_first_value(rest, name);
        if text::same_ignoring_case(hs[0].0, name) {
            assert(hs[0].1 == sip::first_value(hs, name)->0);
        } else {
            match sip::first_value(rest, name) {
                Some(value) => {
                    let i = choose|i: int|
                        0 <= i < rest.len() && (#[trigger] rest[i]).1 == value
                            && text::same_ignoring_case(rest[i].0, name) && forall|j: int|
                            0 <= j < i ==> !text::same_ignoring_case(
                                (#[trigger] rest[j]).0,
                                name,
                            );
                    assert(hs[i + 1] == rest[i]);
                    assert forall|j: int| 0 <= j < i + 1 implies !text::same_ignoring_case(
                        (#[trigger] hs[j]).0,
                        name,
                    ) by {
                        if j > 0 {
                            assert(hs[j] == rest[j - 1]);
                        }
                    }
                },
                None => {
                    assert forall|i: int| 0 <= i < hs.len() implies !text::same_ignoring_case(
                        (#[trigger] hs[i]).0,
                        name,
                    ) by {
                        if i > 0 {
                            assert(hs[i] == rest[i - 1]);
                        }
                    }
                },
            }
        }
    }
}

/// A header line is its name and its value, each without the white space at its ends; a line
/// without a colon is no header.
pub proof fn law_header_lines(name: Text, value: Text)
    requires
        !name.contains(':'),
    ensures
        sip::header_field(name + ":"@ + value) == Some((text::trimmed(name), text::trimmed(value))),
        sip::header_field(name) is None,
{
    reveal_strlit(":");
    let rest = ":"@ + value;
    let l = name + ":"@ + value;
    assert(l =~= name + rest);
    wire::lemma_position_after(name, rest, ":"@);
    assert(":"@.is_prefix_of(rest)) by {
        assert(rest.subrange(0, 1) =~= ":"@);
    }
    assert(l.take(name.len() as int) =~= name);
    assert(l.skip(name.len() + 1int) =~= value);
    assert(name + Seq::<char>::empty() =~= name);
    wire::lemma_position_after(name, Seq::empty(), ":"@);
    assert(!":"@.is_prefix_of(Seq::<char>::empty()));
}

/// A message without an empty line has no body, and an empty text is no message.
pub proof fn law_messages_without_a_body(t: Text)
    requires
        text::position(text::unix_lines(t), "\n\n"@) is None,
    ensures
        sip::message_of(t) is Some <==> t.len() > 0,
        sip::message_of(t) matches Some(m) ==> m.body.len() == 0 && m.start_line == text::trimmed(
            text::lines_of(text::unix_lines(t))[0],
        ),
{
    lemma_not_empty(t);
    let u = text::unix_lines(t);
    if u.len() > 0 {
        assert(text::lines_of(u).len() > 0);
    } else {
        assert(text::lines_of(u).len() == 0);
    }
}

proof fn lemma_not_empty(t: Text)
    ensures
        text::unix_lines(t).len() == 0 <==> t.len() == 0,
    decreases t.len(),
{
    if t.len() > 0 {
        lemma_not_empty(t.drop_first());
    }
}

/// A message whose lines end in line feeds alone is read like one whose lines end in carriage
/// returns and line feeds.
pub proof fn law_line_feeds_suffice(t: Text)
    requires
        !text::unix_lines(t).contains('\r'),
    ensures
        sip::message_of(text::unix_lines(t)) == sip::message_of(t),
{
    let u = text::unix_lines(t);
    assert(u + Seq::<char>::empty() =~= u);
    wire::lemma_unix_plain(u, Seq::empty());
    assert(u + text::unix_lines(Seq::<char>::empty()) =~= u);
}

/// A request is read back: its method, its Request-URI if that is a single word, its headers
/// without the white space at their ends, and its body.
pub proof fn law_requests_are_read_back(
    method: Text,
    uri: Text,
    headers: Seq<(Text, Text)>,
    body: Text,
)
    requires
        reading::is_word(method),
        method[0] != 'S',
        wire::one_line(uri),
        wire::readable_headers(headers),
    ensures
        ({
            let m = sip::message_of(
                method + " "@ + uri + " SIP/2.0"@ + "\r\n"@ + wire::header_lines(headers)
                    + "\r\n"@ + body,
            );
            &&& m is Some
            &&& m->0.method() == Some(method)
            &&& m->0.status_code() is None
            &&& reading::is_word(uri) ==> m->0.request_uri() == Some(uri)
            &&& m->0.headers == wire::trimmed_headers(headers)
            &&& m->0.body == text::unix_lines(body)
        }),
{
    reading::lemma_request_read(method, uri, headers, body);
}

/// The status of a response is read back, and a response has neither method nor Request-URI.
pub proof fn law_responses_are_read_back(
    code: u16,
    reason: Text,
    headers: Seq<(Text, Text)>,
    body: Text,
)
    requires
        wire::one_line(reason),
        wire::readable_headers(headers),
    ensures
        ({
            let m = sip::message_of(
                "SIP/2.0 "@ + text::decimal(code as nat) + " "@ + reason + "\r\n"@
                    + wire::header_lines(headers) + "\r\n"@ + body,
            );
            &&& m is Some
            &&& m->0.method() is None
            &&& m->0.request_uri() is None
            &&& m->0.status_code() == Some(code as nat)
            &&& m->0.headers == wire::trimmed_headers(headers)
            &&& m->0.body == text::unix_lines(body)
        }),
{
    reading::lemma_response_start(code, reason);
    wire::law_message_is_read_trimmed(wire::response_start(code, reason), headers, body);
}

/// White space at the ends of a text is trimmed, and nothing else.
pub proof fn law_trimming(a: Text, s: Text, b: Text)
    requires
        forall|i: int| 0 <= i < a.len() ==> text::is_white(#[trigger] a[i]),
        forall|i: int| 0 <= i < b.len() ==> text::is_white(#[trigger] b[i]),
        s.len() == 0 || (!text::is_white(s[0]) && !text::is_white(s.last())),
    ensures
        text::trimmed(a + s + b) == s,
    decreases a.len() + b.len(),
{
    let p = |c: char| text::is_white(c);
    let t = a + s + b;
    if a.len() > 0 {
        let rest = a.drop_first();
        assert(text::is_white(a[0]));
        assert(t[0] == a[0]);
        assert(t.drop_first() =~= rest + s + b);
        assert forall|i: int| 0 <= i < rest.len() implies text::is_white(#[trigger] rest[i]) by {
            assert(rest[i] == a[i + 1]);
        }
        law_trimming(rest, s, b);
        assert(text::strip_start(t, p) == text::strip_start(t.drop_first(), p));
    } else if s.len() == 0 {
        assert(t =~= b);
        if b.len() > 0 {
            let rest = b.drop_first();
            assert(text::is_white(b[0]));
            assert forall|i: int| 0 <= i < rest.len() implies text::is_white(
                #[trigger] rest[i],
            ) by {
                assert(rest[i] == b[i + 1]);
            }
            law_trimming(a, s, rest);
            assert(a + s + rest =~= rest);
            assert(text::strip_start(t, p) == text::strip_start(rest, p));
        } else {
            assert(t =~= s);
        }
    } else {
        assert(t =~= s + b);
        reading::lemma_trimmed_after(s, b);
        lemma_all_stripped(b);
        assert(s + Seq::<char>::empty() =~= s);
    }
}

proof fn lemma_all_stripped(b: Text)
    requires
        forall|i: int| 0 <= i < b.len() ==> text::is_white(#[trigger] b[i]),
    ensures
        text::strip_end(b, |c: char| text::is_white(c)) == Seq::<char>::empty(),
    decreases b.len(),
{
    if b.len() == 0 {
        assert(b =~= Seq::empty());
    } else {
        let most = b.drop_last();
        assert(text::is_white(b[b.len() - 1]));
        assert forall|i: int| 0 <= i < most.len() implies text::is_white(#[trigger] most[i]) by {
            assert(most[i] == b[i]);
        }
        lemma_all_stripped(most);
    }
}

/// Spaces, tabs and line ends are white space; what can be seen in ASCII is not.
pub proof fn law_white_space(c: char)
    ensures
        text::is_white(' ') && text::is_white('\t') && text::is_white('\r') && text::is_white(
            '\n',
        ),
        '!' <= c <= '~' ==> !text::is_white(c),
{
}

/// Letters of ASCII have a lower case, and nothing else has.
pub proof fn law_lower_case(c: char)
    ensures
        'A' <= c <= 'Z' ==> text::lower_char(c) as int == c as int + 32,
        c < 'A' || c > 'Z' ==> text::lower_char(c) == c,
{
}

/// A number may have a plus sign and leading zeros, but nothing that is no digit, and it is not
/// beyond its limit.
pub proof fn law_numbers(n: nat, max: nat, s: Text)
    ensures
        text::number("+"@ + text::decimal(n), max) == text::number(text::decimal(n), max),
        text::number("0"@ + text::decimal(n), max) == text::number(text::decimal(n), max),
        text::number(s, max) matches Some(value) ==> value <= max && s.len() > 0 && ('0' <= s[0]
            <= '9' || s[0] == '+') && '0' <= s.last() <= '9' && forall|i: int|
            0 < i < s.len() ==> '0' <= #[trigger] s[i] <= '9',
{
    reveal_strlit("+");
    reveal_strlit("0");
    let d = text::decimal(n);
    reading::law_numbers_are_read_back(n, n);
    assert('0' <= d[0] <= '9');
    assert(("+"@ + d).drop_first() =~= d);
    let z = "0"@ + d;
    lemma_leading_zero(d);
    assert(text::all_digits(z)) by {
        assert forall|i: int| 0 <= i < z.len() implies '0' <= #[trigger] z[i] <= '9' by {
            if i > 0 {
                assert(z[i] == d[i - 1]);
                assert('0' <= d[i - 1] <= '9');
            }
        }
    }
    if text::number(s, max) is Some {
        let t = if s[0] == '+' {
            s.drop_first()
        } else {
            s
        };
        assert forall|i: int| 0 < i < s.len() implies '0' <= #[trigger] s[i] <= '9' by {
            if s[0] == '+' {
                assert(t[i - 1] == s[i]);
                assert('0' <= t[i - 1] <= '9');
            } else {
                assert('0' <= t[i] <= '9');
            }
        }
        assert('0' <= t[0] <= '9');
        assert('0' <= t[t.len() - 1] <= '9');
    }
}

proof fn lemma_leading_zero(d: Text)
    ensures
        text::digits_value("0"@ + d) == text::digits_value(d),
    decreases d.len(),
{
    reveal_strlit("0");
    let z = "0"@ + d;
    if d.len() == 0 {
        assert(z =~= seq!['0']);
        assert(z.drop_last() =~= d);
        assert(text::digits_value(d) == 0);
    } else {
        assert(z.drop_last() =~= "0"@ + d.drop_last());
        assert(z.last() == d.last());
        lemma_leading_zero(d.drop_last());
    }
}

// ---------------------------------------------------------------------------------------------
// Tags

/// Whether a text, up to the separators in it, holds no tag.
pub open spec fn untagged(address: Text) -> bool {
    forall|i: int|
        0 <= i < text::pieces(address, ';').len() ==> text::after_prefix(
            text::trimmed(#[trigger] text::pieces(address, ';')[i]),
            "tag="@,
        ) is None
}

/// The tag of a From or To header is found, with or without quotes: what follows `tag=` in the
/// first parameter that begins with it, whatever comes before and after.
pub proof fn law_tags_are_found(address: Text, tag: Text, rest: Text, quoted: bool)
    requires
        untagged(address),
        !tag.contains(';'),
        !tag.contains('"'),
        text::trimmed(tag) == tag,
        rest.len() > 0 ==> rest[0] == ';',
    ensures
        ({
            let value = if quoted {
                "\""@ + tag + "\""@
            } else {
                tag
            };
            fields::to_tag(Some(address + ";tag="@ + value + rest)) == Some(tag)
        }),
{
    reveal_strlit(";tag=");
    reveal_strlit("tag=");
    reveal_strlit("\"");
    let value = if quoted {
        "\""@ + tag + "\""@
    } else {
        tag
    };
    let h = address + ";tag="@ + value + rest;
    let param = "tag="@ + value;
    let tail = param + rest;
    let sep = seq![';'];
    assert(h =~= address + sep + tail);
    authentication::lemma_pieces_join(address, tail, ';');
    assert(!param.contains(';')) by {
        if param.contains(';') {
            let i = choose|i: int| 0 <= i < param.len() && param[i] == ';';
            if i >= 4 {
                assert(value[i - 4] == ';');
                if quoted {
                    assert(0 < i - 4 < value.len() - 1);
                    assert(tag[i - 5] == ';');
                } else {
                    assert(tag[i - 4] == ';');
                }
            }
        }
    }
    lemma_first_piece(param, rest, ';');
    let front = text::pieces(address, ';');
    let back = text::pieces(tail, ';');
    lemma_no_tag_among(front, back);
    assert(back[0] == param);
    if quoted {
        reading::lemma_trimmed(value);
    }
    lemma_trimmed_param(value);
    assert(param.skip(4) =~= value);
    assert("tag="@.is_prefix_of(param)) by {
        assert(param.subrange(0, 4) =~= "tag="@);
    }
    law_quotes_are_taken_off(tag);
}

/// Quotes around a text without any are taken off.
pub proof fn law_quotes_are_taken_off(s: Text)
    requires
        !s.contains('"'),
    ensures
        text::unquoted(s) == s,
        text::unquoted("\""@ + s + "\""@) == s,
{
    reveal_strlit("\"");
    let q = |c: char| c == '"';
    let v = "\""@ + s + "\""@;
    let inner = s + "\""@;
    assert(v.drop_first() =~= inner);
    if s.len() == 0 {
        assert(inner =~= "\""@);
        assert(inner.drop_first() =~= s);
        assert(text::strip_start(s, q) == s);
        assert(text::strip_start(inner, q) == s);
        assert(text::strip_start(v, q) == s);
    } else {
        assert(s.contains(s[0]) && s.contains(s.last()));
        assert(text::strip_start(s, q) == s);
        assert(inner[0] == s[0]);
        assert(text::strip_start(inner, q) == inner);
        assert(text::strip_start(v, q) == inner);
        assert(inner.drop_last() =~= s);
        assert(text::strip_end(s, q) == s);
        assert(text::strip_end(inner, q) == s);
    }
}

/// Parts without a tag are passed over.
proof fn lemma_no_tag_among(front: Seq<Text>, back: Seq<Text>)
    requires
        forall|i: int|
            0 <= i < front.len() ==> text::after_prefix(
                text::trimmed(#[trigger] front[i]),
                "tag="@,
            ) is None,
    ensures
        fields::tag_among(front + back) == fields::tag_among(back),
    decreases front.len(),
{
    if front.len() == 0 {
        assert(front + back =~= back);
    } else {
        let rest = front.drop_first();
        assert(text::after_prefix(text::trimmed(front[0]), "tag="@) is None);
        assert((front + back)[0] == front[0]);
        assert((front + back).drop_first() =~= rest + back);
        assert forall|i: int| 0 <= i < rest.len() implies text::after_prefix(
            text::trimmed(#[trigger] rest[i]),
            "tag="@,
        ) is None by {
            assert(rest[i] == front[i + 1]);
        }
        lemma_no_tag_among(rest, back);
    }
}

proof fn lemma_trimmed_param(tag: Text)
    requires
        text::trimmed(tag) == tag,
    ensures
        text::trimmed("tag="@ + tag) == "tag="@ + tag,
{
    reveal_strlit("tag=");
    let param = "tag="@ + tag;
    if tag.len() > 0 {
        reading::lemma_trimmed_ends(tag);
    }
    reading::lemma_trimmed(param);
}

/// The first piece of a text ends where the separator first comes.
proof fn lemma_first_piece(a: Text, rest: Text, sep: char)
    requires
        !a.contains(sep),
        rest.len() > 0 ==> rest[0] == sep,
    ensures
        text::pieces(a + rest, sep)[0] == a,
        text::pieces(a + rest, sep).len() >= 1,
        rest.len() > 0 ==> text::pieces(a + rest, sep) == seq![a] + text::pieces(
            (a + rest).skip(a.len() + 1int),
            sep,
        ),
        rest.len() == 0 ==> text::pieces(a + rest, sep) == seq![a],
{
    let pat = seq![sep];
    let s = a + rest;
    wire::lemma_position_after(a, rest, pat);
    if rest.len() > 0 {
        assert(pat.is_prefix_of(rest)) by {
            assert(rest.subrange(0, 1) =~= pat);
        }
        assert(s.take(a.len() as int) =~= a);
    } else {
        assert(s =~= a);
        assert(!pat.is_prefix_of(rest));
    }
}

/// A header without a parameter that begins with `tag=` has no tag, and neither has a missing one.
pub proof fn law_no_tag(address: Text)
    requires
        untagged(address),
    ensures
        fields::to_tag(Some(address)) is None,
        fields::to_tag(None) is None,
{
    let front = text::pieces(address, ';');
    lemma_no_tag_among(front, Seq::empty());
    assert(front + Seq::<Text>::empty() =~= front);
}

// ---------------------------------------------------------------------------------------------
// Contacts

/// The address in the angle brackets of a Contact header is found if it is a SIP address, and
/// nothing is found if it is another one.
pub proof fn law_contacts_are_found(name: Text, uri: Text, rest: Text)
    requires
        !name.contains('<'),
        !uri.contains('>'),
        text::trimmed(name + "<"@ + uri + ">"@ + rest) == name + "<"@ + uri + ">"@ + rest,
    ensures
        fields::contact_uri(Some(name + "<"@ + uri + ">"@ + rest)) == (if "sip"@.is_prefix_of(
            text::lower(uri),
        ) {
            Some(uri)
        } else {
            None
        }),
{
    reveal_strlit("<");
    reveal_strlit(">");
    let h = name + "<"@ + uri + ">"@ + rest;
    let a = "<"@ + uri + ">"@ + rest;
    assert(h =~= name + a);
    wire::lemma_position_after(name, a, "<"@);
    assert("<"@.is_prefix_of(a)) by {
        assert(a.subrange(0, 1) =~= "<"@);
    }
    let inner = uri + (">"@ + rest);
    assert(h.skip(name.len() + 1int) =~= inner);
    wire::lemma_position_after(uri, ">"@ + rest, ">"@);
    assert(">"@.is_prefix_of(">"@ + rest)) by {
        assert((">"@ + rest).subrange(0, 1) =~= ">"@);
    }
    assert(inner.take(uri.len() as int) =~= uri);
}

/// Without angle brackets a Contact header is the address up to its parameters.
pub proof fn law_bare_contacts_are_found(uri: Text, rest: Text)
    requires
        reading::is_word(uri),
        !uri.contains(';'),
        !(uri + rest).contains('<'),
        rest.len() > 0 ==> rest[0] == ';',
        text::trimmed(uri + rest) == uri + rest,
    ensures
        fields::contact_uri(Some(uri + rest)) == (if "sip"@.is_prefix_of(text::lower(uri)) {
            Some(uri)
        } else {
            None
        }),
        fields::contact_uri(None) is None,
{
    reveal_strlit("<");
    let h = uri + rest;
    assert(h + Seq::<char>::empty() =~= h);
    wire::lemma_position_after(h, Seq::empty(), "<"@);
    assert(!"<"@.is_prefix_of(Seq::<char>::empty()));
    lemma_first_piece(uri, rest, ';');
    reading::lemma_word_is_tidy(uri);
}

// ---------------------------------------------------------------------------------------------
// Callers and radios

/// The user in an address is found, whatever name comes before the address, in whatever case its
/// scheme is written, and whatever follows the user: a host, parameters or the end of the header.
pub proof fn law_users_are_found_anywhere(name: Text, scheme: Text, user: Text, rest: Text)
    requires
        text::lower(scheme) == "sip:"@,
        numbers::is_user(user),
        !name.contains(':'),
        name.len() > 0 ==> !text::is_white(name[0]),
        rest.len() > 0 ==> fields::ends_user(rest[0]) && !text::is_white(rest.last()),
    ensures
        fields::uri_user(name + scheme + user + rest) == Some(user),
{
    reveal_strlit("sip:");
    let v = name + scheme + user + rest;
    let n = name.len() as int;
    assert(scheme.len() == text::lower(scheme).len());
    assert(!text::is_white(user[0]) && !text::is_white(user[user.len() - 1]));
    assert(!text::is_white(v[0])) by {
        if n == 0 {
            assert(v[0] == scheme[0]);
            assert(text::lower(scheme)[0] == 's');
            assert(text::lower_char(scheme[0]) == 's');
        }
    }
    assert(!text::is_white(v.last()));
    reading::lemma_trimmed(v);
    lemma_scheme_found(name, scheme, user + rest);
    assert(v =~= name + scheme + (user + rest));
    assert(v.skip(n + 4) =~= user + rest);
    lemma_user_read(user, rest);
}

/// A user is read up to what ends it.
proof fn lemma_user_read(user: Text, rest: Text)
    requires
        numbers::is_user(user),
        rest.len() > 0 ==> fields::ends_user(rest[0]),
    ensures
        text::unquoted(text::trimmed(fields::user_part(user + rest))) == user,
{
    if rest.len() > 0 {
        numbers::lemma_user_part(user, rest);
    } else {
        lemma_whole_user(user);
        assert(user + rest =~= user);
    }
    assert(!text::is_white(user[0]) && !text::is_white(user[user.len() - 1]));
    reading::lemma_trimmed(user);
    let q = |c: char| c == '"';
    assert(!q(user[0]) && !q(user.last()));
    assert(text::unquoted(user) == user);
}

/// Without a scheme an address begins with its user.
pub proof fn law_users_are_found_without_a_scheme(user: Text, rest: Text)
    requires
        numbers::is_user(user),
        text::position(text::lower(user + rest), "sip:"@) is None,
        rest.len() > 0 ==> fields::ends_user(rest[0]) && !text::is_white(rest.last()),
    ensures
        fields::uri_user(user + rest) == Some(user),
{
    let v = user + rest;
    assert(!text::is_white(user[0]) && !text::is_white(user[user.len() - 1]));
    assert(v[0] == user[0]);
    assert(v.last() == if rest.len() > 0 {
        rest.last()
    } else {
        user.last()
    });
    reading::lemma_trimmed(v);
    lemma_user_read(user, rest);
}

proof fn lemma_whole_user(user: Text)
    requires
        forall|i: int| 0 <= i < user.len() ==> !fields::ends_user(#[trigger] user[i]),
    ensures
        fields::user_part(user) == user,
    decreases user.len(),
{
    if user.len() == 0 {
        assert(fields::user_part(user) =~= user);
    } else {
        let rest = user.drop_first();
        assert(!fields::ends_user(user[0]));
        assert forall|i: int| 0 <= i < rest.len() implies !fields::ends_user(
            #[trigger] rest[i],
        ) by {
            assert(rest[i] == user[i + 1]);
        }
        lemma_whole_user(rest);
        assert(seq![user[0]] + rest =~= user);
    }
}

/// The scheme of an address is found after a name without a colon.
proof fn lemma_scheme_found(name: Text, scheme: Text, rest: Text)
    requires
        !name.contains(':'),
        text::lower(scheme) == "sip:"@,
    ensures
        text::position(text::lower(name + scheme + rest), "sip:"@) == Some(name.len() as int),
{
    reveal_strlit("sip:");
    let s = text::lower(name + scheme + rest);
    let n = name.len() as int;
    text::lemma_position(s, "sip:"@);
    assert(scheme.len() == text::lower(scheme).len());
    assert(s.len() == n + 4 + rest.len());
    assert(s.skip(n).subrange(0, 4) =~= text::lower(scheme));
    assert("sip:"@.is_prefix_of(s.skip(n)));
    match text::position(s, "sip:"@) {
        Some(i) => {
            assert(i <= n) by {
                if i > n {
                    assert(!"sip:"@.is_prefix_of(s.skip(n)));
                }
            }
            if i < n {
                let found = s.subrange(i, i + 4);
                assert(found == "sip:"@);
                assert(found[3] == ':');
                assert(s[i + 3] == ':');
                if i + 3 < n {
                    assert(text::lower_char(name[i + 3]) == ':');
                    assert(name[i + 3] == ':');
                    assert(name.contains(name[i + 3]));
                } else {
                    assert(s[i + 3] == text::lower(scheme)[i + 3 - n]);
                }
            }
        },
        None => {
            assert(!"sip:"@.is_prefix_of(s.skip(n)));
        },
    }
}

/// An address whose user is empty names nobody.
pub proof fn law_empty_users_are_nobody(value: Text)
    ensures
        fields::uri_user(value) matches Some(user) ==> user.len() > 0,
{
}

/// The number of a caller is the user of the asserted identity, or else that of the remote party,
/// or else that of From; a caller without any has the number zero.
pub proof fn law_callers_are_named(msg: MessageModel)
    ensures
        ({
            let user = |name: Text|
                match msg.header(name) {
                    Some(value) => fields::uri_user(value),
                    None => None,
                };
            let asserted = user("P-Asserted-Identity"@);
            let party = user("Remote-Party-ID"@);
            let from = user("From"@);
            let caller = fields::caller_number(msg);
            &&& asserted matches Some(u) ==> caller == u
            &&& asserted is None && party is Some ==> Some(caller) == party
            &&& asserted is None && party is None && from is Some ==> Some(caller) == from
            &&& asserted is None && party is None && from is None ==> caller == "0"@
        }),
{
}

/// A call is for the radio that its Request-URI names, by its number or by its number after the
/// configured prefix; if the Request-URI names none, it is for the one that To names.
pub proof fn law_calls_are_for_the_radio_named(
    msg: MessageModel,
    n: u32,
    prefix: Text,
    host: Text,
)
    requires
        reading::is_word(host),
        numbers::is_user(prefix),
    ensures
        ({
            let user = prefix + text::decimal(n as nat);
            let uri = msg.request_uri();
            let to = msg.header("To"@);
            &&& uri == Some("sip:"@ + user + "@"@ + host) ==> fields::destination_issi(
                msg,
                prefix,
            ) == Some(n as nat)
            &&& fields::address_issi(uri, prefix) is None && to == Some(
                "<sip:"@ + user + "@"@ + host + ">"@,
            ) ==> fields::destination_issi(msg, prefix) == Some(n as nat)
            &&& fields::address_issi(uri, prefix) is None && to is None
                ==> fields::destination_issi(msg, prefix) is None
        }),
{
    let digits = text::decimal(n as nat);
    let user = prefix + digits;
    numbers::law_radios_are_found(n, prefix, host);
    numbers::lemma_prefixed_user(n, prefix);
    reveal_strlit("<sip:");
    reveal_strlit("<");
    reveal_strlit("sip:");
    reveal_strlit("@");
    reveal_strlit(">");
    let rest = "@"@ + host + ">"@;
    assert("<sip:"@ + user + "@"@ + host + ">"@ =~= "<"@ + "sip:"@ + user + rest);
    assert(rest[0] == '@');
    assert(rest.last() == '>');
    assert(text::lower("sip:"@) =~= "sip:"@);
    law_users_are_found_anywhere("<"@, "sip:"@, user, rest);
    reading::law_numbers_are_read_back(n as nat, u32::MAX as nat);
    assert(prefix.is_prefix_of(user)) by {
        assert(user.subrange(0, prefix.len() as int) =~= prefix);
    }
    assert(user.skip(prefix.len() as int) =~= digits);
}

/// The Request-URI decides which radio a call is for, if it names one, and To decides otherwise.
pub proof fn law_request_uris_count_before_to(msg: MessageModel, prefix: Text)
    ensures
        ({
            let uri = fields::address_issi(msg.request_uri(), prefix);
            let to = fields::address_issi(msg.header("To"@), prefix);
            let radio = fields::destination_issi(msg, prefix);
            &&& uri is Some ==> radio == uri
            &&& uri is None ==> radio == to
        }),
        fields::address_issi(None, prefix) is None,
{
}

/// A user that is not a number names no radio, and neither does a number that is too great.
pub proof fn law_other_users_name_no_radio(user: Text, host: Text, prefix: Text)
    requires
        numbers::is_user(user),
        reading::is_word(host),
    ensures
        ({
            let rest = if prefix.len() > 0 && prefix.is_prefix_of(user) {
                user.skip(prefix.len() as int)
            } else {
                user
            };
            let radio = fields::address_issi(Some("sip:"@ + user + "@"@ + host), prefix);
            &&& !text::all_digits(rest) || rest.len() == 0 || text::digits_value(rest) > u32::MAX
                ==> radio is None
            &&& text::all_digits(rest) && rest.len() > 0 && text::digits_value(rest) <= u32::MAX
                ==> radio == Some(text::digits_value(rest))
        }),
{
    numbers::law_users_are_found(user, host);
    let rest = if prefix.len() > 0 && prefix.is_prefix_of(user) {
        user.skip(prefix.len() as int)
    } else {
        user
    };
    if rest.len() > 0 && text::all_digits(rest) {
        assert('0' <= rest[0] <= '9');
    }
}

} // verus!
