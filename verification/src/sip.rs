//! SIP messages: reading a datagram, and reading the fields that calls depend on.
use vstd::prelude::*;
use vstd::slice::slice_subrange;
use vstd::string::*;
use crate::text;
use crate::text::Text;

verus! {

/// The text that `String::from_utf8_lossy` makes of `bytes`.
pub uninterp spec fn lossy_text(bytes: Seq<u8>) -> Seq<char>;

/// `String::from_utf8_lossy`: the text of a byte string, with the replacement character in
/// place of what is not UTF-8. Valid UTF-8 comes out as the text that it encodes, and bytes never
/// come out as no text at all.
#[verifier::external_body]
fn from_utf8_lossy(bytes: &[u8]) -> (s: String)
    ensures
        s@ == lossy_text(bytes@),
        vstd::utf8::valid_utf8(bytes@) ==> s@ == vstd::utf8::decode_utf8(bytes@),
        bytes@.len() > 0 ==> s@.len() > 0,
{
    String::from_utf8_lossy(bytes).into_owned()
}

/// The text of an optional string slice.
pub open spec fn opt_text(o: Option<&str>) -> Option<Text> {
    match o {
        Some(s) => Some(s@),
        None => None,
    }
}

/// The text of an optional string.
pub open spec fn opt_string(o: Option<String>) -> Option<Text> {
    match o {
        Some(s) => Some(s@),
        None => None,
    }
}

/// A SIP request or response, split into its parts.
#[derive(Debug)]
pub struct SipMessage {
    pub start_line: String,
    pub headers: Vec<(String, String)>,
    pub body: String,
}

/// What a [`SipMessage`] says.
#[verifier::ext_equal]
pub struct MessageModel {
    pub start_line: Text,
    pub headers: Seq<(Text, Text)>,
    pub body: Text,
}

/// The name and the value of a header line; a line without a colon is none.
pub open spec fn header_field(line: Text) -> Option<(Text, Text)> {
    match text::halves(line, ":"@) {
        Some((name, value)) => Some((text::trimmed(name), text::trimmed(value))),
        None => None,
    }
}

/// The message that `text` spells: a start line, header lines up to the first empty line, and
/// a body. There is none if nothing comes before the first empty line.
pub open spec fn message_of(text: Text) -> Option<MessageModel> {
    let t = text::unix_lines(text);
    let (head, body) = match text::halves(t, "\n\n"@) {
        Some((h, b)) => (h, b),
        None => (t, Seq::empty()),
    };
    let ls = text::lines_of(head);
    if ls.len() == 0 {
        None
    } else {
        Some(
            MessageModel {
                start_line: text::trimmed(ls[0]),
                headers: ls.drop_first().filter_map(|l: Text| header_field(l)),
                body,
            },
        )
    }
}

/// The value of the first header of that name, in whatever case it is written.
pub open spec fn first_value(headers: Seq<(Text, Text)>, name: Text) -> Option<Text>
    decreases headers.len(),
{
    if headers.len() == 0 {
        None
    } else if text::same_ignoring_case(headers[0].0, name) {
        Some(headers[0].1)
    } else {
        first_value(headers.drop_first(), name)
    }
}

impl MessageModel {
    /// Whether this is a response.
    pub open spec fn is_response(self) -> bool {
        "SIP/2.0 "@.is_prefix_of(self.start_line)
    }

    pub open spec fn header(self, name: Text) -> Option<Text> {
        first_value(self.headers, name)
    }

    /// The status code, in a response that has one.
    pub open spec fn status_code(self) -> Option<nat> {
        if self.is_response() {
            match text::nth_word(self.start_line, 1) {
                Some(w) => text::number(w, u16::MAX as nat),
                None => None,
            }
        } else {
            None
        }
    }

    /// The method, in a request.
    pub open spec fn method(self) -> Option<Text> {
        if self.is_response() {
            None
        } else {
            text::nth_word(self.start_line, 0)
        }
    }

    /// The Request-URI, in a request.
    pub open spec fn request_uri(self) -> Option<Text> {
        if self.is_response() {
            None
        } else {
            text::nth_word(self.start_line, 1)
        }
    }

    /// The method that the CSeq header names.
    pub open spec fn cseq_method(self) -> Option<Text> {
        match self.header("CSeq"@) {
            Some(v) => text::nth_word(v, 1),
            None => None,
        }
    }

    pub open spec fn call_id(self) -> Option<Text> {
        self.header("Call-ID"@)
    }
}

/// The headers that a list of string pairs spells.
pub open spec fn header_texts(v: Seq<(String, String)>) -> Seq<(Text, Text)> {
    Seq::new(v.len(), |i: int| (v[i].0@, v[i].1@))
}

impl View for SipMessage {
    type V = MessageModel;

    open spec fn view(&self) -> MessageModel {
        MessageModel {
            start_line: self.start_line@,
            headers: header_texts(self.headers@),
            body: self.body@,
        }
    }
}

/// The `n`th word of `s`, as a part of it.
fn str_word(s: &str, n: usize) -> (r: Option<&str>)
    ensures
        opt_text(r) == text::nth_word(s@, n as nat),
{
    let v: Vec<char> = text::chars_of(s);
    match text::word_bounds(&v, n) {
        Some((a, b)) => Some(s.substring_char(a, b)),
        None => None,
    }
}

/// Whether `s` begins with `prefix`.
fn str_starts_with(s: &str, prefix: &str) -> (r: bool)
    ensures
        r == prefix@.is_prefix_of(s@),
{
    let v: Vec<char> = text::chars_of(s);
    let p: Vec<char> = text::chars_of(prefix);
    text::starts_with(&v, &p)
}

impl SipMessage {
    /// Reads a datagram as a SIP message.
    pub fn parse(bytes: &[u8]) -> (r: Option<SipMessage>)
        ensures
            match r {
                Some(m) => message_of(lossy_text(bytes@)) == Some(m@),
                None => message_of(lossy_text(bytes@)) is None,
            },
            vstd::utf8::valid_utf8(bytes@) ==> lossy_text(bytes@) == vstd::utf8::decode_utf8(
                bytes@,
            ),
            bytes@.len() > 0 ==> lossy_text(bytes@).len() > 0,
    {
        let text = from_utf8_lossy(bytes);
        SipMessage::parse_text(text.as_str())
    }

    /// Reads a text as a SIP message.
    pub fn parse_text(text: &str) -> (r: Option<SipMessage>)
        ensures
            match r {
                Some(m) => message_of(text@) == Some(m@),
                None => message_of(text@) is None,
            },
    {
        let raw: Vec<char> = text::chars_of(text);
        let t: Vec<char> = text::normalize_line_ends(&raw);
        let gap: Vec<char> = text::chars_of("\n\n");
        let n: usize = t.len();
        let (head, body): (&[char], &[char]) = match text::split_once(&t, &gap) {
            Some((h, b)) => (h, b),
            None => (&t, slice_subrange(&t, n, n)),
        };
        let ls: Vec<&[char]> = text::lines(head);
        if ls.len() == 0 {
            return None;
        }
        let ghost all = text::lines_of(head@);
        let ghost f = |l: Text| header_field(l);
        let colon: Vec<char> = text::chars_of(":");
        let mut headers: Vec<(String, String)> = Vec::new();
        let mut i: usize = 1;
        assert(all.drop_first().take(0).filter_map(f) == Seq::<(Text, Text)>::empty()) by {
            reveal_with_fuel(Seq::filter_map, 1);
        }
        while i < ls.len()
            invariant
                1 <= i <= ls@.len(),
                text::spelled(ls@) == all,
                colon@ == ":"@,
                f == (|l: Text| header_field(l)),
                header_texts(headers@) == all.drop_first().take(i - 1).filter_map(f),
            decreases ls@.len() - i,
        {
            let ghost before = headers@;
            let ghost rest = all.drop_first();
            assert(rest[i - 1] == ls@[i as int]@);
            proof {
                rest.lemma_filter_map_take_succ(f, i - 1);
            }
            if let Some((name, value)) = text::split_once(ls[i], &colon) {
                headers.push(
                    (text::string_of(text::trim(name)), text::string_of(text::trim(value))),
                );
                proof {
                    assert(header_texts(headers@) == header_texts(before) + seq![
                        (text::trimmed(name@), text::trimmed(value@)),
                    ]);
                }
            }
            i = i + 1;
        }
        assert(all.drop_first().take(all.len() - 1) == all.drop_first());
        Some(
            SipMessage {
                start_line: text::string_of(text::trim(ls[0])),
                headers,
                body: text::string_of(body),
            },
        )
    }

    /// The value of the first header called `name`.
    pub fn header(&self, name: &str) -> (r: Option<&str>)
        ensures
            opt_text(r) == self@.header(name@),
    {
        let mut i: usize = 0;
        assert(self@.headers.skip(0) == self@.headers);
        while i < self.headers.len()
            invariant
                i <= self.headers@.len(),
                self@.header(name@) == first_value(self@.headers.skip(i as int), name@),
            decreases self.headers@.len() - i,
        {
            proof {
                assert(self@.headers.skip(i as int).drop_first() == self@.headers.skip(i + 1));
                assert(self@.headers.skip(i as int)[0] == self@.headers[i as int]);
            }
            if text::eq_ignore_case(self.headers[i].0.as_str(), name) {
                return Some(self.headers[i].1.as_str());
            }
            i = i + 1;
        }
        None
    }

    /// The status code of a response.
    pub fn status_code(&self) -> (r: Option<u16>)
        ensures
            match r {
                Some(code) => self@.status_code() == Some(code as nat),
                None => self@.status_code() is None,
            },
    {
        if !str_starts_with(self.start_line.as_str(), "SIP/2.0 ") {
            return None;
        }
        match str_word(self.start_line.as_str(), 1) {
            Some(w) => match text::parse_number(&text::chars_of(w), 65535) {
                Some(n) => Some(n as u16),
                None => None,
            },
            None => None,
        }
    }

    /// The method of a request.
    pub fn method(&self) -> (r: Option<&str>)
        ensures
            opt_text(r) == self@.method(),
    {
        if str_starts_with(self.start_line.as_str(), "SIP/2.0 ") {
            None
        } else {
            str_word(self.start_line.as_str(), 0)
        }
    }

    /// The Request-URI of a request.
    pub fn request_uri(&self) -> (r: Option<&str>)
        ensures
            opt_text(r) == self@.request_uri(),
    {
        if str_starts_with(self.start_line.as_str(), "SIP/2.0 ") {
            None
        } else {
            str_word(self.start_line.as_str(), 1)
        }
    }

    /// The method in the CSeq header.
    pub fn cseq_method(&self) -> (r: Option<&str>)
        ensures
            opt_text(r) == self@.cseq_method(),
    {
        match self.header("CSeq") {
            Some(v) => str_word(v, 1),
            None => None,
        }
    }

    /// The Call-ID.
    pub fn call_id(&self) -> (r: Option<&str>)
        ensures
            opt_text(r) == self@.call_id(),
    {
        self.header("Call-ID")
    }
}

} // verus!
