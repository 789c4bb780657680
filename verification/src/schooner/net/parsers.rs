//! Framing of network messages: a `Content-Length: NN` header line, then
//! the NN bytes of the message; and the `Server-Id: NN` line with which a
//! peer introduces itself.
use vstd::prelude::*;
use vstd::string::StringSliceAdditionalSpecFns;

use crate::text::{
    all_ascii_digits, concat_str, decimal, lemma_decimal_digits, parse_usize, parse_usize_spec,
    push_char, string_from_chars, chars_of, write_decimal,
};

verus! {

/// The name of the header that introduces a peer.
pub const ID_TOKEN: &'static str = "Server-Id";

/// The name of the header that gives a message's length.
pub const LENGTH_TOKEN: &'static str = "Content-Length";

/// The name of the header that gives a message's type.
pub const TYPE_TOKEN: &'static str = "Content-Type";

/// A network message that could not be read, with the reason.
#[derive(Debug)]
pub struct InputError {
    pub desc: String,
}

/// `p` occurs in `s`.
pub open spec fn occurs_in(p: Seq<char>, s: Seq<char>) -> bool {
    exists|i: int| 0 <= i && i + p.len() <= s.len() && #[trigger] s.subrange(i, i + p.len()) == p
}

/// Characters that stand for themselves in a regular expression and
/// that the header prefixes are made of.
pub open spec fn is_plain_char(c: char) -> bool {
    ('a' <= c && c <= 'z') || ('A' <= c && c <= 'Z') || ('0' <= c && c <= '9') || c == '-' || c
        == ':' || c == ' '
}

/// A short prefix made of plain characters only (short enough that the
/// regular expression built from it stays far within the regex crate's
/// size limit).
pub open spec fn is_plain_literal(p: Seq<char>) -> bool {
    &&& p.len() <= 64
    &&& forall|i: int| 0 <= i < p.len() ==> is_plain_char(#[trigger] p[i])
}

/// The regular expression `<prefix>(\d+)`: the prefix, then a group of
/// one or more digits.
pub open spec fn number_pattern(prefix: Seq<char>) -> Seq<char> {
    prefix + seq!['(', '\\', 'd', '+', ')']
}

/// The text that group 1 of the leftmost match of the regular expression
/// `pattern` captures in `hay`, if `pattern` is a valid regular expression
/// that matches `hay` and the group takes part in the match.
pub uninterp spec fn regex_group1(pattern: Seq<char>, hay: Seq<char>) -> Option<Seq<char>>;

/// `regex::Regex::new(pattern)`, then `captures(hay)` and its group 1 (no
/// capture when the pattern does not compile).  For a pattern
/// `<prefix>(\d+)` with a prefix of at most 64 plain characters, as the
/// regex crate documents leftmost-first matching and greedy repetition, a
/// `hay` that is the prefix followed by ASCII digits alone gives those
/// digits, and a `hay` in which the prefix does not occur gives nothing.
/// What Unicode counts as a digit is not stated.
#[verifier::external_body]
fn regex_capture_group1(pattern: &str, hay: &str) -> (r: Option<String>)
    ensures
        r.deep_view() == regex_group1(pattern@, hay@),
        forall|p: Seq<char>, d: Seq<char>|
            #![trigger number_pattern(p), (p + d)]
            pattern@ == number_pattern(p) && is_plain_literal(p) && hay@ == p + d && d.len() > 0
                && all_ascii_digits(d) ==> r.deep_view() == Some(d),
        forall|p: Seq<char>|
            pattern@ == #[trigger] number_pattern(p) && is_plain_literal(p) && !occurs_in(p, hay@)
                ==> r is None,
{
    match regex::Regex::new(pattern) {
        Ok(re) => match re.captures(hay) {
            Some(caps) => match caps.get(1) {
                Some(m) => Some(m.as_str().to_string()),
                None => None,
            },
            None => None,
        },
        Err(_) => None,
    }
}

/// The regular expression `<prefix>(\d+)`, as a string.
fn make_number_pattern(prefix: &str) -> (r: String)
    ensures
        r@ == number_pattern(prefix@),
{
    let mut r = string_from_chars(&chars_of(prefix));
    push_char(&mut r, '(');
    push_char(&mut r, '\\');
    push_char(&mut r, 'd');
    push_char(&mut r, '+');
    push_char(&mut r, ')');
    assert(r@ =~= number_pattern(prefix@));
    r
}

/// The number after `prefix` in `hay`: the capture of `<prefix>(\d+)`,
/// parsed as a `usize`.
pub open spec fn header_number(prefix: Seq<char>, hay: Seq<char>) -> Option<usize> {
    match regex_group1(number_pattern(prefix), hay) {
        Some(d) => parse_usize_spec(d),
        None => None,
    }
}

/// The header line `<name>: <decimal n>`.
pub open spec fn header_line(name: Seq<char>, n: nat) -> Seq<char> {
    name + ": "@ + decimal(n)
}

/// The number of bytes of `s` in UTF-8.
pub open spec fn byte_len(s: &str) -> nat {
    s.len() as nat
}

/// Reads the number after `prefix` in `hay`; `Err` with `desc` when
/// there is none.  A `hay` that is `prefix` followed by the decimal form of
/// a `usize` gives that number back.
fn parse_header_number(prefix: &str, hay: &str, desc: &str) -> (r: Result<usize, InputError>)
    requires
        is_plain_literal(prefix@),
    ensures
        match header_number(prefix@, hay@) {
            Some(v) => r matches Ok(x) && x == v,
            None => r matches Err(e) && e.desc@ == desc@,
        },
        forall|n: nat| n <= usize::MAX && hay@ == #[trigger] (prefix@ + decimal(n)) ==> (r matches Ok(x) && x == n),
        !occurs_in(prefix@, hay@) ==> r is Err,
{
    let pattern = make_number_pattern(prefix);
    let cap = regex_capture_group1(pattern.as_str(), hay);
    assert(cap.deep_view() == regex_group1(number_pattern(prefix@), hay@));
    assert forall|n: nat| n <= usize::MAX && hay@ == #[trigger] (prefix@ + decimal(n)) implies
        header_number(prefix@, hay@) == Some(n as usize) by {
        lemma_decimal_digits(n);
        assert(hay@ == prefix@ + decimal(n));
        assert(cap.deep_view() == Some(decimal(n)));
    }
    assert(!occurs_in(prefix@, hay@) ==> cap is None);
    let parsed = match cap {
        Some(s) => parse_usize(s.as_str()),
        None => None,
    };
    to_result(parsed, desc)
}

/// `ok` as a `Result`, with an error that carries `err` when it is `None`.
pub fn to_result<T>(ok: Option<T>, err: &str) -> (r: Result<T, InputError>)
    ensures
        match ok {
            Some(v) => r matches Ok(x) && x == v,
            None => r matches Err(e) && e.desc@ == err@,
        },
{
    match ok {
        Some(res) => Ok(res),
        None => Err(InputError { desc: string_from_chars(&chars_of(err)) }),
    }
}

/// The length header of `s`: `Content-Length: ` and the number of bytes
/// of `s`.
pub fn make_content_length(s: &str) -> (r: String)
    ensures
        r@ == header_line(LENGTH_TOKEN@, byte_len(s)),
{
    let mut r = concat_str(LENGTH_TOKEN, ": ");
    write_decimal(&mut r, s.len());
    r
}

/// The header with which a peer gives its id: `Server-Id: ` and the id.
pub fn make_id_hdr(id: usize) -> (r: String)
    ensures
        r@ == header_line(ID_TOKEN@, id as nat),
{
    let mut r = concat_str(ID_TOKEN, ": ");
    write_decimal(&mut r, id);
    r
}

/// `msg` framed with its length header: the header, a line feed, then
/// `msg`.
pub fn frame_msg(msg: &str) -> (r: String)
    ensures
        r@ == header_line(LENGTH_TOKEN@, byte_len(msg)) + seq!['\n'] + msg@,
{
    let mut r = make_content_length(msg);
    let nl = concat_str(r.as_str(), "\n");
    proof {
        reveal_strlit("\n");
    }
    concat_str(nl.as_str(), msg)
}

/// The length in a `Content-Length: NN` header (the first such header in
/// the line).  A header made by `make_content_length` gives back the
/// length it was made with.
pub fn parse_content_length(len_hdr: &str) -> (r: Result<usize, InputError>)
    ensures
        match header_number((LENGTH_TOKEN@ + ": "@), len_hdr@) {
            Some(v) => r matches Ok(x) && x == v,
            None => r is Err,
        },
        forall|n: nat| n <= usize::MAX && len_hdr@ == #[trigger] header_line(LENGTH_TOKEN@, n) ==> (r matches Ok(x) && x == n),
        !occurs_in(LENGTH_TOKEN@ + ": "@, len_hdr@) ==> r is Err,
{
    let prefix = concat_str(LENGTH_TOKEN, ": ");
    proof {
        reveal_strlit("Content-Length");
        reveal_strlit(": ");
        assert(is_plain_literal(prefix@));
    }
    parse_header_number(prefix.as_str(), len_hdr, "Failed parsing content length")
}

/// The id in a `Server-Id: NN` header (the first such header in the
/// line).  A header made by `make_id_hdr` gives back its id.
pub fn parse_server_id(id_hdr: &str) -> (r: Result<usize, InputError>)
    ensures
        match header_number((ID_TOKEN@ + ": "@), id_hdr@) {
            Some(v) => r matches Ok(x) && x == v,
            None => r is Err,
        },
        forall|n: nat| n <= usize::MAX && id_hdr@ == #[trigger] header_line(ID_TOKEN@, n) ==> (r matches Ok(x) && x == n),
        !occurs_in(ID_TOKEN@ + ": "@, id_hdr@) ==> r is Err,
{
    let prefix = concat_str(ID_TOKEN, ": ");
    proof {
        reveal_strlit("Server-Id");
        reveal_strlit(": ");
        assert(is_plain_literal(prefix@));
    }
    parse_header_number(prefix.as_str(), id_hdr, "Failed parsing server ID")
}

} // verus!
