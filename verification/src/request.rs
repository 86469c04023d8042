//! The head of an HTTP request: the request line and the header lines, read
//! for what the server needs of them.

use crate::text::{
    chars_of, next_word, parse_decimal, parse_usize, text_eq, word_at,
};
use vstd::prelude::*;

verus! {

/// The position of the last `/` in `t`, or `-1` where it holds none.
pub open spec fn last_slash(t: Seq<char>) -> int
    decreases t.len(),
{
    if t.len() == 0 {
        -1
    } else if t.last() == '/' {
        t.len() - 1
    } else {
        last_slash(t.drop_last())
    }
}

/// A request target taken apart into path and query.
///
/// A target with two or more `/` ends in a query: what follows its last `/`.
/// The path is what stands before that `/`. A target with fewer is all path.
pub open spec fn split_target(t: Seq<char>) -> (Seq<char>, Seq<char>) {
    let k = last_slash(t);
    if k >= 0 && t.take(k).contains('/') {
        (t.take(k), t.skip(k + 1))
    } else {
        (t, Seq::empty())
    }
}

/// The mathematical content of a request line.
pub struct RequestLineView {
    pub method: Seq<char>,
    pub path: Seq<char>,
    pub query: Seq<char>,
}

/// What a request line says: its first word is the method, its second the
/// target. A line of fewer than two words says nothing.
pub open spec fn request_line(line: Seq<char>) -> Option<RequestLineView> {
    match word_at(line, 0) {
        Some((a, b)) => match word_at(line, b) {
            Some((c, d)) => {
                let target = split_target(line.subrange(c, d));
                Some(RequestLineView { method: line.subrange(a, b), path: target.0, query: target.1 })
            },
            None => None,
        },
        None => None,
    }
}

/// The last `/` of a text is the one that no other follows.
proof fn lemma_last_slash(t: Seq<char>, k: int)
    requires
        -1 <= k < t.len(),
        k >= 0 ==> t[k] == '/',
        forall|j: int| k < j < t.len() ==> t[j] != '/',
    ensures
        last_slash(t) == k,
    decreases t.len(),
{
    if t.len() > 0 && k < t.len() - 1 {
        lemma_last_slash(t.drop_last(), k);
    }
}

/// Where to cut the target that `chars` holds from `from` up to `to`: the
/// place of its last `/` if it has two or more.
fn find_cut(chars: &Vec<char>, from: usize, to: usize) -> (cut: Option<usize>)
    requires
        from <= to <= chars@.len(),
    ensures
        ({
            let t = chars@.subrange(from as int, to as int);
            match cut {
                Some(k) => from <= k < to && split_target(t) == (t.take(k - from), t.skip(k - from + 1)),
                None => split_target(t) == (t, Seq::<char>::empty()),
            }
        }),
{
    let ghost t = chars@.subrange(from as int, to as int);
    let mut k: usize = to;
    while k > from && chars[k - 1] != '/'
        invariant
            from <= k <= to <= chars@.len(),
            t == chars@.subrange(from as int, to as int),
            forall|j: int| k - from <= j < t.len() ==> t[j] != '/',
        decreases k,
    {
        k -= 1;
    }
    if k == from {
        proof {
            lemma_last_slash(t, -1);
        }
        return None;
    }
    let last: usize = k - 1;
    proof {
        lemma_last_slash(t, last - from);
    }
    let mut i: usize = from;
    while i < last
        invariant
            from <= i <= last < to <= chars@.len(),
            t == chars@.subrange(from as int, to as int),
            last_slash(t) == last - from,
            forall|j: int| 0 <= j < i - from ==> t[j] != '/',
        decreases last - i,
    {
        if chars[i] == '/' {
            assert(t.take(last - from)[i - from] == '/');
            assert(t.take(last - from).contains('/'));
            return Some(last);
        }
        i += 1;
    }
    assert(!t.take(last - from).contains('/')) by {
        let head = t.take(last - from);
        if head.contains('/') {
            let j = choose|j: int| 0 <= j < head.len() && head[j] == '/';
            assert(t[j] == '/');
        }
    }
    None
}

/// The words of a request line that the server acts on.
pub struct RequestLine {
    method: String,
    path: String,
    query: String,
}

impl View for RequestLine {
    type V = RequestLineView;

    closed spec fn view(&self) -> RequestLineView {
        RequestLineView { method: self.method@, path: self.path@, query: self.query@ }
    }
}

impl RequestLine {
    /// Reads a request line. It gives `None` exactly for a line of fewer than
    /// two words.
    pub fn parse(line: &str) -> (parsed: Option<RequestLine>)
        ensures
            match parsed {
                Some(request) => request_line(line@) == Some(request@),
                None => request_line(line@) is None,
            },
    {
        let chars = chars_of(line);
        let (a, b) = match next_word(&chars, 0) {
            Some(word) => word,
            None => {
                return None;
            },
        };
        let (c, d) = match next_word(&chars, b) {
            Some(word) => word,
            None => {
                return None;
            },
        };
        let ghost target = line@.subrange(c as int, d as int);
        let method = line.substring_char(a, b).to_owned();
        let (path, query) = match find_cut(&chars, c, d) {
            Some(k) => {
                assert(line@.subrange(c as int, k as int) =~= target.take(k - c));
                assert(line@.subrange(k + 1, d as int) =~= target.skip(k - c + 1));
                (line.substring_char(c, k).to_owned(), line.substring_char(k + 1, d).to_owned())
            },
            None => (line.substring_char(c, d).to_owned(), String::new()),
        };
        Some(RequestLine { method, path, query })
    }

    /// The request method, as written.
    pub fn method(&self) -> (method: &str)
        ensures
            method@ == self@.method,
    {
        self.method.as_str()
    }

    /// The path that the request names.
    pub fn path(&self) -> (path: &str)
        ensures
            path@ == self@.path,
    {
        self.path.as_str()
    }

    /// What follows the path in the target; empty where nothing does.
    pub fn query(&self) -> (query: &str)
        ensures
            query@ == self@.query,
    {
        self.query.as_str()
    }
}

/// What a header line means to the server.
#[derive(Clone, Copy, Debug, PartialEq, Eq, Structural)]
pub enum Header {
    /// The empty line that ends the head.
    End,
    /// The length of the body, in bytes.
    ContentLength(usize),
    /// A length header without a value.
    Malformed,
    /// Any other line.
    Other,
}

/// How the header that gives the body's length begins.
pub open spec fn length_header() -> Seq<char> {
    "Content-Length:"@
}

/// Whether `s` begins with `p`.
pub open spec fn begins_with(s: Seq<char>, p: Seq<char>) -> bool {
    p.len() <= s.len() && s.take(p.len() as int) == p
}

/// What a header line means.
///
/// A line that is just a line break ends the head. A line that begins with
/// `Content-Length:` gives the body's length in its second word; it is
/// malformed without a second word, and a second word that is no number in
/// range stands for zero. Every other line is passed over.
pub open spec fn header_of(line: Seq<char>) -> Header {
    if line == "\r\n"@ {
        Header::End
    } else if begins_with(line, length_header()) {
        match word_at(line, 0) {
            Some((a, b)) => match word_at(line, b) {
                Some((c, d)) => Header::ContentLength(
                    match parse_usize(line.subrange(c, d)) {
                        Some(n) => n,
                        None => 0,
                    },
                ),
                None => Header::Malformed,
            },
            None => Header::Malformed,
        }
    } else {
        Header::Other
    }
}

/// Tells whether `chars` begins with `prefix`.
fn starts_with(chars: &Vec<char>, prefix: &Vec<char>) -> (b: bool)
    ensures
        b == begins_with(chars@, prefix@),
{
    if prefix.len() > chars.len() {
        return false;
    }
    let mut i: usize = 0;
    while i < prefix.len()
        invariant
            i <= prefix@.len() <= chars@.len(),
            forall|j: int| 0 <= j < i ==> chars@[j] == prefix@[j],
        decreases prefix@.len() - i,
    {
        if chars[i] != prefix[i] {
            assert(chars@.take(prefix@.len() as int)[i as int] != prefix@[i as int]);
            return false;
        }
        i += 1;
    }
    assert(chars@.take(prefix@.len() as int) =~= prefix@);
    true
}

/// Reads one header line.
pub fn scan_header(line: &str) -> (header: Header)
    ensures
        header == header_of(line@),
{
    if text_eq(line, "\r\n") {
        return Header::End;
    }
    let chars = chars_of(line);
    let name = chars_of("Content-Length:");
    if !starts_with(&chars, &name) {
        return Header::Other;
    }
    let (_, name_end) = match next_word(&chars, 0) {
        Some(word) => word,
        None => {
            return Header::Malformed;
        },
    };
    match next_word(&chars, name_end) {
        Some((c, d)) => match parse_decimal(&chars, c, d) {
            Some(n) => Header::ContentLength(n),
            None => Header::ContentLength(0),
        },
        None => Header::Malformed,
    }
}

} // verus!
