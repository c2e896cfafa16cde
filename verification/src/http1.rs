//! Recognition of an HTTP/1.1 request in the text that a client writes.
//!
//! The scan is permissive on purpose: it looks for a request line and for a
//! `Host` header and checks nothing else.
use vstd::prelude::*;
use vstd::slice::slice_subrange;
use crate::text::chars_of;
use crate::text::fields;
use crate::text::fields_from;
use crate::text::find_line_end;
use crate::text::find_line_stop;
use crate::text::lemma_line_end_bounds;
use crate::text::line_end;
use crate::text::line_stop;
use crate::text::lines;
use crate::text::lines_from;
use crate::text::next_field;
use crate::text::string_of;

verus! {

/// The request methods that the scan knows: GET, HEAD, PUT and POST.
pub open spec fn is_method_text(method: Seq<char>) -> bool {
    ||| method == seq!['G', 'E', 'T']
    ||| method == seq!['H', 'E', 'A', 'D']
    ||| method == seq!['P', 'U', 'T']
    ||| method == seq!['P', 'O', 'S', 'T']
}

/// Whether the characters from `from` up to `to` spell a known method.
fn is_method_at(chars: &[char], from: usize, to: usize) -> (b: bool)
    requires
        from <= to <= chars@.len(),
    ensures
        b == is_method_text(chars@.subrange(from as int, to as int)),
{
    let ghost word = chars@.subrange(from as int, to as int);
    let ghost get = seq!['G', 'E', 'T'];
    let ghost put = seq!['P', 'U', 'T'];
    let ghost head = seq!['H', 'E', 'A', 'D'];
    let ghost post = seq!['P', 'O', 'S', 'T'];
    proof {
        assert(get.len() == 3 && get[0] == 'G' && get[1] == 'E' && get[2] == 'T');
        assert(put.len() == 3 && put[0] == 'P' && put[1] == 'U' && put[2] == 'T');
        assert(head.len() == 4 && head[0] == 'H' && head[1] == 'E' && head[2] == 'A' && head[3]
            == 'D');
        assert(post.len() == 4 && post[0] == 'P' && post[1] == 'O' && post[2] == 'S' && post[3]
            == 'T');
    }
    let n = to - from;
    if n == 3 {
        let (a, b, c) = (chars[from], chars[from + 1], chars[from + 2]);
        assert(word[0] == a && word[1] == b && word[2] == c);
        let is_get = a == 'G' && b == 'E' && c == 'T';
        let is_put = a == 'P' && b == 'U' && c == 'T';
        assert(is_get == (word =~= get));
        assert(is_put == (word =~= put));
        is_get || is_put
    } else if n == 4 {
        let (a, b, c, d) = (chars[from], chars[from + 1], chars[from + 2], chars[from + 3]);
        assert(word[0] == a && word[1] == b && word[2] == c && word[3] == d);
        let is_head = a == 'H' && b == 'E' && c == 'A' && d == 'D';
        let is_post = a == 'P' && b == 'O' && c == 'S' && d == 'T';
        assert(is_head == (word =~= head));
        assert(is_post == (word =~= post));
        is_head || is_post
    } else {
        false
    }
}

/// Whether `method` is one of the request methods that the scan knows.
pub fn is_method(method: &str) -> (b: bool)
    ensures
        b == is_method_text(method@),
{
    let chars = chars_of(method);
    assert(chars@.subrange(0, chars@.len() as int) =~= chars@);
    is_method_at(chars.as_slice(), 0, chars.len())
}

/// The method and the target of a request line: a line of exactly three
/// fields whose first field is a known method.
pub open spec fn request_of(line: Seq<char>) -> Option<(Seq<char>, Seq<char>)> {
    let f = fields(line);
    if f.len() == 3 && is_method_text(f[0]) {
        Some((f[0], f[1]))
    } else {
        None
    }
}

/// Whether the line begins with `host: `, in upper or lower case.
pub open spec fn has_host_prefix(line: Seq<char>) -> bool {
    &&& line.len() >= 6
    &&& (line[0] == 'h' || line[0] == 'H')
    &&& (line[1] == 'o' || line[1] == 'O')
    &&& (line[2] == 's' || line[2] == 'S')
    &&& (line[3] == 't' || line[3] == 'T')
    &&& line[4] == ':'
    &&& line[5] == ' '
}

/// The value of a `Host` header line: what follows `host: `.
pub open spec fn host_of(line: Seq<char>) -> Option<Seq<char>> {
    if has_host_prefix(line) {
        Some(line.subrange(6, line.len() as int))
    } else {
        None
    }
}

/// The request of the first line that is a request line.
pub open spec fn first_request(lines: Seq<Seq<char>>) -> Option<(Seq<char>, Seq<char>)>
    decreases lines.len(),
{
    if lines.len() == 0 {
        None
    } else if request_of(lines[0]) is Some {
        request_of(lines[0])
    } else {
        first_request(lines.drop_first())
    }
}

/// The host of the first line that is a `Host` header.
pub open spec fn first_host(lines: Seq<Seq<char>>) -> Option<Seq<char>>
    decreases lines.len(),
{
    if lines.len() == 0 {
        None
    } else if host_of(lines[0]) is Some {
        host_of(lines[0])
    } else {
        first_host(lines.drop_first())
    }
}

/// What a scan of a written text found.
pub struct Sniffed {
    /// Method and target of the first request line.
    pub request: Option<(String, String)>,
    /// Value of the first `Host` header.
    pub host: Option<String>,
}

/// The model of [`Sniffed`]: the same, over character sequences.
pub struct SniffedView {
    pub request: Option<(Seq<char>, Seq<char>)>,
    pub host: Option<Seq<char>>,
}

impl View for Sniffed {
    type V = SniffedView;

    open spec fn view(&self) -> SniffedView {
        SniffedView {
            request: match self.request {
                Some((method, target)) => Some((method@, target@)),
                None => None,
            },
            host: match self.host {
                Some(host) => Some(host@),
                None => None,
            },
        }
    }
}

/// What a scan of `text` finds: the first request line and the first
/// `Host` header among its lines.
pub open spec fn sniffed(text: Seq<char>) -> SniffedView {
    SniffedView { request: first_request(lines(text)), host: first_host(lines(text)) }
}

/// Reads a line as a request line.
pub fn parse_request(line: &[char]) -> (request: Option<(String, String)>)
    ensures
        match request {
            Some((method, target)) => request_of(line@) == Some((method@, target@)),
            None => request_of(line@) is None,
        },
{
    let ghost s = line@;
    let first = match next_field(line, 0) {
        Some(bounds) => bounds,
        None => {
            assert(fields(s).len() == 0);
            return None;
        },
    };
    let ghost rest1 = fields_from(s, first.1 as int);
    assert(fields(s) == seq![s.subrange(first.0 as int, first.1 as int)] + rest1);
    let second = match next_field(line, first.1) {
        Some(bounds) => bounds,
        None => {
            assert(rest1.len() == 0);
            return None;
        },
    };
    let ghost rest2 = fields_from(s, second.1 as int);
    assert(rest1 == seq![s.subrange(second.0 as int, second.1 as int)] + rest2);
    let third = match next_field(line, second.1) {
        Some(bounds) => bounds,
        None => {
            assert(rest2.len() == 0);
            return None;
        },
    };
    let ghost rest3 = fields_from(s, third.1 as int);
    assert(rest2 == seq![s.subrange(third.0 as int, third.1 as int)] + rest3);
    match next_field(line, third.1) {
        Some(fourth) => {
            assert(rest3 == seq![s.subrange(fourth.0 as int, fourth.1 as int)] + fields_from(
                s,
                fourth.1 as int,
            ));
            assert(fields(s).len() >= 4);
            return None;
        },
        None => {
            assert(rest3.len() == 0);
        },
    }
    assert(fields(s).len() == 3);
    assert(fields(s)[0] == s.subrange(first.0 as int, first.1 as int));
    assert(fields(s)[1] == s.subrange(second.0 as int, second.1 as int));
    if is_method_at(line, first.0, first.1) {
        Some((string_of(line, first.0, first.1), string_of(line, second.0, second.1)))
    } else {
        None
    }
}

/// Reads a line as a `Host` header.
pub fn parse_host(line: &[char]) -> (host: Option<String>)
    ensures
        match host {
            Some(value) => host_of(line@) == Some(value@),
            None => host_of(line@) is None,
        },
{
    if line.len() >= 6 && (line[0] == 'h' || line[0] == 'H') && (line[1] == 'o' || line[1] == 'O')
        && (line[2] == 's' || line[2] == 'S') && (line[3] == 't' || line[3] == 'T') && line[4]
        == ':' && line[5] == ' ' {
        Some(string_of(line, 6, line.len()))
    } else {
        None
    }
}

/// Scans a written text for a request line and a `Host` header.  The first
/// of each wins.
pub fn sniff(text: &str) -> (found: Sniffed)
    ensures
        found@ == sniffed(text@),
{
    let chars = chars_of(text);
    let all = chars.as_slice();
    let ghost s = all@;
    let mut found = Sniffed { request: None, host: None };
    let mut from: usize = 0;
    while from < all.len() && (found.request.is_none() || found.host.is_none())
        invariant
            all@ == s,
            s == text@,
            from <= s.len(),
            found.request is Some ==> found@.request == first_request(lines(s)),
            found.request is None ==> first_request(lines(s)) == first_request(
                lines_from(s, from as int),
            ),
            found.host is Some ==> found@.host == first_host(lines(s)),
            found.host is None ==> first_host(lines(s)) == first_host(lines_from(s, from as int)),
        decreases s.len() - from,
    {
        let end = find_line_end(all, from);
        let stop = find_line_stop(all, from, end);
        let line = slice_subrange(all, from, stop);
        let next = if end < all.len() {
            end + 1
        } else {
            end
        };
        proof {
            lemma_line_end_bounds(s, from as int);
            let rest = lines_from(s, next as int);
            assert(lines_from(s, from as int) =~= seq![line@] + rest);
            assert((seq![line@] + rest).drop_first() =~= rest);
            assert((seq![line@] + rest)[0] == line@);
        }
        if found.request.is_none() {
            found.request = parse_request(line);
        }
        if found.host.is_none() {
            found.host = parse_host(line);
        }
        from = next;
    }
    found
}

} // verus!
