//! The host that a request goes to, and whether a reference is an address
//! by itself.
//!
//! Only addresses of one plain shape are read: `http://` or `https://`, a
//! host written in lower-case letters, digits, `-` and `.`, an optional port,
//! and then the end, `/`, `?` or `#`. Every other address has no host here
//! and is refused: user names, upper-case or escaped host names and
//! backslashes are what a stricter or laxer reader would take differently.

use vstd::prelude::*;
use vstd::string::StringExecFns;
use vstd::string::StrSliceExecFns;
use crate::text::{chars_of, digits_end};

verus! {

/// Whether `c` is an ASCII letter.
pub open spec fn is_letter(c: char) -> bool {
    let n = c as u32;
    0x41 <= n <= 0x5A || 0x61 <= n <= 0x7A
}

/// Whether `c` may stand in the name of a scheme behind its first letter.
pub open spec fn is_scheme_char(c: char) -> bool {
    let n = c as u32;
    is_letter(c) || 0x30 <= n <= 0x39 || n == 0x2B || n == 0x2D || n == 0x2E
}

/// Where the run of scheme characters that starts at `from` ends.
pub open spec fn scheme_name_end(s: Seq<char>, from: int) -> int
    decreases s.len() - from,
{
    if 0 <= from < s.len() && is_scheme_char(s[from]) {
        scheme_name_end(s, from + 1)
    } else {
        from
    }
}

/// Whether the reference `href` names its scheme, and so is an address by
/// itself: it starts with a letter, and the letters, digits, `+`, `-` and
/// `.` that follow end at a `:`.
pub open spec fn has_scheme(href: Seq<char>) -> bool {
    &&& href.len() > 0
    &&& is_letter(href[0])
    &&& scheme_name_end(href, 1) < href.len()
    &&& href[scheme_name_end(href, 1)] == ':'
}

/// Whether `c` may stand in a host name.
pub open spec fn is_host_char(c: char) -> bool {
    let n = c as u32;
    ||| 0x61 <= n <= 0x7A
    ||| 0x30 <= n <= 0x39
    ||| n == 0x2D
    ||| n == 0x2E
}

/// Where the host name starts: behind the scheme, if it is one of the two.
pub open spec fn scheme_end(url: Seq<char>) -> Option<int> {
    if "https://"@.is_prefix_of(url) {
        Some("https://"@.len() as int)
    } else if "http://"@.is_prefix_of(url) {
        Some("http://"@.len() as int)
    } else {
        None
    }
}

/// Where the run of host characters that starts at `from` ends.
pub open spec fn host_end(url: Seq<char>, from: int) -> int
    decreases url.len() - from,
{
    if 0 <= from < url.len() && is_host_char(url[from]) {
        host_end(url, from + 1)
    } else {
        from
    }
}

/// Whether host and port are over at `at`: the address ends there, or its
/// path, query or fragment starts.
pub open spec fn authority_ends(url: Seq<char>, at: int) -> bool {
    at == url.len() || (0 <= at < url.len() && (url[at] == '/' || url[at] == '?' || url[at]
        == '#'))
}

/// The host of `url`, where `url` has the shape that this library reads.
pub open spec fn host_of(url: Seq<char>) -> Option<Seq<char>> {
    match scheme_end(url) {
        None => None,
        Some(start) => {
            let end = host_end(url, start);
            if end == start {
                None
            } else if authority_ends(url, end) {
                Some(url.subrange(start, end))
            } else if url[end] == ':' && authority_ends(url, digits_end(url, end + 1)) {
                Some(url.subrange(start, end))
            } else {
                None
            }
        },
    }
}

/// A host that is read is not empty, and holds host characters only.
pub proof fn lemma_host_is_plain(url: Seq<char>)
    requires
        host_of(url) is Some,
    ensures
        host_of(url)->0.len() > 0,
        forall|i: int| 0 <= i < host_of(url)->0.len() ==> is_host_char(#[trigger] host_of(url)->0[i]),
{
    let start = scheme_end(url)->0;
    lemma_host_run(url, start);
}

/// The run of host characters from `from` lies inside the address and holds
/// host characters only.
proof fn lemma_host_run(url: Seq<char>, from: int)
    requires
        0 <= from <= url.len(),
    ensures
        from <= host_end(url, from) <= url.len(),
        forall|i: int| from <= i < host_end(url, from) ==> is_host_char(#[trigger] url[i]),
    decreases url.len() - from,
{
    if from < url.len() && is_host_char(url[from]) {
        lemma_host_run(url, from + 1);
    }
}

/// Whether `c` may stand in the name of a scheme behind its first letter.
fn char_is_scheme(c: char) -> (b: bool)
    ensures
        b == is_scheme_char(c),
{
    let n: u32 = c as u32;
    (0x41 <= n && n <= 0x5A) || (0x61 <= n && n <= 0x7A) || (0x30 <= n && n <= 0x39) || n == 0x2B
        || n == 0x2D || n == 0x2E
}

/// Whether the reference `href` names its scheme.
pub fn names_scheme(href: &Vec<char>) -> (b: bool)
    ensures
        b == has_scheme(href@),
{
    if href.len() == 0 {
        return false;
    }
    let first: u32 = href[0] as u32;
    if !((0x41 <= first && first <= 0x5A) || (0x61 <= first && first <= 0x7A)) {
        return false;
    }
    let mut end: usize = 1;
    while end < href.len() && char_is_scheme(href[end])
        invariant
            1 <= end <= href.len(),
            scheme_name_end(href@, 1) == scheme_name_end(href@, end as int),
        decreases href.len() - end,
    {
        end += 1;
    }
    end < href.len() && href[end] == ':'
}

/// Whether `chars` starts with `prefix`.
fn starts_with(chars: &Vec<char>, prefix: &str) -> (b: bool)
    ensures
        b == prefix@.is_prefix_of(chars@),
{
    let wanted = chars_of(prefix);
    if wanted.len() > chars.len() {
        return false;
    }
    let mut i: usize = 0;
    while i < wanted.len()
        invariant
            i <= wanted.len() <= chars.len(),
            wanted@ == prefix@,
            chars@.subrange(0, i as int) == wanted@.subrange(0, i as int),
        decreases wanted.len() - i,
    {
        if chars[i] != wanted[i] {
            assert(chars@.subrange(0, wanted@.len() as int)[i as int] != wanted@[i as int]);
            return false;
        }
        assert(chars@.subrange(0, i + 1) =~= chars@.subrange(0, i as int).push(chars@[i as int]));
        assert(wanted@.subrange(0, i + 1) =~= wanted@.subrange(0, i as int).push(
            wanted@[i as int],
        ));
        i += 1;
    }
    assert(wanted@.subrange(0, wanted@.len() as int) =~= wanted@);
    true
}

/// Whether `c` may stand in a host name.
fn char_is_host(c: char) -> (b: bool)
    ensures
        b == is_host_char(c),
{
    let n: u32 = c as u32;
    (0x61 <= n && n <= 0x7A) || (0x30 <= n && n <= 0x39) || n == 0x2D || n == 0x2E
}

/// Whether host and port are over at `at`.
fn at_authority_end(chars: &Vec<char>, at: usize) -> (b: bool)
    requires
        at <= chars.len(),
    ensures
        b == authority_ends(chars@, at as int),
{
    at == chars.len() || chars[at] == '/' || chars[at] == '?' || chars[at] == '#'
}

/// The host of `url`, or `None` where `url` does not have the shape that
/// this library reads.
pub fn host(url: &str) -> (r: Option<String>)
    ensures
        match r {
            Some(h) => {
                &&& host_of(url@) == Some(h@)
                &&& h@.len() > 0
                &&& forall|i: int| 0 <= i < h@.len() ==> is_host_char(#[trigger] h@[i])
            },
            None => host_of(url@) is None,
        },
{
    let chars = chars_of(url);
    proof {
        reveal_strlit("https://");
        reveal_strlit("http://");
        if host_of(url@) is Some {
            lemma_host_is_plain(url@);
        }
    }
    let start: usize = if starts_with(&chars, "https://") {
        8
    } else if starts_with(&chars, "http://") {
        7
    } else {
        return None;
    };
    let mut end: usize = start;
    while end < chars.len() && char_is_host(chars[end])
        invariant
            start <= end <= chars.len(),
            host_end(chars@, start as int) == host_end(chars@, end as int),
        decreases chars.len() - end,
    {
        end += 1;
    }
    if end == start {
        return None;
    }
    if !at_authority_end(&chars, end) {
        if chars[end] != ':' {
            return None;
        }
        let mut port_end: usize = end + 1;
        while port_end < chars.len() && 0x30 <= chars[port_end] as u32 && chars[port_end] as u32
            <= 0x39
            invariant
                end < port_end <= chars.len(),
                digits_end(chars@, end + 1) == digits_end(chars@, port_end as int),
            decreases chars.len() - port_end,
        {
            port_end += 1;
        }
        if !at_authority_end(&chars, port_end) {
            return None;
        }
    }
    Some(String::from_str(url.substring_char(start, end)))
}

} // verus!
