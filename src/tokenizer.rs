//! Splits a connection string `scheme://host[/path][:port[/path]]` into its
//! candidate parts. The tokenizer never fails: a part it cannot find is absent.
use vstd::prelude::*;
use vstd::string::*;

use crate::text::{
    chars_of, contains_in, decimal_text, is_white_space, lemma_parse_u16_decimal,
    lemma_split_on_concat, lemma_split_on_free, lemma_split_on_not_empty, lemma_trim_unchanged,
    parse_u16, parse_u16_range, split_on, split_ranges, trim, trim_range,
};

verus! {

/// The candidate parts of a connection string: scheme, host, port and path.
pub type TokensView = (Option<Seq<char>>, Option<Seq<char>>, Option<u16>, Option<Seq<char>>);

/// `s` without a leading `//`, if it has one.
pub open spec fn strip_authority(s: Seq<char>) -> Seq<char> {
    if s.len() >= 2 && s[0] == '/' && s[1] == '/' {
        s.skip(2)
    } else {
        s
    }
}

/// The parts of `s`. The scheme is the trimmed text before the first `:`; the
/// host is the trimmed text after it, past a leading `//`, up to the next `/`,
/// and must hold a `.`; the piece after that `/` is a path. After a second `:`
/// comes the port, and a path after its `/` takes precedence over the first.
pub open spec fn tokenize(s: Seq<char>) -> TokensView {
    let segments = split_on(s, ':');
    let scheme = trim(segments[0]);
    if segments.len() < 2 || scheme.len() == 0 {
        (None, None, None, None)
    } else {
        let host_and_path = split_on(strip_authority(segments[1]), '/');
        let host = trim(host_and_path[0]);
        if host.len() == 0 || !host.contains('.') {
            (Some(scheme), None, None, None)
        } else {
            let first_path = if host_and_path.len() >= 2 {
                Some(host_and_path[1])
            } else {
                None
            };
            if segments.len() >= 3 {
                let port_and_path = split_on(trim(segments[2]), '/');
                let path = if port_and_path.len() >= 2 {
                    Some(port_and_path[1])
                } else {
                    first_path
                };
                (Some(scheme), Some(host), parse_u16(trim(port_and_path[0])), path)
            } else {
                (Some(scheme), Some(host), None, first_path)
            }
        }
    }
}

pub open spec fn text_view(o: Option<String>) -> Option<Seq<char>> {
    match o {
        Some(t) => Some(t@),
        None => None,
    }
}

/// The parts of a connection string, as `tokenize` gives them.
pub fn parse_config_from_str(value: &str) -> (r: (
    Option<String>,
    Option<String>,
    Option<u16>,
    Option<String>,
))
    ensures
        (text_view(r.0), text_view(r.1), r.2, text_view(r.3)) == tokenize(value@),
{
    let cs = chars_of(value);
    let n = cs.len();
    let ghost s = value@;
    assert(cs@.subrange(0, n as int) =~= s);
    proof {
        lemma_split_on_not_empty(s, ':');
    }
    let segments = split_ranges(&cs, 0, n, ':');
    let (s0, s1) = trim_range(&cs, segments[0].0, segments[0].1);
    if segments.len() < 2 || s0 == s1 {
        return (None, None, None, None);
    }
    let scheme = value.substring_char(s0, s1).to_owned();
    let (a_lo, a_hi) = segments[1];
    let a_start = if a_hi - a_lo >= 2 && cs[a_lo] == '/' && cs[a_lo + 1] == '/' {
        a_lo + 2
    } else {
        a_lo
    };
    assert(cs@.subrange(a_start as int, a_hi as int) =~= strip_authority(
        cs@.subrange(a_lo as int, a_hi as int),
    ));
    proof {
        lemma_split_on_not_empty(cs@.subrange(a_start as int, a_hi as int), '/');
    }
    let host_and_path = split_ranges(&cs, a_start, a_hi, '/');
    let (h0, h1) = trim_range(&cs, host_and_path[0].0, host_and_path[0].1);
    if h0 == h1 || !contains_in(&cs, h0, h1, '.') {
        return (Some(scheme), None, None, None);
    }
    let host = value.substring_char(h0, h1).to_owned();
    let mut path: Option<String> = None;
    if host_and_path.len() >= 2 {
        path = Some(value.substring_char(host_and_path[1].0, host_and_path[1].1).to_owned());
    }
    let mut port: Option<u16> = None;
    if segments.len() >= 3 {
        let (p0, p1) = trim_range(&cs, segments[2].0, segments[2].1);
        proof {
            lemma_split_on_not_empty(cs@.subrange(p0 as int, p1 as int), '/');
        }
        let port_and_path = split_ranges(&cs, p0, p1, '/');
        let (q0, q1) = trim_range(&cs, port_and_path[0].0, port_and_path[0].1);
        port = parse_u16_range(&cs, q0, q1);
        if port_and_path.len() >= 2 {
            path = Some(value.substring_char(port_and_path[1].0, port_and_path[1].1).to_owned());
        }
    }
    (Some(scheme), Some(host), port, path)
}

/// The connection string `scheme://host[:port][/path]`, with the port written
/// in decimal.
pub open spec fn connection_text(
    scheme: Seq<char>,
    host: Seq<char>,
    port: Option<u16>,
    path: Option<Seq<char>>,
) -> Seq<char> {
    let path_part = match path {
        Some(p) => seq!['/'] + p,
        None => Seq::empty(),
    };
    let port_part = match port {
        Some(n) => seq![':'] + decimal_text(n as nat),
        None => Seq::empty(),
    };
    scheme + seq![':', '/', '/'] + host + port_part + path_part
}

/// A scheme that can be written into a connection string and read back: not
/// empty, without surrounding white space and without `:`.
pub open spec fn readable_scheme(scheme: Seq<char>) -> bool {
    &&& scheme.len() > 0
    &&& trim(scheme) == scheme
    &&& !scheme.contains(':')
}

/// Host, port and path that can be written into a connection string and read
/// back: a host with a `.`, without surrounding white space and without `:` or
/// `/`, and a path without `:` or `/` that, after a port, does not end in white
/// space.
pub open spec fn readable_address(host: Seq<char>, port: Option<u16>, path: Option<Seq<char>>) -> bool {
    &&& host.contains('.')
    &&& trim(host) == host
    &&& !host.contains(':')
    &&& !host.contains('/')
    &&& match path {
        Some(p) => !p.contains(':') && !p.contains('/') && (port is Some && p.len() > 0
            ==> !is_white_space(p.last())),
        None => true,
    }
}

/// The text that the tokenizer reads the port from: the third `:`-separated
/// segment, trimmed, up to its first `/`, trimmed again.
pub open spec fn port_token(s: Seq<char>) -> Seq<char> {
    trim(split_on(trim(split_on(s, ':')[2]), '/')[0])
}

/// A port that is written but does not read as a number counts as no port.
pub proof fn lemma_unreadable_port_is_absent(s: Seq<char>)
    requires
        split_on(s, ':').len() >= 3,
        parse_u16(port_token(s)) is None,
    ensures
        tokenize(s).2 is None,
{
}

/// Tokenizing a connection string written from its parts gives back exactly
/// those parts: scheme, host, port if one was written, and path if one was
/// written.
pub proof fn lemma_tokenize_reads_back(
    scheme: Seq<char>,
    host: Seq<char>,
    port: Option<u16>,
    path: Option<Seq<char>>,
)
    requires
        readable_scheme(scheme),
        readable_address(host, port, path),
    ensures
        tokenize(connection_text(scheme, host, port, path)) == (Some(scheme), Some(host), port, path),
{
    let path_part = match path {
        Some(p) => seq!['/'] + p,
        None => Seq::<char>::empty(),
    };
    let authority = seq!['/', '/'] + host;
    assert(!path_part.contains(':')) by {
        if path_part.contains(':') {
            let i = choose|i: int| 0 <= i < path_part.len() && path_part[i] == ':';
            assert(path_part[i] == path.unwrap()[i - 1]);
        }
    }
    assert(!authority.contains(':')) by {
        if authority.contains(':') {
            let i = choose|i: int| 0 <= i < authority.len() && authority[i] == ':';
            assert(authority[i] == host[i - 2]);
        }
    }
    // The host and the path that follows it.
    let host_and_path_text = host + path_part;
    match path {
        Some(p) => {
            assert(host_and_path_text =~= host + seq!['/'] + p);
            lemma_split_on_concat(host, p, '/');
            lemma_split_on_free(p, '/');
            assert(split_on(host_and_path_text, '/') =~= seq![host, p]);
        },
        None => {
            assert(host_and_path_text =~= host);
            lemma_split_on_free(host, '/');
        },
    }
    match port {
        Some(n) => {
            let digits = decimal_text(n as nat);
            let port_text = digits + path_part;
            lemma_parse_u16_decimal(n);
            assert(connection_text(scheme, host, port, path) =~= scheme + seq![':'] + (authority
                + seq![':'] + port_text));
            lemma_split_on_concat(scheme, authority + seq![':'] + port_text, ':');
            lemma_split_on_concat(authority, port_text, ':');
            assert(!digits.contains(':')) by {
                if digits.contains(':') {
                    let i = choose|i: int| 0 <= i < digits.len() && digits[i] == ':';
                    crate::text::lemma_decimal_text(n as nat);
                    assert(crate::text::is_digit(digits[i]));
                }
            }
            assert(!port_text.contains(':')) by {
                if port_text.contains(':') {
                    let i = choose|i: int| 0 <= i < port_text.len() && port_text[i] == ':';
                    if i < digits.len() {
                        assert(digits[i] == ':');
                    } else {
                        assert(path_part[i - digits.len()] == ':');
                    }
                }
            }
            lemma_split_on_free(port_text, ':');
            assert(split_on(connection_text(scheme, host, port, path), ':') =~= seq![
                scheme,
                authority,
                port_text,
            ]);
            assert(strip_authority(authority) =~= host);
            lemma_split_on_free(host, '/');
            assert(port_text[0] == digits[0]);
            match path {
                Some(p) => {
                    assert(port_text.last() == if p.len() > 0 {
                        p.last()
                    } else {
                        '/'
                    });
                    assert(!digits.contains('/')) by {
                        if digits.contains('/') {
                            let i = choose|i: int| 0 <= i < digits.len() && digits[i] == '/';
                            crate::text::lemma_decimal_text(n as nat);
                            assert(crate::text::is_digit(digits[i]));
                        }
                    }
                    lemma_trim_unchanged(port_text);
                    assert(port_text =~= digits + seq!['/'] + p);
                    lemma_split_on_concat(digits, p, '/');
                    lemma_split_on_free(p, '/');
                    assert(split_on(port_text, '/') =~= seq![digits, p]);
                },
                None => {
                    assert(port_text =~= digits);
                    lemma_trim_unchanged(port_text);
                    assert(!digits.contains('/')) by {
                        if digits.contains('/') {
                            let i = choose|i: int| 0 <= i < digits.len() && digits[i] == '/';
                            crate::text::lemma_decimal_text(n as nat);
                            assert(crate::text::is_digit(digits[i]));
                        }
                    }
                    lemma_split_on_free(digits, '/');
                },
            }
            lemma_trim_unchanged(digits);
        },
        None => {
            let rest = authority + path_part;
            assert(connection_text(scheme, host, port, path) =~= scheme + seq![':'] + rest);
            lemma_split_on_concat(scheme, rest, ':');
            assert(!rest.contains(':')) by {
                if rest.contains(':') {
                    let i = choose|i: int| 0 <= i < rest.len() && rest[i] == ':';
                    if i < authority.len() {
                        assert(authority[i] == ':');
                    } else {
                        assert(path_part[i - authority.len()] == ':');
                    }
                }
            }
            lemma_split_on_free(rest, ':');
            assert(split_on(connection_text(scheme, host, port, path), ':') =~= seq![scheme, rest]);
            assert(strip_authority(rest) =~= host_and_path_text);
        },
    }
}

} // verus!
