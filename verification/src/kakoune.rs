//! Kakoune-facing helpers: quoting, the info command, and socket path
//! derivation.
//!
//! Only the string computations live here.  Looking up the runtime
//! directory, creating directories and talking to the editor process are
//! I/O and stay outside the crate; they hand plain strings in and out.

use vstd::prelude::*;
use vstd::string::StrSliceExecFns;
use vstd::string::StringExecFns;

use crate::codec::string_of_chars;

verus! {

/// How one character appears inside a Kakoune single-quoted string: quotes
/// are doubled, everything else stands as it is.
pub open spec fn kak_escape_char(c: char) -> Seq<char> {
    if c == '\'' {
        seq!['\'', '\'']
    } else {
        seq![c]
    }
}

/// A whole value, escaped character by character.
pub open spec fn kak_escape(s: Seq<char>) -> Seq<char>
    decreases s.len(),
{
    if s.len() == 0 {
        Seq::<char>::empty()
    } else {
        kak_escape_char(s[0]) + kak_escape(s.skip(1))
    }
}

/// A value as a Kakoune single-quoted string.
pub open spec fn kak_quoted(s: Seq<char>) -> Seq<char> {
    seq!['\''] + kak_escape(s) + seq!['\'']
}

proof fn lemma_kak_escape_concat(a: Seq<char>, b: Seq<char>)
    ensures
        kak_escape(a + b) == kak_escape(a) + kak_escape(b),
    decreases a.len(),
{
    if a.len() == 0 {
        assert(a + b =~= b);
        assert(kak_escape(a) + kak_escape(b) =~= kak_escape(b));
    } else {
        lemma_kak_escape_concat(a.skip(1), b);
        assert((a + b).skip(1) =~= a.skip(1) + b);
        assert(kak_escape_char((a + b)[0]) + (kak_escape(a.skip(1)) + kak_escape(b))
            =~= (kak_escape_char(a[0]) + kak_escape(a.skip(1))) + kak_escape(b));
    }
}

/// Quotes a value for Kakoune: wrapped in single quotes, with interior
/// single quotes doubled.
pub fn kak_quote(value: &str) -> (r: String)
    ensures
        r@ == kak_quoted(value@),
{
    let mut out: Vec<char> = Vec::new();
    out.push('\'');
    let n = value.unicode_len();
    let mut i: usize = 0;
    while i < n
        invariant
            i <= n,
            n == value@.len(),
            out@ == seq!['\''] + kak_escape(value@.take(i as int)),
        decreases n - i,
    {
        let c = value.get_char(i);
        if c == '\'' {
            out.push('\'');
            out.push('\'');
        } else {
            out.push(c);
        }
        i = i + 1;
        proof {
            assert(value@.take(i as int) =~= value@.take(i as int - 1) + seq![value@[i as int
                - 1]]);
            lemma_kak_escape_concat(value@.take(i as int - 1), seq![value@[i as int - 1]]);
            assert(seq![value@[i as int - 1]].skip(1) =~= Seq::<char>::empty());
            assert(kak_escape(seq![value@[i as int - 1]]) =~= kak_escape_char(value@[i as int - 1])
                + kak_escape(Seq::<char>::empty()));
            assert(out@ =~= seq!['\''] + kak_escape(value@.take(i as int)));
        }
    }
    out.push('\'');
    proof {
        assert(value@.take(n as int) =~= value@);
        assert(out@ =~= kak_quoted(value@));
    }
    string_of_chars(&out)
}

/// The info command that displays a body under a title, optionally
/// addressed to one client.
pub open spec fn info_command_view(
    client: Option<Seq<char>>,
    title: Seq<char>,
    body: Seq<char>,
) -> Seq<char> {
    let info = "info -title "@ + kak_quoted(title) + " "@ + kak_quoted(body) + "\n"@;
    match client {
        Some(c) => "eval -client "@ + kak_quoted(c) + " %{"@ + info + "}\n"@,
        None => info,
    }
}

/// Renders the Kakoune command that shows `body` as an info box titled
/// `title`, wrapped in an `eval -client` when a client is named.
pub fn format_info_command(client: Option<&str>, title: &str, body: &str) -> (r: String)
    ensures
        r@ == info_command_view(
            match client {
                Some(c) => Some(c@),
                None => None,
            },
            title@,
            body@,
        ),
{
    let mut info = String::from_str("info -title ");
    let qt = kak_quote(title);
    info.append(qt.as_str());
    info.append(" ");
    let qb = kak_quote(body);
    info.append(qb.as_str());
    info.append("\n");
    match client {
        Some(c) => {
            let mut out = String::from_str("eval -client ");
            let qc = kak_quote(c);
            out.append(qc.as_str());
            out.append(" %{");
            out.append(info.as_str());
            out.append("}\n");
            out
        },
        None => info,
    }
}

/// How one character of a session name appears in a socket file name:
/// letters, digits, dashes and underscores stand; everything else becomes
/// an underscore.
pub open spec fn sanitize_char(c: char) -> char {
    if (97 <= (c as u32) && (c as u32) <= 122) || (65 <= (c as u32) && (c as u32) <= 90) || (48 <= (
    c as u32) && (c as u32) <= 57) || c == '-' || c == '_' {
        c
    } else {
        '_'
    }
}

/// A session name made safe for use in a file name.
pub open spec fn sanitized(s: Seq<char>) -> Seq<char> {
    s.map_values(|c: char| sanitize_char(c))
}

/// Replaces every character of a session name that is not a letter, digit,
/// dash or underscore with an underscore.
pub fn sanitize_session_name(name: &str) -> (r: String)
    ensures
        r@ == sanitized(name@),
{
    let mut out: Vec<char> = Vec::new();
    let n = name.unicode_len();
    let mut i: usize = 0;
    while i < n
        invariant
            i <= n,
            n == name@.len(),
            out@ =~= sanitized(name@).take(i as int),
        decreases n - i,
    {
        let c = name.get_char(i);
        let code = c as u32;
        let mapped: char = if (97 <= code && code <= 122) || (65 <= code && code <= 90) || (48
            <= code && code <= 57) || c == '-' || c == '_' {
            c
        } else {
            '_'
        };
        proof {
            assert(mapped == sanitize_char(name@[i as int]));
            assert(sanitized(name@)[i as int] == sanitize_char(name@[i as int]));
        }
        out.push(mapped);
        i = i + 1;
        proof {
            assert(out@ =~= sanitized(name@).take(i as int));
        }
    }
    proof {
        assert(out@ =~= sanitized(name@));
    }
    string_of_chars(&out)
}

/// Where the daemon's socket lives: an explicit path wins; otherwise the
/// file named after the sanitized session sits in the bridge's directory
/// under the runtime base.
pub open spec fn socket_path_view(
    explicit: Option<Seq<char>>,
    session: Option<Seq<char>>,
    base: Seq<char>,
) -> Seq<char> {
    match explicit {
        Some(p) => p,
        None => {
            let name = match session {
                Some(s) => s,
                None => "default"@,
            };
            base + "/kakoune-acp/"@ + sanitized(name) + ".sock"@
        },
    }
}

/// Resolves the socket path from an explicit choice, the session name, and
/// the runtime base directory.  The caller creates the directories.
pub fn resolve_socket_path(explicit: Option<String>, session: Option<&str>, base: &str) -> (r:
    String)
    ensures
        r@ == socket_path_view(
            match explicit {
                Some(p) => Some(p@),
                None => None,
            },
            match session {
                Some(s) => Some(s@),
                None => None,
            },
            base@,
        ),
{
    match explicit {
        Some(p) => p,
        None => {
            let name: String = match session {
                Some(s) => sanitize_session_name(s),
                None => sanitize_session_name("default"),
            };
            proof {
                reveal_strlit("default");
            }
            let mut out = String::from_str(base);
            out.append("/kakoune-acp/");
            out.append(name.as_str());
            out.append(".sock");
            out
        },
    }
}

} // verus!
