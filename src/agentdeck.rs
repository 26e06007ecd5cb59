//! What the session supervisor prints when it creates a session.

use vstd::prelude::*;
use crate::json::{get_str, get_string, parse_json, parsed_json};
use crate::text::{index_of, lemma_index_of, chars_of, contains, occurs_in, has_prefix, strip_prefix, trim, trimmed};

verus! {

/// The position of the last `c` in `s`, or -1 when there is none.
pub open spec fn last_index_of(s: Seq<char>, c: char) -> int
    decreases s.len(),
{
    if s.len() == 0 {
        -1
    } else if s.last() == c {
        s.len() - 1
    } else {
        last_index_of(s.drop_last(), c)
    }
}

/// The text from the first `{` on, or all of it when there is none: a JSON
/// object may follow lines of other output.
pub open spec fn json_part(out: Seq<char>) -> Seq<char> {
    let i = index_of(out, '{');
    if 0 <= i < out.len() {
        out.skip(i)
    } else {
        out
    }
}

/// The `id` of the JSON object in the output.
pub open spec fn json_session_id(out: Seq<char>) -> Option<Seq<char>> {
    match parsed_json(vstd::utf8::encode_utf8(json_part(out))) {
        Some(v) => get_str(v, "id"@),
        None => None,
    }
}

/// The id in the last parentheses of a message that the session already
/// exists.
pub open spec fn existing_session_id(out: Seq<char>) -> Option<Seq<char>> {
    let a = last_index_of(out, '(');
    let b = last_index_of(out, ')');
    if occurs_in(out, "already exists"@) && 0 <= a && a < b {
        Some(out.subrange(a + 1, b))
    } else {
        None
    }
}

/// The session id in the supervisor's output.
pub open spec fn session_id_of(out: Seq<char>) -> Option<Seq<char>> {
    if json_session_id(out) is Some {
        json_session_id(out)
    } else {
        existing_session_id(out)
    }
}

/// The position of the last `c` among `cs`.
fn rfind_char(cs: &Vec<char>, c: char) -> (r: Option<usize>)
    ensures
        match r {
            Some(i) => i < cs@.len() && last_index_of(cs@, c) == i,
            None => last_index_of(cs@, c) == -1,
        },
{
    let mut i: usize = cs.len();
    assert(cs@.take(i as int) =~= cs@);
    while i > 0
        invariant
            i <= cs@.len(),
            forall|j: int| i <= j < cs@.len() ==> cs@[j] != c,
            last_index_of(cs@.take(i as int), c) == last_index_of(cs@, c),
        decreases i,
    {
        assert(cs@.take(i as int).drop_last() =~= cs@.take(i - 1));
        if cs[i - 1] == c {
            return Some(i - 1);
        }
        i -= 1;
    }
    assert(cs@.take(0) =~= Seq::<char>::empty());
    None
}

/// The session id in the output of creating a session: the `id` of the JSON
/// object it prints, or, when the session already existed, the id in the
/// last parentheses of that message.
pub fn parse_session_id(stdout: &str) -> (r: Result<String, String>)
    ensures
        match session_id_of(stdout@) {
            Some(id) => r is Ok && r->Ok_0@ == id,
            None => r is Err && r->Err_0@ == "Could not parse session ID from agent-deck output: "@
                + stdout@,
        },
{
    let cs = chars_of(stdout);
    let n = cs.len();
    let mut i: usize = 0;
    while i < n && cs[i] != '{'
        invariant
            cs@ == stdout@,
            n == cs@.len(),
            i <= n,
            forall|j: int| 0 <= j < i ==> cs@[j] != '{',
        decreases n - i,
    {
        i += 1;
    }
    proof {
        lemma_index_of(stdout@, '{', i as int);
    }
    let json_text = if i < n {
        stdout.substring_char(i, n)
    } else {
        stdout
    };
    assert(json_text@ == json_part(stdout@));
    match parse_json(json_text) {
        Some(v) => match get_string(&v, "id") {
            Some(id) => {
                return Ok(id.clone());
            },
            None => {},
        },
        None => {},
    }
    if contains(stdout, "already exists") {
        match (rfind_char(&cs, '('), rfind_char(&cs, ')')) {
            (Some(a), Some(b)) => {
                if a < b {
                    return Ok(String::from_str(stdout.substring_char(a + 1, b)));
                }
            },
            _ => {},
        }
    }
    Err(String::from_str("Could not parse session ID from agent-deck output: ").concat(stdout))
}

/// The supervisor version this library is written against.
pub const SUPPORTED_VERSION: &'static str = "0.13.0";

/// The supervisor version that is supported and the one installed.
#[derive(Debug)]
pub struct VersionCheck {
    pub supported: String,
    pub installed: String,
}

/// The installed version in the output of `agent-deck version`: the trimmed
/// output without its `Agent Deck v` prefix, or all of it when it has none.
pub open spec fn installed_version(out: Seq<char>) -> Seq<char> {
    if has_prefix(trimmed(out), "Agent Deck v"@) {
        trimmed(out).skip("Agent Deck v"@.len() as int)
    } else {
        trimmed(out)
    }
}

/// Reads the output of `agent-deck version`.
pub fn read_version(stdout: &str) -> (r: VersionCheck)
    ensures
        r.supported@ == SUPPORTED_VERSION@,
        r.installed@ == installed_version(stdout@),
{
    let t = trim(stdout);
    let installed = match strip_prefix(t, "Agent Deck v") {
        Some(v) => {
            assert(v@ =~= trimmed(stdout@).skip("Agent Deck v"@.len() as int));
            String::from_str(v)
        },
        None => String::from_str(t),
    };
    VersionCheck { supported: String::from_str(SUPPORTED_VERSION), installed }
}

} // verus!
