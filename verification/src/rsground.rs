//! Crate versions and the code submissions of the playground.
use vstd::prelude::*;

use crate::strs::{
    chars_of, contains, first_occurrence_from, occurs_at, parse_u8, parse_u8_spec, replace,
    replace_spec, split_once, string_of_range,
};
use crate::text::{string_from_bytes, utf8};
use vstd::utf8::valid_utf8;

verus! {

/// The pieces of `s` between the occurrences of `c` (as `str::split`): one
/// more piece than there are occurrences, empty pieces included.
pub open spec fn split_char(s: Seq<char>, c: char) -> Seq<Seq<char>>
    decreases s.len(),
{
    if s.len() == 0 {
        seq![Seq::<char>::empty()]
    } else {
        let rest = split_char(s.drop_first(), c);
        if s[0] == c {
            seq![Seq::<char>::empty()] + rest
        } else {
            rest.update(0, seq![s[0]] + rest[0])
        }
    }
}

/// `r` with `cur` put in front of its first piece.
pub open spec fn prefix_first(cur: Seq<char>, r: Seq<Seq<char>>) -> Seq<Seq<char>> {
    r.update(0, cur + r[0])
}

proof fn lemma_split_nonempty(s: Seq<char>, c: char)
    ensures
        split_char(s, c).len() >= 1,
    decreases s.len(),
{
    if s.len() > 0 {
        lemma_split_nonempty(s.drop_first(), c);
    }
}

/// The pieces of `s` between the occurrences of `c`.
pub fn split_by_char(s: &str, c: char) -> (r: Vec<String>)
    ensures
        r@.len() == split_char(s@, c).len(),
        forall|i: int| 0 <= i < r@.len() ==> (#[trigger] r@[i])@ == split_char(s@, c)[i],
{
    let cs = chars_of(s);
    let mut done: Vec<String> = Vec::new();
    let ghost mut done_v: Seq<Seq<char>> = Seq::empty();
    let mut start: usize = 0;
    let mut i: usize = 0;
    assert(s@.skip(0) =~= s@);
    proof {
        lemma_split_nonempty(s@, c);
        assert(prefix_first(Seq::<char>::empty(), split_char(s@, c)) =~= split_char(s@, c));
        assert(done_v + split_char(s@, c) =~= split_char(s@, c));
    }
    while i < cs.len()
        invariant
            cs@ == s@,
            start <= i <= cs@.len(),
            done@.len() == done_v.len(),
            forall|j: int| 0 <= j < done@.len() ==> (#[trigger] done@[j])@ == done_v[j],
            split_char(s@, c) == done_v + prefix_first(
                s@.subrange(start as int, i as int),
                split_char(s@.skip(i as int), c),
            ),
        decreases cs@.len() - i,
    {
        let ghost t = s@.skip(i as int);
        let ghost cur = s@.subrange(start as int, i as int);
        proof {
            lemma_split_nonempty(t.drop_first(), c);
            assert(t.drop_first() =~= s@.skip(i + 1));
            assert(t[0] == cs@[i as int]);
        }
        if cs[i] == c {
            let piece = string_of_range(cs.as_slice(), start, i);
            done.push(piece);
            proof {
                let rest = split_char(s@.skip(i + 1), c);
                assert(split_char(t, c) == seq![Seq::<char>::empty()] + rest);
                assert(prefix_first(cur, seq![Seq::<char>::empty()] + rest) =~= seq![cur] + rest);
                assert(prefix_first(Seq::<char>::empty(), rest) =~= rest);
                assert(s@.subrange(i + 1, i + 1) =~= Seq::<char>::empty());
                assert(done_v + (seq![cur] + rest) =~= done_v.push(cur) + rest);
                done_v = done_v.push(cur);
            }
            start = i + 1;
        } else {
            proof {
                let rest = split_char(s@.skip(i + 1), c);
                assert(split_char(t, c) == rest.update(0, seq![t[0]] + rest[0]));
                assert(s@.subrange(start as int, i + 1) =~= cur.push(t[0]));
                assert(rest.len() >= 1);
                assert(cur + (seq![t[0]] + rest[0]) =~= cur.push(t[0]) + rest[0]);
                assert(prefix_first(cur, rest.update(0, seq![t[0]] + rest[0])) =~= prefix_first(
                    cur.push(t[0]),
                    rest,
                ));
            }
        }
        i = i + 1;
    }
    let last = string_of_range(cs.as_slice(), start, cs.len());
    proof {
        let cur = s@.subrange(start as int, i as int);
        assert(s@.skip(i as int) =~= Seq::<char>::empty());
        assert(prefix_first(cur, seq![Seq::<char>::empty()]) =~= seq![cur]);
        assert(done_v + seq![cur] =~= done_v.push(cur));
    }
    done.push(last);
    proof {
        done_v = done_v.push(s@.subrange(start as int, i as int));
        assert forall|j: int| 0 <= j < done@.len() implies (#[trigger] done@[j])@ == done_v[j] by {
        }
    }
    done
}

/// A semantic version `major.minor.patch`.
#[derive(Debug, Clone, Copy, PartialEq, Eq, Structural)]
pub struct Version {
    pub major: u8,
    pub minor: u8,
    pub patch: u8,
}

/// The version a text describes: its first three dot-separated pieces, each
/// a number that fits in a `u8`; anything after them is ignored.
pub open spec fn version_spec(s: Seq<char>) -> Option<Version> {
    let p = split_char(s, '.');
    if p.len() >= 3 && parse_u8_spec(p[0]) is Some && parse_u8_spec(p[1]) is Some && parse_u8_spec(
        p[2],
    ) is Some {
        Some(
            Version {
                major: parse_u8_spec(p[0]).unwrap(),
                minor: parse_u8_spec(p[1]).unwrap(),
                patch: parse_u8_spec(p[2]).unwrap(),
            },
        )
    } else {
        None
    }
}

impl Version {
    /// Reads a version such as `1.2.3`.
    pub fn from_string(version: &str) -> (r: Option<Version>)
        ensures
            r == version_spec(version@),
    {
        let parts = split_by_char(version, '.');
        if parts.len() < 3 {
            return None;
        }
        let major = parse_u8(parts[0].as_str());
        let minor = parse_u8(parts[1].as_str());
        let patch = parse_u8(parts[2].as_str());
        match (major, minor, patch) {
            (Some(major), Some(minor), Some(patch)) => Some(Version { major, minor, patch }),
            _ => None,
        }
    }
}

/// A dependency of a submission: a crate, its version and features.
pub struct Crate {
    pub name: String,
    pub version: Version,
    pub features: Vec<String>,
}

/// A code submission: the program and its dependencies.
pub struct CodeInput {
    pub input: String,
    pub lib: Vec<Crate>,
}

/// The answer to a code submission.
pub struct CodeResponse {
    errored: bool,
    exit_code: u8,
    compiler_output: String,
    code_output: String,
}

impl CodeResponse {
    pub fn new(errored: bool, exit_code: u8, compiler_output: String, code_output: String) -> (r:
        CodeResponse)
        ensures
            r.spec_errored() == errored,
            r.spec_exit_code() == exit_code,
            r.spec_compiler_output() == compiler_output,
            r.spec_code_output() == code_output,
    {
        CodeResponse { errored, exit_code, compiler_output, code_output }
    }

    pub closed spec fn spec_errored(&self) -> bool {
        self.errored
    }

    pub closed spec fn spec_exit_code(&self) -> u8 {
        self.exit_code
    }

    pub closed spec fn spec_compiler_output(&self) -> String {
        self.compiler_output
    }

    pub closed spec fn spec_code_output(&self) -> String {
        self.code_output
    }

    pub fn errored(&self) -> (r: bool)
        ensures
            r == self.spec_errored(),
    {
        self.errored
    }

    pub fn exit_code(&self) -> (r: u8)
        ensures
            r == self.spec_exit_code(),
    {
        self.exit_code
    }

    pub fn compiler_output(&self) -> (r: &String)
        ensures
            *r == self.spec_compiler_output(),
    {
        &self.compiler_output
    }

    pub fn code_output(&self) -> (r: &String)
        ensures
            *r == self.spec_code_output(),
    {
        &self.code_output
    }
}

/// The state of a stored session: its name, its program and its dependency
/// list.
pub struct SessionUpdate {
    pub name: String,
    pub code: String,
    pub crates: String,
}

/// Why a session could not be read back.
#[derive(Debug, Clone, Copy, PartialEq, Eq, Structural)]
pub enum SessionRetrievalError {
    Error,
    NotFound,
}

/// The dependency list of a runner's manifest: everything after its first
/// empty line (the text after the first `\n\n`).
pub open spec fn crates_section_spec(manifest: Seq<char>) -> Option<Seq<char>> {
    if contains(manifest, "\n\n"@) {
        Some(manifest.skip(
            (choose|i: int| first_occurrence_from(manifest, "\n\n"@, 0, i)) + 2,
        ))
    } else {
        None
    }
}

/// A session from its stored name, its program and its manifest, whose
/// dependency list is what follows the manifest's first empty line; `Error`
/// for a manifest without an empty line.
pub fn session_update(name: String, code: String, manifest: &str) -> (r: Result<
    SessionUpdate,
    SessionRetrievalError,
>)
    ensures
        match crates_section_spec(manifest@) {
            Some(c) => r matches Ok(u) && u.name == name && u.code == code && u.crates@ == c,
            None => r matches Err(SessionRetrievalError::Error),
        },
{
    proof {
        reveal_strlit("\n\n");
    }
    match split_once(manifest, "\n\n") {
        Some((_, crates)) => {
            proof {
                let i = choose|i: int| first_occurrence_from(manifest@, "\n\n"@, 0, i) && crates@
                    == manifest@.skip(i + 2);
                let j = choose|j: int| first_occurrence_from(manifest@, "\n\n"@, 0, j);
                assert(occurs_at(manifest@, "\n\n"@, i));
                if i < j {
                    assert(!occurs_at(manifest@, "\n\n"@, i));
                }
                if j < i {
                    assert(!occurs_at(manifest@, "\n\n"@, j));
                }
            }
            Ok(SessionUpdate { name, code, crates })
        },
        None => Err(SessionRetrievalError::Error),
    }
}

/// The version `rust-analyzer --version` reports: where it exited
/// successfully and printed valid UTF-8, that text without its line
/// breaks.
pub fn analyzer_version_text(success: bool, stdout: Vec<u8>) -> (r: Option<String>)
    ensures
        !success ==> r is None,
        success && !valid_utf8(stdout@) ==> r is None,
        success && valid_utf8(stdout@) ==> (r matches Some(v) && exists|s: Seq<char>|
            utf8(s) == stdout@ && v@ == replace_spec(s, "\n"@, ""@)),
{
    if !success {
        return None;
    }
    proof {
        reveal_strlit("\n");
        reveal_strlit("");
    }
    match string_from_bytes(stdout) {
        Some(text) => Some(replace(text.as_str(), "\n", "")),
        None => None,
    }
}


/// Splitting at `c` leaves no `c` in any piece, and a text without `c`
/// is a single piece, itself.
pub proof fn law_split_pieces_hold_no_separator(s: Seq<char>, c: char)
    ensures
        split_char(s, c).len() >= 1,
        forall|i: int, k: int|
            0 <= i < split_char(s, c).len() && 0 <= k < split_char(s, c)[i].len() ==> #[trigger] split_char(
                s,
                c,
            )[i][k] != c,
        (forall|k: int| 0 <= k < s.len() ==> #[trigger] s[k] != c) ==> split_char(s, c) == seq![s],
    decreases s.len(),
{
    lemma_split_nonempty(s, c);
    if s.len() > 0 {
        let d = s.drop_first();
        law_split_pieces_hold_no_separator(d, c);
        let rest = split_char(d, c);
        let r = split_char(s, c);
        if s[0] == c {
            assert forall|i: int, k: int| 0 <= i < r.len() && 0 <= k < r[i].len() implies #[trigger] r[i][k] != c by {
                if i > 0 {
                    assert(r[i] == rest[i - 1]);
                }
            }
        } else {
            assert forall|i: int, k: int| 0 <= i < r.len() && 0 <= k < r[i].len() implies #[trigger] r[i][k] != c by {
                if i > 0 {
                    assert(r[i] == rest[i]);
                } else if k > 0 {
                    assert(r[0][k] == rest[0][k - 1]);
                }
            }
            if forall|k: int| 0 <= k < s.len() ==> #[trigger] s[k] != c {
                assert forall|k: int| 0 <= k < d.len() implies #[trigger] d[k] != c by {
                    assert(d[k] == s[k + 1]);
                }
                assert(rest == seq![d]);
                assert(seq![s[0]] + d =~= s);
                assert(r =~= seq![s]);
            }
        }
    } else {
        assert(s =~= Seq::<char>::empty());
        assert(split_char(s, c) =~= seq![s]);
    }
}

} // verus!
