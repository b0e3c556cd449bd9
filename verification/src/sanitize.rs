use vstd::prelude::*;
use vstd::string::StrSliceExecFns;

verus! {

/// Longest filename, in characters, that the sanitizer lets through.
pub const MAX_FILENAME_LEN: usize = 255;

/// Characters that may not appear in a filename written to disk.
pub open spec fn prohibited(c: char) -> bool {
    c == '/' || c == '\\' || c == '?' || c == '%' || c == '*' || c == ':' || c == '|' || c == '"'
        || c == '<' || c == '>' || c == ' '
}

/// A prohibited character becomes an underscore; every other character,
/// `.` included, is kept.
pub open spec fn sanitize_char(c: char) -> char {
    if prohibited(c) {
        '_'
    } else {
        c
    }
}

pub open spec fn sanitize_chars(s: Seq<char>) -> Seq<char> {
    s.map_values(|c: char| sanitize_char(c))
}

/// `j` is the position of the dot that starts the recognizable extension
/// of `s`: the last dot of the final path segment, and not the segment's
/// first character.
pub open spec fn is_ext_dot(s: Seq<char>, j: int) -> bool {
    &&& 0 <= j < s.len()
    &&& s[j] == '.'
    &&& forall|k: int| j < k < s.len() ==> s[k] != '.' && s[k] != '/'
    &&& j > 0
    &&& s[j - 1] != '/'
}

pub open spec fn has_extension(s: Seq<char>) -> bool {
    exists|j: int| is_ext_dot(s, j)
}

/// The extension of `s` together with its leading dot; empty when `s`
/// has no recognizable extension.
pub open spec fn reserved_suffix(s: Seq<char>) -> Seq<char> {
    if has_extension(s) {
        s.subrange(choose|j: int| is_ext_dot(s, j), s.len() as int)
    } else {
        Seq::empty()
    }
}

/// The characters of the budget left for the part in front of the
/// preserved extension.
pub open spec fn usable_len(s: Seq<char>) -> int {
    if reserved_suffix(s).len() <= MAX_FILENAME_LEN as int {
        MAX_FILENAME_LEN as int - reserved_suffix(s).len()
    } else {
        0
    }
}

/// What sanitization returns: a name of at most `MAX_FILENAME_LEN`
/// characters is sanitized character by character with no truncation;
/// a longer one keeps its extension verbatim at the tail and has the
/// sanitized front of the name cut to the remaining budget. When the
/// extension alone (dot included) is longer than the whole budget, the
/// budget for the front is zero and the extension still survives whole,
/// so only in that corner can the result exceed the cap: preserving the
/// extension and capping the length cannot both hold there.
pub open spec fn sanitize_spec(s: Seq<char>) -> Seq<char> {
    if s.len() <= MAX_FILENAME_LEN as int {
        sanitize_chars(s)
    } else {
        sanitize_chars(s.take(usable_len(s))) + reserved_suffix(s)
    }
}

pub proof fn lemma_ext_dot_unique(s: Seq<char>, j1: int, j2: int)
    requires
        is_ext_dot(s, j1),
        is_ext_dot(s, j2),
    ensures
        j1 == j2,
{
    if j1 < j2 {
        assert(s[j2] != '.');
    }
    if j2 < j1 {
        assert(s[j1] != '.');
    }
}

/// Collects the characters of a string, in order.
pub(crate) fn chars_of(s: &str) -> (r: Vec<char>)
    ensures
        r@ == s@,
{
    let n = s.unicode_len();
    let mut out: Vec<char> = Vec::new();
    let mut i: usize = 0;
    while i < n
        invariant
            i <= n,
            n == s@.len(),
            out@ == s@.take(i as int),
        decreases n - i,
    {
        out.push(s.get_char(i));
        proof {
            assert(out@ =~= s@.take(i as int + 1));
        }
        i = i + 1;
    }
    proof {
        assert(s@.take(n as int) =~= s@);
    }
    out
}

/// Relies on String's FromIterator over char: collecting characters
/// concatenates exactly those characters into a string.
#[verifier::external_body]
pub(crate) fn string_of(chars: &Vec<char>) -> (r: String)
    ensures
        r@ == chars@,
{
    chars.iter().collect()
}

pub(crate) fn is_prohibited(c: char) -> (b: bool)
    ensures
        b == prohibited(c),
{
    c == '/' || c == '\\' || c == '?' || c == '%' || c == '*' || c == ':' || c == '|' || c == '"'
        || c == '<' || c == '>' || c == ' '
}

fn find_ext_dot(s: &Vec<char>) -> (r: Option<usize>)
    ensures
        match r {
            Some(j) => is_ext_dot(s@, j as int),
            None => !has_extension(s@),
        },
{
    let mut i: usize = s.len();
    while i > 0
        invariant
            i <= s@.len(),
            forall|k: int| i <= k < s@.len() ==> s@[k] != '.' && s@[k] != '/',
        decreases i,
    {
        i = i - 1;
        let c = s[i];
        if c == '/' {
            proof {
                assert forall|j: int| !is_ext_dot(s@, j) by {
                    if is_ext_dot(s@, j) && j < i {
                        assert(s@[i as int] != '/');
                    }
                }
            }
            return None;
        }
        if c == '.' {
            if i > 0 && *s.get(i - 1).unwrap() != '/' {
                return Some(i);
            }
            proof {
                assert forall|j: int| !is_ext_dot(s@, j) by {
                    if is_ext_dot(s@, j) && j < i {
                        assert(s@[i as int] != '.');
                    }
                }
            }
            return None;
        }
    }
    None
}

pub(crate) fn sanitize_vec(s: &Vec<char>) -> (r: Vec<char>)
    ensures
        r@ == sanitize_spec(s@),
{
    let n = s.len();
    let dot = find_ext_dot(s);
    let usable: usize = match dot {
        Some(j) => {
            proof {
                let jj = choose|jj: int| is_ext_dot(s@, jj);
                lemma_ext_dot_unique(s@, jj, j as int);
            }
            let sfx_len = n - j;
            if sfx_len <= MAX_FILENAME_LEN {
                MAX_FILENAME_LEN - sfx_len
            } else {
                0
            }
        },
        None => MAX_FILENAME_LEN,
    };
    assert(usable as int == usable_len(s@));
    let limit = if n <= MAX_FILENAME_LEN {
        n
    } else {
        usable
    };
    let mut out: Vec<char> = Vec::new();
    let mut i: usize = 0;
    while i < limit
        invariant
            i <= limit,
            limit as int == (if s@.len() <= MAX_FILENAME_LEN as int {
                s@.len() as int
            } else {
                usable_len(s@)
            }),
            usable as int == usable_len(s@),
            n == s@.len(),
            out@ == sanitize_chars(s@.take(i as int)),
        decreases limit - i,
    {
        let c = s[i];
        if is_prohibited(c) {
            out.push('_');
        } else {
            out.push(c);
        }
        proof {
            assert(out@ =~= sanitize_chars(s@.take(i as int + 1)));
        }
        i = i + 1;
    }
    if n > MAX_FILENAME_LEN {
        match dot {
            Some(j) => {
                proof {
                    let jj = choose|jj: int| is_ext_dot(s@, jj);
                    lemma_ext_dot_unique(s@, jj, j as int);
                }
                let mut k = j;
                while k < n
                    invariant
                        j <= k <= n,
                        n == s@.len(),
                        is_ext_dot(s@, j as int),
                        usable as int == usable_len(s@),
                        n > MAX_FILENAME_LEN,
                        out@ == sanitize_chars(s@.take(usable as int)) + s@.subrange(
                            j as int,
                            k as int,
                        ),
                    decreases n - k,
                {
                    out.push(s[k]);
                    proof {
                        assert(out@ =~= sanitize_chars(s@.take(usable as int)) + s@.subrange(
                            j as int,
                            k as int + 1,
                        ));
                    }
                    k = k + 1;
                }
                proof {
                    assert(out@ =~= sanitize_spec(s@));
                }
            },
            None => {
                proof {
                    assert(reserved_suffix(s@) =~= Seq::<char>::empty());
                    assert(out@ =~= sanitize_spec(s@));
                }
            },
        }
    } else {
        proof {
            assert(s@.take(n as int) =~= s@);
        }
    }
    out
}

/// Maps an arbitrary proposed filename to a filesystem-safe one:
/// prohibited characters become underscores, the name is cut to at most
/// `MAX_FILENAME_LEN` characters, and a recognizable extension survives
/// the cut verbatim at the tail.
pub fn sanitize_filename(input: &String) -> (r: String)
    ensures
        r@ == sanitize_spec(input@),
{
    let chars = chars_of(input.as_str());
    let out = sanitize_vec(&chars);
    string_of(&out)
}

/// Law: sanitization replaces each prohibited character with exactly one
/// underscore and keeps every other character, `.` included, at every
/// position that survives truncation; a name within the cap keeps its
/// length.
pub proof fn lemma_sanitize_replaces_prohibited(s: Seq<char>)
    ensures
        forall|i: int|
            0 <= i < s.len() && (s.len() <= MAX_FILENAME_LEN as int || i < usable_len(s))
                ==> sanitize_spec(s)[i] == sanitize_char(s[i]),
        s.len() <= MAX_FILENAME_LEN as int ==> sanitize_spec(s).len() == s.len(),
{
    if s.len() <= MAX_FILENAME_LEN as int {
        assert forall|i: int| 0 <= i < s.len() implies sanitize_spec(s)[i] == sanitize_char(
            s[i],
        ) by {
            assert(sanitize_chars(s)[i] == sanitize_char(s[i]));
        }
    } else {
        assert forall|i: int| 0 <= i < s.len() && i < usable_len(s) implies sanitize_spec(s)[i]
            == sanitize_char(s[i]) by {
            assert(sanitize_chars(s.take(usable_len(s)))[i] == sanitize_char(s[i]));
        }
    }
}

/// Law: an over-long name with a recognizable extension is cut to the
/// maximum length exactly, the extension (dot included) stands verbatim
/// at the tail, and the sanitized front of the name fills the remaining
/// budget.
pub proof fn lemma_sanitize_truncates_keeping_extension(s: Seq<char>)
    requires
        s.len() > MAX_FILENAME_LEN as int,
        has_extension(s),
        reserved_suffix(s).len() <= MAX_FILENAME_LEN as int,
    ensures
        sanitize_spec(s).len() == MAX_FILENAME_LEN as int,
        sanitize_spec(s).skip(usable_len(s)) == reserved_suffix(s),
        sanitize_spec(s).take(usable_len(s)) == sanitize_chars(s.take(usable_len(s))),
{
    assert(sanitize_spec(s).skip(usable_len(s)) =~= reserved_suffix(s));
    assert(sanitize_spec(s).take(usable_len(s)) =~= sanitize_chars(s.take(usable_len(s))));
}

/// Law: a name of at most the maximum length is sanitized purely
/// character by character, with no truncation.
pub proof fn lemma_sanitize_short_is_charwise(s: Seq<char>)
    requires
        s.len() <= MAX_FILENAME_LEN as int,
    ensures
        sanitize_spec(s) == sanitize_chars(s),
        sanitize_spec(s).len() == s.len(),
{
}

} // verus!
