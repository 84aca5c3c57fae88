//! Small verified text utilities: ASCII case-insensitive substring
//! search, hidden-name detection, path joining, and integer rendering.

use vstd::prelude::*;
use vstd::string::StrSliceExecFns;
use vstd::string::StringExecFns;

verus! {

/// Code point of `c` with an ASCII upper-case letter folded to lower case.
pub open spec fn lower_code(c: char) -> u32 {
    if 65 <= c as u32 && c as u32 <= 90 {
        (c as u32 + 32) as u32
    } else {
        c as u32
    }
}

/// `needle` occurs in `hay` at offset `i`, compared ASCII case-insensitively.
pub open spec fn ci_match_at(hay: Seq<char>, needle: Seq<char>, i: int) -> bool {
    forall|j: int|
        0 <= j < needle.len() ==> lower_code(hay[i + j]) == lower_code(#[trigger] needle[j])
}

/// `needle` occurs somewhere in `hay`, compared ASCII case-insensitively.
pub open spec fn contains_ci(hay: Seq<char>, needle: Seq<char>) -> bool {
    exists|i: int| 0 <= i <= hay.len() - needle.len() && #[trigger] ci_match_at(hay, needle, i)
}

/// The case-folded code point of a character.
fn lower_code_of(c: char) -> (r: u32)
    ensures
        r == lower_code(c),
{
    let u = c as u32;
    if 65 <= u && u <= 90 {
        u + 32
    } else {
        u
    }
}

/// ASCII case-insensitive substring test.
pub fn text_contains(hay: &str, needle: &str) -> (r: bool)
    ensures
        r == contains_ci(hay@, needle@),
{
    let h = hay.unicode_len();
    let n = needle.unicode_len();
    if n > h {
        assert(!contains_ci(hay@, needle@));
        return false;
    }
    let mut i: usize = 0;
    while i <= h - n
        invariant
            n <= h,
            h == hay@.len(),
            n == needle@.len(),
            i <= h - n + 1,
            forall|k: int| 0 <= k < i ==> !ci_match_at(hay@, needle@, k),
        decreases h - n - i + 1,
    {
        let mut j: usize = 0;
        let mut matched = true;
        while j < n
            invariant
                n <= h,
                h == hay@.len(),
                n == needle@.len(),
                i <= h - n,
                j <= n,
                matched ==> forall|l: int|
                    0 <= l < j ==> lower_code(hay@[i + l]) == lower_code(#[trigger] needle@[l]),
                !matched ==> !ci_match_at(hay@, needle@, i as int),
            decreases n - j,
        {
            if matched {
                let hc = hay.get_char(i + j);
                let nc = needle.get_char(j);
                if lower_code_of(hc) != lower_code_of(nc) {
                    assert(!ci_match_at(hay@, needle@, i as int));
                    matched = false;
                }
            }
            j = j + 1;
        }
        if matched {
            assert(ci_match_at(hay@, needle@, i as int));
            return true;
        }
        i = i + 1;
    }
    assert forall|k: int| 0 <= k <= hay@.len() - needle@.len() implies !ci_match_at(
        hay@,
        needle@,
        k,
    ) by {
        assert(k < i);
    }
    false
}

/// `needle` occurs in `hay` at offset `i`, compared exactly.
pub open spec fn match_at(hay: Seq<char>, needle: Seq<char>, i: int) -> bool {
    forall|j: int| 0 <= j < needle.len() ==> hay[i + j] == #[trigger] needle[j]
}

/// `needle` occurs somewhere in `hay`, compared exactly.
pub open spec fn contains_sub(hay: Seq<char>, needle: Seq<char>) -> bool {
    exists|i: int| 0 <= i <= hay.len() - needle.len() && #[trigger] match_at(hay, needle, i)
}

/// Exact substring test.
pub fn text_contains_exact(hay: &str, needle: &str) -> (r: bool)
    ensures
        r == contains_sub(hay@, needle@),
{
    let h = hay.unicode_len();
    let n = needle.unicode_len();
    if n > h {
        assert(!contains_sub(hay@, needle@));
        return false;
    }
    let mut i: usize = 0;
    while i <= h - n
        invariant
            n <= h,
            h == hay@.len(),
            n == needle@.len(),
            i <= h - n + 1,
            forall|k: int| 0 <= k < i ==> !match_at(hay@, needle@, k),
        decreases h - n - i + 1,
    {
        let mut j: usize = 0;
        let mut matched = true;
        while j < n
            invariant
                n <= h,
                h == hay@.len(),
                n == needle@.len(),
                i <= h - n,
                j <= n,
                matched ==> forall|l: int| 0 <= l < j ==> hay@[i + l] == #[trigger] needle@[l],
                !matched ==> !match_at(hay@, needle@, i as int),
            decreases n - j,
        {
            if matched {
                if hay.get_char(i + j) != needle.get_char(j) {
                    assert(!match_at(hay@, needle@, i as int));
                    matched = false;
                }
            }
            j = j + 1;
        }
        if matched {
            assert(match_at(hay@, needle@, i as int));
            return true;
        }
        i = i + 1;
    }
    assert forall|k: int| 0 <= k <= hay@.len() - needle@.len() implies !match_at(
        hay@,
        needle@,
        k,
    ) by {
        assert(k < i);
    }
    false
}

/// A name is hidden when its first character is a dot.
pub open spec fn spec_is_hidden(name: Seq<char>) -> bool {
    name.len() > 0 && name[0] == '.'
}

/// Whether an entry name starts with a dot (and is therefore skipped
/// by the traversal).
pub fn is_hidden_name(name: &str) -> (r: bool)
    ensures
        r == spec_is_hidden(name@),
{
    if name.unicode_len() == 0 {
        false
    } else {
        name.get_char(0) == '.'
    }
}

/// Whether `c` occurs in `s`.
pub open spec fn spec_contains_char(s: Seq<char>, c: char) -> bool {
    exists|i: int| 0 <= i < s.len() && s[i] == c
}

/// Character membership test.
pub fn contains_char(s: &str, c: char) -> (r: bool)
    ensures
        r == spec_contains_char(s@, c),
{
    let n = s.unicode_len();
    let mut i: usize = 0;
    while i < n
        invariant
            n == s@.len(),
            i <= n,
            forall|k: int| 0 <= k < i ==> s@[k] != c,
        decreases n - i,
    {
        if s.get_char(i) == c {
            return true;
        }
        i = i + 1;
    }
    false
}

/// `dir` and `name` joined with a single slash.
pub fn join_path(dir: &str, name: &str) -> (r: String)
    ensures
        r@ == dir@ + seq!['/'] + name@,
{
    proof {
        reveal_strlit("/");
        assert("/"@ =~= seq!['/']);
    }
    let mut s = String::from_str(dir);
    s.append("/");
    s.append(name);
    proof {
        assert(s@ =~= dir@ + seq!['/'] + name@);
    }
    s
}

/// The components of a path joined with single slashes.
pub open spec fn spec_joined(p: Seq<Seq<char>>) -> Seq<char>
    decreases p,
{
    if p.len() == 0 {
        Seq::empty()
    } else if p.len() == 1 {
        p[0]
    } else {
        spec_joined(p.drop_last()) + seq!['/'] + p.last()
    }
}

/// Join path components with single slashes.
pub fn join_components(p: &Vec<String>) -> (r: String)
    ensures
        r@ == spec_joined(p.deep_view()),
{
    proof {
        reveal_strlit("/");
        assert("/"@ =~= seq!['/']);
    }
    let n = p.len();
    if n == 0 {
        let r = String::new();
        proof {
            assert(r@ =~= spec_joined(p.deep_view()));
        }
        return r;
    }
    let mut r = String::from_str(p[0].as_str());
    proof {
        assert(p.deep_view().take(1) =~= seq![p@[0]@]);
        assert(r@ == spec_joined(p.deep_view().take(1)));
    }
    let mut i: usize = 1;
    while i < n
        invariant
            1 <= i <= n,
            n == p.len(),
            r@ == spec_joined(p.deep_view().take(i as int)),
        decreases n - i,
    {
        r.append("/");
        r.append(p[i].as_str());
        proof {
            reveal_strlit("/");
            assert("/"@ =~= seq!['/']);
            let t = p.deep_view().take(i as int);
            assert(p.deep_view().take(i as int + 1) =~= t.push(p@[i as int]@));
            assert(p.deep_view().take(i as int + 1).drop_last() =~= t);
            assert(r@ =~= spec_joined(p.deep_view().take(i as int + 1)));
        }
        i = i + 1;
    }
    proof {
        assert(p.deep_view().take(n as int) =~= p.deep_view());
    }
    r
}

/// The decimal digit character for `d`.
pub open spec fn spec_digit(d: int) -> char {
    if d == 0 {
        '0'
    } else if d == 1 {
        '1'
    } else if d == 2 {
        '2'
    } else if d == 3 {
        '3'
    } else if d == 4 {
        '4'
    } else if d == 5 {
        '5'
    } else if d == 6 {
        '6'
    } else if d == 7 {
        '7'
    } else if d == 8 {
        '8'
    } else {
        '9'
    }
}

/// The decimal rendering of a non-negative integer.
pub open spec fn spec_decimal(n: int) -> Seq<char>
    decreases n,
{
    if n < 10 {
        seq![spec_digit(n)]
    } else {
        spec_decimal(n / 10) + seq![spec_digit(n % 10)]
    }
}

/// One decimal digit as a string slice.
fn digit_str(d: u64) -> (r: &'static str)
    requires
        d < 10,
    ensures
        r@ =~= seq![spec_digit(d as int)],
{
    proof {
        reveal_strlit("0");
        reveal_strlit("1");
        reveal_strlit("2");
        reveal_strlit("3");
        reveal_strlit("4");
        reveal_strlit("5");
        reveal_strlit("6");
        reveal_strlit("7");
        reveal_strlit("8");
        reveal_strlit("9");
    }
    if d == 0 {
        "0"
    } else if d == 1 {
        "1"
    } else if d == 2 {
        "2"
    } else if d == 3 {
        "3"
    } else if d == 4 {
        "4"
    } else if d == 5 {
        "5"
    } else if d == 6 {
        "6"
    } else if d == 7 {
        "7"
    } else if d == 8 {
        "8"
    } else {
        "9"
    }
}

/// Decimal rendering of `n`.
pub fn decimal_string(n: u64) -> (r: String)
    ensures
        r@ == spec_decimal(n as int),
    decreases n,
{
    if n < 10 {
        String::from_str(digit_str(n))
    } else {
        let head = decimal_string(n / 10);
        let tail = digit_str(n % 10);
        let r = head.concat(tail);
        proof {
            assert(r@ =~= spec_decimal(n as int));
        }
        r
    }
}

/// The octal rendering of a non-negative integer.
pub open spec fn spec_octal(n: int) -> Seq<char>
    decreases n,
{
    if n < 8 {
        seq![spec_digit(n)]
    } else {
        spec_octal(n / 8) + seq![spec_digit(n % 8)]
    }
}

/// Octal rendering of `n`, used to report file permission modes.
pub fn octal_string(n: u64) -> (r: String)
    ensures
        r@ == spec_octal(n as int),
    decreases n,
{
    if n < 8 {
        String::from_str(digit_str(n))
    } else {
        let head = octal_string(n / 8);
        let tail = digit_str(n % 8);
        let r = head.concat(tail);
        proof {
            assert(r@ =~= spec_octal(n as int));
        }
        r
    }
}

} // verus!
