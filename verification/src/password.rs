//! Password rules: what a password must hold and which rule it breaks first.
use vstd::prelude::*;

use crate::text::{chars_equal, chars_of, contains_part, has_part};

verus! {

/// The shortest password accepted.
pub const PASSWORD_MIN_LEN: usize = 8;

/// Length of a run of neighbouring keyboard keys that a password must not hold.
pub const PASSWORD_MIN_FORBID_ADJACENT_LEN: usize = 4;

/// A requirement on passwords.
#[derive(Clone, Copy, PartialEq)]
pub enum Requirement {
    NoSpace,
    NoControlCharacter,
    MinimumLength(usize),
    AtLeastOneLowercase,
    AtLeastOneUppercase,
    AtLeastOneDigit,
    AtLeastOneSpecialCharacter,
    NoConsecutiveRepeatingCharacter,
    NoMoreThanThreeAdjacentKeyboardCharacters,
}

/// Whether a password meets one requirement.
#[derive(Clone, Copy, PartialEq)]
pub struct CheckResult {
    pub requirement: Requirement,
    pub passed: bool,
}

/// The first reason a password is refused.
#[derive(Clone, Copy, PartialEq)]
pub enum InvalidPasswordKind {
    /// Password contains whitespace characters
    HasSpace,
    /// Password contains control characters
    HasControlCharacter,
    /// Password confirmation does not match the password
    NotMatch,
    /// Password is shorter than the minimum required length
    TooShort,
    /// Password lacks lowercase letters
    NoLowercaseLetter,
    /// Password lacks uppercase letters
    NoUppercaseLetter,
    /// Password lacks numeric characters
    NoNumber,
    /// Password lacks symbol characters
    NoSymbol,
    /// Password contains consecutive identical letters
    HasConsecutiveLetters,
    /// Password contains adjacent letters in alphabetical order
    HasAdjacentLetters,
}

/// A control character (general category `Cc`), which `char::is_control` detects.
pub open spec fn is_control(c: char) -> bool {
    c <= '\u{1f}' || ('\u{7f}' <= c && c <= '\u{9f}')
}

pub open spec fn is_ascii_digit(c: char) -> bool {
    '0' <= c && c <= '9'
}

pub open spec fn is_ascii_upper(c: char) -> bool {
    'A' <= c && c <= 'Z'
}

pub open spec fn is_ascii_lower(c: char) -> bool {
    'a' <= c && c <= 'z'
}

/// The printable ASCII characters that are neither letters, digits nor space.
pub open spec fn is_ascii_symbol(c: char) -> bool {
    ||| ('!' <= c && c <= '/')
    ||| (':' <= c && c <= '@')
    ||| ('[' <= c && c <= '`')
    ||| ('{' <= c && c <= '~')
}

/// The password without its control characters.
pub open spec fn without_controls(s: Seq<char>) -> Seq<char> {
    s.filter(|c: char| !is_control(c))
}

/// How many characters of `s` satisfy `f`.
pub open spec fn count_where(s: Seq<char>, f: spec_fn(char) -> bool) -> nat {
    s.filter(f).len()
}

/// The character at `i` equals one of its neighbours.
pub open spec fn in_repeat_run(s: Seq<char>, i: int) -> bool {
    (i > 0 && s[i] == s[i - 1]) || (i + 1 < s.len() && s[i] == s[i + 1])
}

/// How many characters stand in a run of two or more equal characters.
pub open spec fn repeat_run_count(s: Seq<char>) -> nat {
    Seq::new(s.len(), |i: int| i).filter(|i: int| in_repeat_run(s, i)).len()
}

/// What the `passwords` crate's analyzer reports of a password.
pub struct PasswordAnalysis {
    /// The password without its control characters
    pub password: String,
    pub length: usize,
    pub spaces_count: usize,
    pub numbers_count: usize,
    pub lowercase_letters_count: usize,
    pub uppercase_letters_count: usize,
    pub symbols_count: usize,
    pub consecutive_count: usize,
}

/// `passwords::analyzer::analyze`. It drops the control characters of the
/// password, then counts, over what is left: the characters, the spaces, the
/// ASCII digits, lower-case and upper-case letters and symbols, and the
/// characters that stand next to an equal character.
#[verifier::external_body]
fn analyze(password: &str) -> (a: PasswordAnalysis)
    ensures
        a.password@ == without_controls(password@),
        a.length == without_controls(password@).len(),
        a.spaces_count == count_where(without_controls(password@), |c: char| c == ' '),
        a.numbers_count == count_where(without_controls(password@), |c: char| is_ascii_digit(c)),
        a.lowercase_letters_count == count_where(
            without_controls(password@),
            |c: char| is_ascii_lower(c),
        ),
        a.uppercase_letters_count == count_where(
            without_controls(password@),
            |c: char| is_ascii_upper(c),
        ),
        a.symbols_count == count_where(without_controls(password@), |c: char| is_ascii_symbol(c)),
        a.consecutive_count == repeat_run_count(without_controls(password@)),
{
    let x = passwords::analyzer::analyze(password);
    PasswordAnalysis {
        password: x.password().to_string(),
        length: x.length(),
        spaces_count: x.spaces_count(),
        numbers_count: x.numbers_count(),
        lowercase_letters_count: x.lowercase_letters_count(),
        uppercase_letters_count: x.uppercase_letters_count(),
        symbols_count: x.symbols_count(),
        consecutive_count: x.consecutive_count(),
    }
}

/// The checks, in order, and whether `p` passes each of them.
pub open spec fn requirement_results(p: Seq<char>) -> Seq<CheckResult> {
    let f = without_controls(p);
    seq![
        CheckResult { requirement: Requirement::NoSpace, passed: count_where(f, |c: char| c == ' ') == 0 },
        CheckResult { requirement: Requirement::NoControlCharacter, passed: p == f },
        CheckResult {
            requirement: Requirement::MinimumLength(PASSWORD_MIN_LEN),
            passed: f.len() >= PASSWORD_MIN_LEN,
        },
        CheckResult {
            requirement: Requirement::AtLeastOneLowercase,
            passed: count_where(f, |c: char| is_ascii_lower(c)) > 0,
        },
        CheckResult {
            requirement: Requirement::AtLeastOneUppercase,
            passed: count_where(f, |c: char| is_ascii_upper(c)) > 0,
        },
        CheckResult {
            requirement: Requirement::AtLeastOneDigit,
            passed: count_where(f, |c: char| is_ascii_digit(c)) > 0,
        },
        CheckResult {
            requirement: Requirement::AtLeastOneSpecialCharacter,
            passed: count_where(f, |c: char| is_ascii_symbol(c)) > 0,
        },
    ]
}

/// Checks a password against every requirement.
pub fn check_password_requirements(password: &str) -> (r: Vec<CheckResult>)
    ensures
        r@ == requirement_results(password@),
{
    let analyzed = analyze(password);
    let p = chars_of(password);
    let f = chars_of(analyzed.password.as_str());
    let mut r: Vec<CheckResult> = Vec::new();
    r.push(CheckResult { requirement: Requirement::NoSpace, passed: analyzed.spaces_count == 0 });
    r.push(
        CheckResult {
            requirement: Requirement::NoControlCharacter,
            passed: chars_equal(p.as_slice(), f.as_slice()),
        },
    );
    r.push(
        CheckResult {
            requirement: Requirement::MinimumLength(PASSWORD_MIN_LEN),
            passed: analyzed.length >= PASSWORD_MIN_LEN,
        },
    );
    r.push(
        CheckResult {
            requirement: Requirement::AtLeastOneLowercase,
            passed: analyzed.lowercase_letters_count > 0,
        },
    );
    r.push(
        CheckResult {
            requirement: Requirement::AtLeastOneUppercase,
            passed: analyzed.uppercase_letters_count > 0,
        },
    );
    r.push(
        CheckResult { requirement: Requirement::AtLeastOneDigit, passed: analyzed.numbers_count > 0 },
    );
    r.push(
        CheckResult {
            requirement: Requirement::AtLeastOneSpecialCharacter,
            passed: analyzed.symbols_count > 0,
        },
    );
    assert(r@ =~= requirement_results(password@));
    r
}

/// The first rule that `p` breaks, in the order the input form checks them.
pub open spec fn first_broken_rule(p: Seq<char>) -> Option<InvalidPasswordKind> {
    let f = without_controls(p);
    if p != f {
        Some(InvalidPasswordKind::HasControlCharacter)
    } else if count_where(f, |c: char| c == ' ') > 0 {
        Some(InvalidPasswordKind::HasSpace)
    } else if f.len() < PASSWORD_MIN_LEN {
        Some(InvalidPasswordKind::TooShort)
    } else if count_where(f, |c: char| is_ascii_lower(c)) == 0 {
        Some(InvalidPasswordKind::NoLowercaseLetter)
    } else if count_where(f, |c: char| is_ascii_upper(c)) == 0 {
        Some(InvalidPasswordKind::NoUppercaseLetter)
    } else if count_where(f, |c: char| is_ascii_digit(c)) == 0 {
        Some(InvalidPasswordKind::NoNumber)
    } else if count_where(f, |c: char| is_ascii_symbol(c)) == 0 {
        Some(InvalidPasswordKind::NoSymbol)
    } else {
        None
    }
}

/// The first rule a password breaks, or `None` when it breaks none.
pub fn invalid_password(password: &str) -> (r: Option<InvalidPasswordKind>)
    ensures
        r == first_broken_rule(password@),
{
    let analyzed = analyze(password);
    let p = chars_of(password);
    let f = chars_of(analyzed.password.as_str());
    if !chars_equal(p.as_slice(), f.as_slice()) {
        Some(InvalidPasswordKind::HasControlCharacter)
    } else if analyzed.spaces_count > 0 {
        Some(InvalidPasswordKind::HasSpace)
    } else if analyzed.length < PASSWORD_MIN_LEN {
        Some(InvalidPasswordKind::TooShort)
    } else if analyzed.lowercase_letters_count == 0 {
        Some(InvalidPasswordKind::NoLowercaseLetter)
    } else if analyzed.uppercase_letters_count == 0 {
        Some(InvalidPasswordKind::NoUppercaseLetter)
    } else if analyzed.numbers_count == 0 {
        Some(InvalidPasswordKind::NoNumber)
    } else if analyzed.symbols_count == 0 {
        Some(InvalidPasswordKind::NoSymbol)
    } else {
        None
    }
}

/// A password is refused by the input form exactly when it fails one of the
/// listed requirements.
pub proof fn law_refused_iff_requirement_failed(p: Seq<char>)
    ensures
        first_broken_rule(p) is None <==> forall|i: int|
            0 <= i < requirement_results(p).len() ==> (#[trigger] requirement_results(p)[i]).passed,
{
    let rs = requirement_results(p);
    if first_broken_rule(p) is None {
        assert forall|i: int| 0 <= i < rs.len() implies (#[trigger] rs[i]).passed by {
            assert(rs.len() == 7);
        }
    } else {
        if first_broken_rule(p) == Some(InvalidPasswordKind::HasControlCharacter) {
            assert(!rs[1].passed);
        } else if first_broken_rule(p) == Some(InvalidPasswordKind::HasSpace) {
            assert(!rs[0].passed);
        } else if first_broken_rule(p) == Some(InvalidPasswordKind::TooShort) {
            assert(!rs[2].passed);
        } else if first_broken_rule(p) == Some(InvalidPasswordKind::NoLowercaseLetter) {
            assert(!rs[3].passed);
        } else if first_broken_rule(p) == Some(InvalidPasswordKind::NoUppercaseLetter) {
            assert(!rs[4].passed);
        } else if first_broken_rule(p) == Some(InvalidPasswordKind::NoNumber) {
            assert(!rs[5].passed);
        } else {
            assert(!rs[6].passed);
        }
    }
}

/// The rows of a keyboard, each also read backwards.
pub open spec fn keyboard_rows() -> Seq<Seq<char>> {
    seq![
        "1234567890"@,
        "qwertyuiop"@,
        "QWERTYUIOP"@,
        "asdfghjkl"@,
        "ASDFGHJKL"@,
        "zxcvbnm"@,
        "ZXCVBNM"@,
        "1234567890"@.reverse(),
        "qwertyuiop"@.reverse(),
        "QWERTYUIOP"@.reverse(),
        "asdfghjkl"@.reverse(),
        "ASDFGHJKL"@.reverse(),
        "zxcvbnm"@.reverse(),
        "ZXCVBNM"@.reverse(),
    ]
}

/// `p` holds four neighbouring keys of one keyboard row, in either direction.
pub open spec fn has_adjacent_keys(p: Seq<char>) -> bool {
    exists|r: int, i: int|
        0 <= r < keyboard_rows().len() && 0 <= i && i + 4 <= keyboard_rows()[r].len() && has_part(
            p,
            #[trigger] keyboard_rows()[r].subrange(i, i + 4),
        )
}

fn reversed_chars(v: &[char]) -> (r: Vec<char>)
    ensures
        r@ == v@.reverse(),
{
    let n = v.len();
    let mut r: Vec<char> = Vec::new();
    let mut i: usize = n;
    while i > 0
        invariant
            0 <= i <= n,
            n == v@.len(),
            r@ == v@.skip(i as int).reverse(),
        decreases i,
    {
        i = i - 1;
        r.push(v[i]);
        assert(v@.skip(i as int).reverse() =~= v@.skip(i + 1).reverse().push(v@[i as int]));
    }
    assert(v@.skip(0) =~= v@);
    r
}

fn window_found(p: &[char], row: &[char]) -> (b: bool)
    ensures
        b == exists|i: int| 0 <= i && i + 4 <= row@.len() && has_part(p@, #[trigger] row@.subrange(i, i + 4)),
{
    if row.len() < 4 {
        return false;
    }
    let mut i: usize = 0;
    while i <= row.len() - 4
        invariant
            0 <= i <= row@.len() - 3,
            row@.len() >= 4,
            forall|q: int| 0 <= q < i ==> !has_part(p@, #[trigger] row@.subrange(q, q + 4)),
        decreases row@.len() - i,
    {
        let mut w: Vec<char> = Vec::new();
        w.push(row[i]);
        w.push(row[i + 1]);
        w.push(row[i + 2]);
        w.push(row[i + 3]);
        assert(w@ =~= row@.subrange(i as int, i + 4));
        if contains_part(p, w.as_slice()) {
            return true;
        }
        i = i + 1;
    }
    false
}

/// Whether the password holds four neighbouring keys of a keyboard row
/// (such as `qwer` or `4321`).
pub fn is_adjacent(password: &str) -> (b: bool)
    ensures
        b == has_adjacent_keys(password@),
{
    let p = chars_of(password);
    let rows: [&str; 7] = [
        "1234567890",
        "qwertyuiop",
        "QWERTYUIOP",
        "asdfghjkl",
        "ASDFGHJKL",
        "zxcvbnm",
        "ZXCVBNM",
    ];
    let ghost all = keyboard_rows();
    let mut k: usize = 0;
    while k < 7
        invariant
            0 <= k <= 7,
            p@ == password@,
            all == keyboard_rows(),
            rows@ == seq!["1234567890", "qwertyuiop", "QWERTYUIOP", "asdfghjkl", "ASDFGHJKL", "zxcvbnm", "ZXCVBNM"],
            forall|r: int, i: int|
                (0 <= r < k || 7 <= r < 7 + k) && 0 <= i && i + 4 <= all[r].len() ==> !has_part(
                    p@,
                    #[trigger] all[r].subrange(i, i + 4),
                ),
        decreases 7 - k,
    {
        let row = chars_of(rows[k]);
        assert(row@ == all[k as int]);
        if window_found(p.as_slice(), row.as_slice()) {
            proof {
                let i = choose|i: int| 0 <= i && i + 4 <= row@.len() && has_part(p@, #[trigger] row@.subrange(i, i + 4));
                assert(keyboard_rows().len() == 14);
                assert(has_part(p@, keyboard_rows()[k as int].subrange(i, i + 4)));
            }
            return true;
        }
        let back = reversed_chars(row.as_slice());
        assert(back@ == all[k + 7]);
        if window_found(p.as_slice(), back.as_slice()) {
            proof {
                let i = choose|i: int| 0 <= i && i + 4 <= back@.len() && has_part(p@, #[trigger] back@.subrange(i, i + 4));
                assert(keyboard_rows().len() == 14);
                assert(has_part(p@, keyboard_rows()[k + 7].subrange(i, i + 4)));
            }
            return true;
        }
        k = k + 1;
    }
    false
}

proof fn lemma_count_positive(s: Seq<char>, f: spec_fn(char) -> bool)
    ensures
        count_where(s, f) > 0 <==> exists|i: int| 0 <= i < s.len() && #[trigger] f(s[i]),
{
    if exists|i: int| 0 <= i < s.len() && #[trigger] f(s[i]) {
        let i = choose|i: int| 0 <= i < s.len() && #[trigger] f(s[i]);
        s.lemma_filter_contains(f, i);
    }
    if count_where(s, f) > 0 {
        let x = s.filter(f)[0];
        s.lemma_filter_pred(f, 0);
        assert(s.filter(f).contains(x));
        s.lemma_filter_contains_rev(f, x);
        let i = choose|i: int| 0 <= i < s.len() && s[i] == x;
        assert(f(s[i]));
    }
}

proof fn lemma_no_controls(s: Seq<char>)
    ensures
        without_controls(s) == s <==> forall|i: int| 0 <= i < s.len() ==> !is_control(#[trigger] s[i]),
    decreases s.len(),
{
    reveal(Seq::filter);
    if s.len() > 0 {
        lemma_no_controls(s.drop_last());
        s.drop_last().lemma_filter_len(|c: char| !is_control(c));
        if forall|i: int| 0 <= i < s.len() ==> !is_control(#[trigger] s[i]) {
            assert forall|i: int| 0 <= i < s.drop_last().len() implies !is_control(#[trigger] s.drop_last()[i]) by {
                assert(s.drop_last()[i] == s[i]);
            }
            assert(s.drop_last().push(s.last()) =~= s);
            assert(!is_control(s[s.len() - 1]));
        }
        if without_controls(s) == s {
            let d = s.drop_last();
            if is_control(s.last()) {
                assert(without_controls(s).len() <= d.len());
            } else {
                assert(without_controls(d).push(s.last()) == s);
                assert(without_controls(d) =~= d);
            }
            assert forall|i: int| 0 <= i < s.len() implies !is_control(#[trigger] s[i]) by {
                if i < s.len() - 1 {
                    assert(s[i] == d[i]);
                }
            }
        }
    }
}

/// A password is accepted exactly when it is at least `PASSWORD_MIN_LEN`
/// characters long, holds no control character and no space, and holds a
/// lowercase letter, an uppercase letter, a digit and a symbol.
pub proof fn law_accepted_password_shape(p: Seq<char>)
    ensures
        first_broken_rule(p) is None <==> {
            &&& p.len() >= PASSWORD_MIN_LEN
            &&& forall|i: int| 0 <= i < p.len() ==> !is_control(#[trigger] p[i]) && p[i] != ' '
            &&& exists|i: int| 0 <= i < p.len() && is_ascii_lower(#[trigger] p[i])
            &&& exists|i: int| 0 <= i < p.len() && is_ascii_upper(#[trigger] p[i])
            &&& exists|i: int| 0 <= i < p.len() && is_ascii_digit(#[trigger] p[i])
            &&& exists|i: int| 0 <= i < p.len() && is_ascii_symbol(#[trigger] p[i])
        },
{
    lemma_no_controls(p);
    let sp = |c: char| c == ' ';
    let lo = |c: char| is_ascii_lower(c);
    let up = |c: char| is_ascii_upper(c);
    let dg = |c: char| is_ascii_digit(c);
    let sy = |c: char| is_ascii_symbol(c);
    lemma_count_positive(p, sp);
    lemma_count_positive(p, lo);
    lemma_count_positive(p, up);
    lemma_count_positive(p, dg);
    lemma_count_positive(p, sy);
    assert((exists|i: int| 0 <= i < p.len() && #[trigger] sp(p[i])) <==> exists|i: int|
        0 <= i < p.len() && #[trigger] p[i] == ' ') by {
        if exists|i: int| 0 <= i < p.len() && #[trigger] sp(p[i]) {
            let i = choose|i: int| 0 <= i < p.len() && #[trigger] sp(p[i]);
            assert(p[i] == ' ');
        }
        if exists|i: int| 0 <= i < p.len() && #[trigger] p[i] == ' ' {
            let i = choose|i: int| 0 <= i < p.len() && #[trigger] p[i] == ' ';
            assert(sp(p[i]));
        }
    }
    assert((exists|i: int| 0 <= i < p.len() && #[trigger] lo(p[i])) <==> exists|i: int|
        0 <= i < p.len() && is_ascii_lower(#[trigger] p[i])) by {
        if exists|i: int| 0 <= i < p.len() && #[trigger] lo(p[i]) {
            let i = choose|i: int| 0 <= i < p.len() && #[trigger] lo(p[i]);
            assert(is_ascii_lower(p[i]));
        }
        if exists|i: int| 0 <= i < p.len() && is_ascii_lower(#[trigger] p[i]) {
            let i = choose|i: int| 0 <= i < p.len() && is_ascii_lower(#[trigger] p[i]);
            assert(lo(p[i]));
        }
    }
    assert((exists|i: int| 0 <= i < p.len() && #[trigger] up(p[i])) <==> exists|i: int|
        0 <= i < p.len() && is_ascii_upper(#[trigger] p[i])) by {
        if exists|i: int| 0 <= i < p.len() && #[trigger] up(p[i]) {
            let i = choose|i: int| 0 <= i < p.len() && #[trigger] up(p[i]);
            assert(is_ascii_upper(p[i]));
        }
        if exists|i: int| 0 <= i < p.len() && is_ascii_upper(#[trigger] p[i]) {
            let i = choose|i: int| 0 <= i < p.len() && is_ascii_upper(#[trigger] p[i]);
            assert(up(p[i]));
        }
    }
    assert((exists|i: int| 0 <= i < p.len() && #[trigger] dg(p[i])) <==> exists|i: int|
        0 <= i < p.len() && is_ascii_digit(#[trigger] p[i])) by {
        if exists|i: int| 0 <= i < p.len() && #[trigger] dg(p[i]) {
            let i = choose|i: int| 0 <= i < p.len() && #[trigger] dg(p[i]);
            assert(is_ascii_digit(p[i]));
        }
        if exists|i: int| 0 <= i < p.len() && is_ascii_digit(#[trigger] p[i]) {
            let i = choose|i: int| 0 <= i < p.len() && is_ascii_digit(#[trigger] p[i]);
            assert(dg(p[i]));
        }
    }
    assert((exists|i: int| 0 <= i < p.len() && #[trigger] sy(p[i])) <==> exists|i: int|
        0 <= i < p.len() && is_ascii_symbol(#[trigger] p[i])) by {
        if exists|i: int| 0 <= i < p.len() && #[trigger] sy(p[i]) {
            let i = choose|i: int| 0 <= i < p.len() && #[trigger] sy(p[i]);
            assert(is_ascii_symbol(p[i]));
        }
        if exists|i: int| 0 <= i < p.len() && is_ascii_symbol(#[trigger] p[i]) {
            let i = choose|i: int| 0 <= i < p.len() && is_ascii_symbol(#[trigger] p[i]);
            assert(sy(p[i]));
        }
    }
    if first_broken_rule(p) is None {
        assert(without_controls(p) == p);
        assert forall|i: int| 0 <= i < p.len() implies !is_control(#[trigger] p[i]) && p[i] != ' ' by {
            if p[i] == ' ' {
                assert(sp(p[i]));
            }
        }
    }
}

} // verus!