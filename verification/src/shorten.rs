//! Shortening a text to the width it is shown in: the shortest prefix whose
//! rendered width goes past the room left is shown, followed by "...".
use vstd::prelude::*;

use crate::text::{chars_of, string_from_chars};

verus! {

/// The number of bytes of the character in UTF-8.
pub open spec fn utf8_len(c: char) -> nat {
    let v = c as u32;
    if v < 0x80 {
        1
    } else if v < 0x800 {
        2
    } else if v < 0x10000 {
        3
    } else {
        4
    }
}

/// The number of bytes of the text in UTF-8 (what `str::len` counts).
pub open spec fn byte_len(s: Seq<char>) -> nat
    decreases s.len(),
{
    if s.len() == 0 {
        0
    } else {
        byte_len(s.drop_last()) + utf8_len(s.last())
    }
}

/// The prefixes of `s` of at most `k` characters that are at least five
/// bytes long, shortest first.
pub open spec fn long_prefixes(s: Seq<char>, k: nat) -> Seq<Seq<char>>
    decreases k,
{
    if k == 0 {
        Seq::empty()
    } else {
        let rest = long_prefixes(s, (k - 1) as nat);
        if byte_len(s.take(k as int)) >= 5 {
            rest.push(s.take(k as int))
        } else {
            rest
        }
    }
}

/// The prefixes tried when a text is shortened: none for a text of at most
/// four bytes, otherwise each prefix of five bytes or more that ends on a
/// character, shortest first (the whole text last).
pub open spec fn shortening_candidates(s: Seq<char>) -> Seq<Seq<char>> {
    if byte_len(s) > 4 {
        long_prefixes(s, s.len())
    } else {
        Seq::empty()
    }
}

fn char_utf8_len(c: char) -> (n: u128)
    ensures
        n == utf8_len(c),
{
    let v = c as u32;
    if v < 0x80 {
        1
    } else if v < 0x800 {
        2
    } else if v < 0x10000 {
        3
    } else {
        4
    }
}

proof fn lemma_byte_len_bound(s: Seq<char>)
    ensures
        byte_len(s) <= 4 * s.len(),
    decreases s.len(),
{
    if s.len() > 0 {
        lemma_byte_len_bound(s.drop_last());
    }
}

/// The prefixes tried when `text` is shortened, shortest first.
pub fn shorten_candidates(text: &str) -> (r: Vec<String>)
    ensures
        r@.map_values(|p: String| p@) == shortening_candidates(text@),
{
    let c = chars_of(text);
    let mut out: Vec<String> = Vec::new();
    let mut prefix: Vec<char> = Vec::new();
    let mut bytes: u128 = 0;
    let mut i: usize = 0;
    while i < c.len()
        invariant
            0 <= i <= c@.len(),
            c@ == text@,
            prefix@ == c@.take(i as int),
            bytes == byte_len(c@.take(i as int)),
            out@.map_values(|p: String| p@) == long_prefixes(c@, i as nat),
        decreases c@.len() - i,
    {
        proof {
            lemma_byte_len_bound(c@.take(i as int));
            assert(c@.take(i + 1).drop_last() =~= c@.take(i as int));
            assert(c@.take(i + 1).last() == c@[i as int]);
        }
        prefix.push(c[i]);
        bytes = bytes + char_utf8_len(c[i]);
        proof {
            assert(prefix@ =~= c@.take(i + 1));
        }
        if bytes >= 5 {
            let p = string_from_chars(prefix.as_slice());
            let ghost before = out@;
            out.push(p);
            proof {
                assert(out@.map_values(|p: String| p@) =~= before.map_values(|p: String| p@).push(
                    c@.take(i + 1),
                ));
            }
        }
        i = i + 1;
    }
    proof {
        assert(c@.take(c@.len() as int) =~= c@);
    }
    if bytes > 4 {
        out
    } else {
        Vec::new()
    }
}

/// The room left for the text: `width` less `60 + margin`, and none when
/// the width does not exceed `60 + margin`.
pub open spec fn room_left(width: u32, margin: u32) -> int {
    if width > 60 + margin {
        width - (60 + margin)
    } else {
        0
    }
}

/// The candidate at `k` is shown: its measured width is known and goes past
/// the room left (see `room_left`).
pub open spec fn candidate_fits(measured: Seq<Option<u32>>, k: int, width: u32, margin: u32) -> bool {
    &&& measured[k] is Some
    &&& measured[k]->0 > room_left(width, margin)
}

/// `text` shortened to fit `width`: `measured[k]` is the rendered width of
/// the `k`-th candidate (see `shorten_candidates`), `None` where it could not
/// be measured. The first candidate that goes past the room left is shown
/// with "..." after it; when none does, the text is shown whole.
pub fn shorten_text(text: &str, width: u32, margin: u32, measured: &[Option<u32>]) -> (r: String)
    requires
        margin + 60 <= u32::MAX,
    ensures
        ({
            let cands = shortening_candidates(text@);
            let n = if cands.len() < measured@.len() {
                cands.len() as int
            } else {
                measured@.len() as int
            };
            ||| exists|k: int|
                0 <= k < n && #[trigger] candidate_fits(measured@, k, width, margin) && (forall|j: int|
                    0 <= j < k ==> !candidate_fits(measured@, j, width, margin)) && r@ == cands[k]
                    + seq!['.', '.', '.']
            ||| (forall|k: int| 0 <= k < n ==> !candidate_fits(measured@, k, width, margin)) && r@
                == text@
        }),
{
    let cands = shorten_candidates(text);
    let ghost views = cands@.map_values(|p: String| p@);
    let room: u32 = if width > 60 + margin {
        width - (60 + margin)
    } else {
        0
    };
    let mut k: usize = 0;
    while k < cands.len() && k < measured.len()
        invariant
            0 <= k <= cands@.len(),
            k <= measured@.len(),
            room == room_left(width, margin),
            views == cands@.map_values(|p: String| p@),
            views == shortening_candidates(text@),
            forall|j: int| 0 <= j < k ==> !candidate_fits(measured@, j, width, margin),
        decreases cands@.len() - k,
    {
        if let Some(w) = measured[k] {
            if w > room {
                let c = chars_of(cands[k].as_str());
                let mut v = c;
                v.push('.');
                v.push('.');
                v.push('.');
                proof {
                    assert(candidate_fits(measured@, k as int, width, margin));
                    assert(v@ =~= views[k as int] + seq!['.', '.', '.']);
                }
                return string_from_chars(v.as_slice());
            }
        }
        assert(!candidate_fits(measured@, k as int, width, margin));
        k = k + 1;
    }
    text.to_string()
}

/// A prefix is shown with "..." when its measured width goes past the width
/// less `60 + margin`, or, when the width is no more than `60 + margin`,
/// when it has any width at all.
pub proof fn law_shortening_choice(measured: Seq<Option<u32>>, k: int, width: u32, margin: u32)
    ensures
        candidate_fits(measured, k, width, margin) <==> (measured[k] matches Some(w) && (if width > 60
            + margin {
            w + 60 + margin > width
        } else {
            w > 0
        })),
{
}

} // verus!