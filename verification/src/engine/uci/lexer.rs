//! The pieces that UCI commands are read from: blanks, fixed words,
//! numbers, squares and moves, each at a position of a line of characters.

use vstd::prelude::*;
use crate::chess::piece::PromotionPieceKind;
use crate::chess::square::Square;
use crate::engine::uci::uci_move::UciMove;

verus! {

/// A space or a tab.
pub open spec fn is_blank(c: char) -> bool {
    c == ' ' || c == '\t'
}

/// The position of the first character at or after `i` that is not a blank.
pub open spec fn blanks_end(s: Seq<char>, i: int) -> int
    decreases s.len() - i,
{
    if 0 <= i < s.len() && is_blank(s[i]) { blanks_end(s, i + 1) } else { i }
}

/// Whether the word `t` stands at `i`.
pub open spec fn has_tag(s: Seq<char>, i: int, t: Seq<char>) -> bool {
    0 <= i && i + t.len() <= s.len() && s.subrange(i, i + t.len()) == t
}

/// The first position at or after `i` where `t` stands.
pub open spec fn find_spec(s: Seq<char>, i: int, t: Seq<char>) -> Option<int>
    decreases s.len() - i,
{
    if i < 0 || i + t.len() > s.len() {
        None
    } else if has_tag(s, i, t) {
        Some(i)
    } else if i >= s.len() {
        None
    } else {
        find_spec(s, i + 1, t)
    }
}

/// A decimal digit.
pub open spec fn is_digit(c: char) -> bool {
    '0' <= c <= '9'
}

/// The position of the first character at or after `i` that is not a digit.
pub open spec fn digits_end(s: Seq<char>, i: int) -> int
    decreases s.len() - i,
{
    if 0 <= i < s.len() && is_digit(s[i]) { digits_end(s, i + 1) } else { i }
}

/// The number written by the digits from `i` up to `j`.
pub open spec fn digits_value(s: Seq<char>, i: int, j: int) -> int
    decreases j - i,
{
    if j <= i { 0 } else { digits_value(s, i, j - 1) * 10 + (s[j - 1] as int - 48) }
}

/// An unsigned number at `i` of at most `max`: its value and where it ends.
pub open spec fn uint_at(s: Seq<char>, i: int, max: int) -> Option<(int, int)> {
    let end = digits_end(s, i);
    if end > i && digits_value(s, i, end) <= max { Some((digits_value(s, i, end), end)) } else { None }
}

/// A signed 64-bit number at `i`, with an optional `+` or `-` sign.
pub open spec fn int_at(s: Seq<char>, i: int) -> Option<(int, int)> {
    if 0 <= i < s.len() && s[i] == '-' {
        match uint_at(s, i + 1, 0x8000_0000_0000_0000) {
            Some((v, end)) => Some((-v, end)),
            None => None,
        }
    } else if 0 <= i < s.len() && s[i] == '+' {
        uint_at(s, i + 1, i64::MAX as int)
    } else {
        uint_at(s, i, i64::MAX as int)
    }
}

/// An ASCII letter.
pub open spec fn is_letter(c: char) -> bool {
    ('a' <= c <= 'z') || ('A' <= c <= 'Z')
}

/// The position of the first character at or after `i` that is not a letter.
pub open spec fn letters_end(s: Seq<char>, i: int) -> int
    decreases s.len() - i,
{
    if 0 <= i < s.len() && is_letter(s[i]) { letters_end(s, i + 1) } else { i }
}

/// A move as read: source and destination square and promotion.
pub open spec fn move_view(m: UciMove) -> (int, int, Option<PromotionPieceKind>) {
    (m.src@, m.dst@, m.promotion)
}

/// The square named at `i` by a file letter and a rank digit.
pub open spec fn square_at(s: Seq<char>, i: int) -> Option<int> {
    if 0 <= i && i + 1 < s.len() && 'a' <= s[i] <= 'h' && '1' <= s[i + 1] <= '8' {
        Some((s[i + 1] as int - 49) * 8 + (s[i] as int - 97))
    } else {
        None
    }
}

/// The promotion of a lowercase letter.
pub open spec fn promotion_of(c: char) -> Option<PromotionPieceKind> {
    if c == 'n' {
        Some(PromotionPieceKind::Knight)
    } else if c == 'b' {
        Some(PromotionPieceKind::Bishop)
    } else if c == 'r' {
        Some(PromotionPieceKind::Rook)
    } else if c == 'q' {
        Some(PromotionPieceKind::Queen)
    } else {
        None
    }
}

/// The move named at `i`: two squares and an optional promotion letter.
pub open spec fn move_at(s: Seq<char>, i: int) -> Option<((int, int, Option<PromotionPieceKind>), int)> {
    match (square_at(s, i), square_at(s, i + 2)) {
        (Some(a), Some(b)) => {
            let p = if 0 <= i + 4 < s.len() { promotion_of(s[i + 4]) } else { None };
            Some(((a, b, p), if p is Some { i + 5 } else { i + 4 }))
        },
        _ => None,
    }
}

/// Moves separated by blanks from `i`, at least one.
pub open spec fn moves_at(s: Seq<char>, i: int) -> Option<(Seq<(int, int, Option<PromotionPieceKind>)>, int)>
    decreases s.len() - i,
{
    match move_at(s, i) {
        None => None,
        Some((m, e)) => {
            let j = blanks_end(s, e);
            if j > e && move_at(s, j) is Some && e > i {
                match moves_at(s, j) {
                    Some((rest, end)) => Some((seq![m] + rest, end)),
                    None => Some((seq![m], e)),
                }
            } else {
                Some((seq![m], e))
            }
        },
    }
}

/// The position of the first blank at or after `i`.
pub proof fn lemma_blanks_end(s: Seq<char>, i: int)
    requires 0 <= i <= s.len(),
    ensures i <= blanks_end(s, i) <= s.len(),
    decreases s.len() - i,
{
    if i < s.len() && is_blank(s[i]) {
        lemma_blanks_end(s, i + 1);
    }
}

/// The position after the blanks at `i`.
pub fn blanks_end_exec(s: &Vec<char>, i: usize) -> (j: usize)
    requires i <= s@.len(),
    ensures j == blanks_end(s@, i as int), i <= j <= s@.len(),
{
    let mut j = i;
    while j < s.len() && (s[j] == ' ' || s[j] == '\t')
        invariant
            i <= j <= s@.len(),
            blanks_end(s@, j as int) == blanks_end(s@, i as int),
        decreases s@.len() - j,
    {
        j = j + 1;
    }
    j
}

/// Whether the word `t` stands at `i`.
pub fn tag_at(s: &Vec<char>, i: usize, t: &[char]) -> (r: bool)
    ensures
        r == has_tag(s@, i as int, t@),
        r ==> i + t@.len() <= s.len(),
{
    if i > s.len() || t.len() > s.len() - i {
        return false;
    }
    let n = s.len();
    let mut k: usize = 0;
    while k < t.len()
        invariant
            n == s@.len(),
            k <= t@.len(),
            i + t@.len() <= s@.len(),
            forall|x: int| 0 <= x < k ==> s@[i + x] == t@[x],
        decreases t@.len() - k,
    {
        assert(i + k < s@.len());
        if s[i + k] != t[k] {
            proof {
                assert(s@.subrange(i as int, i + t@.len())[k as int] != t@[k as int]);
            }
            return false;
        }
        k = k + 1;
    }
    proof {
        assert(s@.subrange(i as int, i + t@.len()) =~= t@);
    }
    true
}

/// The first position at or after `i` where `t` stands.
pub fn find_from(s: &Vec<char>, i: usize, t: &[char]) -> (r: Option<usize>)
    requires i <= s@.len(),
    ensures
        match r {
            Some(j) => find_spec(s@, i as int, t@) == Some(j as int) && i <= j <= s@.len(),
            None => find_spec(s@, i as int, t@) is None,
        },
{
    if t.len() == 0 {
        proof { assert(s@.subrange(i as int, i as int) =~= t@); }
        return Some(i);
    }
    let mut j = i;
    while j < s.len() && t.len() <= s.len() - j
        invariant
            i <= j <= s@.len(),
            t@.len() > 0,
            find_spec(s@, j as int, t@) == find_spec(s@, i as int, t@),
        decreases s@.len() + 1 - j,
    {
        if tag_at(s, j, t) {
            return Some(j);
        }
        j = j + 1;
    }
    None
}

/// The characters from `i` up to `j`, as a string.
pub fn substring(s: &Vec<char>, i: usize, j: usize) -> (r: String)
    requires i <= j <= s@.len(),
    ensures r@ == s@.subrange(i as int, j as int),
{
    let mut r = String::new();
    let mut k = i;
    while k < j
        invariant
            i <= k <= j,
            j <= s@.len(),
            r@ == s@.subrange(i as int, k as int),
        decreases j - k,
    {
        crate::text::push_char(&mut r, s[k]);
        proof { assert(r@ =~= s@.subrange(i as int, k + 1)); }
        k = k + 1;
    }
    r
}

/// More digits never make a smaller number, and digits make no negative one.
pub proof fn lemma_digits_value_monotone(s: Seq<char>, i: int, j: int, e: int)
    requires
        0 <= i <= j <= e <= s.len(),
        forall|k: int| i <= k < e ==> is_digit(#[trigger] s[k]),
    ensures 0 <= digits_value(s, i, j) <= digits_value(s, i, e),
    decreases e - i,
{
    if e > i {
        if j < e {
            lemma_digits_value_monotone(s, i, j, e - 1);
        } else {
            lemma_digits_value_monotone(s, i, j - 1, e - 1);
        }
        assert(is_digit(s[e - 1]));
    }
}

/// The digits from `i` are digits up to where they end.
pub proof fn lemma_digits_end(s: Seq<char>, i: int)
    requires 0 <= i <= s.len(),
    ensures
        i <= digits_end(s, i) <= s.len(),
        forall|k: int| i <= k < digits_end(s, i) ==> is_digit(#[trigger] s[k]),
    decreases s.len() - i,
{
    if i < s.len() && is_digit(s[i]) {
        lemma_digits_end(s, i + 1);
    }
}

/// An unsigned number at `i` of at most `max`.
pub fn uint_at_exec(s: &Vec<char>, i: usize, max: u64) -> (r: Option<(u64, usize)>)
    requires
        i <= s@.len(),
        max >= 9,
    ensures
        match r {
            None => uint_at(s@, i as int, max as int) is None,
            Some((v, e)) => uint_at(s@, i as int, max as int) == Some((v as int, e as int)) && e <= s@.len(),
        },
{
    let mut j = i;
    let mut acc: u64 = 0;
    let mut over = false;
    proof { lemma_digits_end(s@, i as int); }
    while j < s.len() && '0' <= s[j] && s[j] <= '9'
        invariant
            i <= j <= s@.len(),
            digits_end(s@, j as int) == digits_end(s@, i as int),
            forall|k: int| i <= k < j ==> is_digit(#[trigger] s@[k]),
            max >= 9,
            !over ==> acc == digits_value(s@, i as int, j as int) && acc <= max,
            over ==> digits_value(s@, i as int, j as int) > max,
        decreases s@.len() - j,
    {
        let d = (s[j] as u32 - 48) as u64;
        proof {
            lemma_digits_value_monotone(s@, i as int, j as int, j as int);
            assert(digits_value(s@, i as int, j + 1) == digits_value(s@, i as int, j as int) * 10 + d);
        }
        if !over {
            if acc > (max - d) / 10 {
                over = true;
                proof {
                    assert(acc * 10 + d > max) by (nonlinear_arith) requires acc > (max - d) / 10, d <= max || d > max;
                }
            } else {
                proof {
                    assert(acc * 10 + d <= max) by (nonlinear_arith) requires acc <= (max - d) / 10, d <= max;
                }
                acc = acc * 10 + d;
            }
        }
        j = j + 1;
    }
    if j == i || over {
        return None;
    }
    Some((acc, j))
}

/// A signed 64-bit number at `i`.
pub fn int_at_exec(s: &Vec<char>, i: usize) -> (r: Option<(i64, usize)>)
    requires i <= s@.len(),
    ensures
        match r {
            None => int_at(s@, i as int) is None,
            Some((v, e)) => int_at(s@, i as int) == Some((v as int, e as int)) && e <= s@.len(),
        },
{
    if i < s.len() && s[i] == '-' {
        match uint_at_exec(s, i + 1, 0x8000_0000_0000_0000u64) {
            Some((v, e)) => {
                let value: i64 = if v == 0x8000_0000_0000_0000u64 { i64::MIN } else { -(v as i64) };
                Some((value, e))
            },
            None => None,
        }
    } else if i < s.len() && s[i] == '+' {
        match uint_at_exec(s, i + 1, i64::MAX as u64) {
            Some((v, e)) => Some((v as i64, e)),
            None => None,
        }
    } else {
        match uint_at_exec(s, i, i64::MAX as u64) {
            Some((v, e)) => Some((v as i64, e)),
            None => None,
        }
    }
}

/// The position after the letters at `i`.
pub fn letters_end_exec(s: &Vec<char>, i: usize) -> (j: usize)
    requires i <= s@.len(),
    ensures j == letters_end(s@, i as int), i <= j <= s@.len(),
{
    let mut j = i;
    while j < s.len() && (('a' <= s[j] && s[j] <= 'z') || ('A' <= s[j] && s[j] <= 'Z'))
        invariant
            i <= j <= s@.len(),
            letters_end(s@, j as int) == letters_end(s@, i as int),
        decreases s@.len() - j,
    {
        j = j + 1;
    }
    j
}

/// The square named at `i`.
pub fn square_at_exec(s: &Vec<char>, i: usize) -> (r: Option<Square>)
    ensures
        match r {
            None => square_at(s@, i as int) is None,
            Some(sq) => square_at(s@, i as int) == Some(sq@),
        },
{
    if i < s.len() && s.len() - i >= 2 && 'a' <= s[i] && s[i] <= 'h' && '1' <= s[i + 1] && s[i + 1] <= '8' {
        let file = (s[i] as u32 - 97) as usize;
        let rank = (s[i + 1] as u32 - 49) as usize;
        Some(Square::from_idxs(file, rank))
    } else {
        None
    }
}

/// The promotion of a lowercase letter.
fn promotion_of_exec(c: char) -> (r: Option<PromotionPieceKind>)
    ensures r == promotion_of(c),
{
    if c == 'n' {
        Some(PromotionPieceKind::Knight)
    } else if c == 'b' {
        Some(PromotionPieceKind::Bishop)
    } else if c == 'r' {
        Some(PromotionPieceKind::Rook)
    } else if c == 'q' {
        Some(PromotionPieceKind::Queen)
    } else {
        None
    }
}

/// The move named at `i`.
pub fn move_at_exec(s: &Vec<char>, i: usize) -> (r: Option<(UciMove, usize)>)
    requires i <= s@.len(),
    ensures
        match r {
            None => move_at(s@, i as int) is None,
            Some((m, e)) => move_at(s@, i as int) == Some((move_view(m), e as int)) && e <= s@.len(),
        },
{
    let a = match square_at_exec(s, i) {
        Some(a) => a,
        None => return None,
    };
    if s.len() - i < 4 {
        return None;
    }
    let b = match square_at_exec(s, i + 2) {
        Some(b) => b,
        None => return None,
    };
    let p = if i + 4 < s.len() { promotion_of_exec(s[i + 4]) } else { None };
    let e = if p.is_some() { i + 5 } else { i + 4 };
    Some((UciMove { src: a, dst: b, promotion: p }, e))
}

/// The moves separated by blanks at `i`, at least one.
pub fn moves_at_exec(s: &Vec<char>, i: usize) -> (r: Option<(Vec<UciMove>, usize)>)
    requires i <= s@.len(),
    ensures
        match r {
            None => moves_at(s@, i as int) is None,
            Some((v, e)) => moves_at(s@, i as int) == Some((v@.map_values(|m: UciMove| move_view(m)), e as int)) && e <= s@.len(),
        },
    decreases s@.len() - i,
{
    let (m, e) = match move_at_exec(s, i) {
        Some(x) => x,
        None => return None,
    };
    let j = blanks_end_exec(s, e);
    if j > e && e > i && move_at_exec(s, j).is_some() {
        match moves_at_exec(s, j) {
            Some((rest, end)) => {
                let mut v: Vec<UciMove> = Vec::new();
                v.push(m);
                let mut rest = rest;
                let ghost rv = rest@;
                v.append(&mut rest);
                proof {
                    assert(v@.map_values(|x: UciMove| move_view(x)) =~= seq![move_view(m)] + rv.map_values(|x: UciMove| move_view(x)));
                }
                Some((v, end))
            },
            None => {
                let mut v: Vec<UciMove> = Vec::new();
                v.push(m);
                proof { assert(v@.map_values(|x: UciMove| move_view(x)) =~= seq![move_view(m)]); }
                Some((v, e))
            },
        }
    } else {
        let mut v: Vec<UciMove> = Vec::new();
        v.push(m);
        proof { assert(v@.map_values(|x: UciMove| move_view(x)) =~= seq![move_view(m)]); }
        Some((v, e))
    }
}

/// Reading back the UCI name of a move gives the move, and the whole name
/// is read.
pub proof fn lemma_notation_round_trip(m: UciMove)
    requires
        0 <= m.src@ < 64,
        0 <= m.dst@ < 64,
    ensures
        move_at(crate::engine::uci::uci_move::uci_notation(m), 0)
            == Some((move_view(m), crate::engine::uci::uci_move::uci_notation(m).len() as int)),
{
    let s = crate::engine::uci::uci_move::uci_notation(m);
    let a = m.src@;
    let b = m.dst@;
    assert(((a % 8 + 97) as u8) as char as int == a % 8 + 97) by {
        assert(0 <= a % 8 + 97 < 256);
    }
    assert(((a / 8 + 49) as u8) as char as int == a / 8 + 49);
    assert(((b % 8 + 97) as u8) as char as int == b % 8 + 97);
    assert(((b / 8 + 49) as u8) as char as int == b / 8 + 49);
    assert(s[0] == ((a % 8 + 97) as u8) as char);
    assert(s[1] == ((a / 8 + 49) as u8) as char);
    assert(s[2] == ((b % 8 + 97) as u8) as char);
    assert(s[3] == ((b / 8 + 49) as u8) as char);
    assert(square_at(s, 0) == Some(a));
    assert(square_at(s, 2) == Some(b));
    match m.promotion {
        Some(p) => {
            assert(s.len() == 5);
            assert(s[4] == crate::engine::uci::uci_move::uci_promotion_letter(p));
        },
        None => {
            assert(s.len() == 4);
        },
    }
}

} // verus!
