//! Cursor arithmetic over a line of text, addressed by codepoint.
use unicode_segmentation::UnicodeSegmentation;
use vstd::prelude::*;

verus! {

/// Where `next_codepoint` lands from `index` on a line of `len` codepoints.
pub open spec fn next_codepoint_spec(len: int, index: int) -> int {
    if index < len {
        index + 1
    } else {
        index
    }
}

/// Where `previous_codepoint` lands from `index`.
pub open spec fn previous_codepoint_spec(index: int) -> int {
    if index > 0 {
        index - 1
    } else {
        index
    }
}

/// The codepoint position one step after `index`, or `index` at the end.
pub fn next_codepoint(index: usize, string: &str) -> (r: usize)
    requires
        index <= string@.len(),
    ensures
        r == next_codepoint_spec(string@.len() as int, index as int),
{
    let len = string.unicode_len();
    if index < len {
        index + 1
    } else {
        index
    }
}

/// The codepoint position one step before `index`, or `index` at the start.
pub fn previous_codepoint(index: usize, string: &str) -> (r: usize)
    requires
        index <= string@.len(),
    ensures
        r == previous_codepoint_spec(index as int),
{
    if index > 0 {
        index - 1
    } else {
        index
    }
}

/// Stepping forward then back, or back then forward, returns to the start
/// position, unless the first step was stopped by the end of the line.
pub proof fn lemma_codepoint_round_trip(string: Seq<char>, index: int)
    requires
        0 <= index <= string.len(),
    ensures
        index < string.len() ==> previous_codepoint_spec(
            next_codepoint_spec(string.len() as int, index),
        ) == index,
        index > 0 ==> next_codepoint_spec(string.len() as int, previous_codepoint_spec(index))
            == index,
{
}

/// Whether `c` has the Unicode `White_Space` property.
pub uninterp spec fn whitespace_char(c: char) -> bool;

/// The pieces into which the UAX#29 word boundaries cut `s`.
pub uninterp spec fn word_bounds_of(s: Seq<char>) -> Seq<Seq<char>>;

/// The pieces laid end to end.
pub open spec fn joined(pieces: Seq<Seq<char>>) -> Seq<char>
    decreases pieces.len(),
{
    if pieces.len() == 0 {
        Seq::empty()
    } else {
        joined(pieces.drop_last()) + pieces.last()
    }
}

/// The codepoint offset at which piece `k` starts.
pub open spec fn piece_start(pieces: Seq<Seq<char>>, k: int) -> int
    decreases k,
{
    if k <= 0 {
        0
    } else {
        piece_start(pieces, k - 1) + pieces[k - 1].len()
    }
}

/// The codepoint offset just past piece `k`.
pub open spec fn piece_end(pieces: Seq<Seq<char>>, k: int) -> int {
    piece_start(pieces, k) + pieces[k].len()
}

/// The length of the text that the pieces spell.
pub open spec fn total_len(pieces: Seq<Seq<char>>) -> int {
    piece_start(pieces, pieces.len() as int)
}

/// A piece that a word move may stop at: one that does not begin with whitespace.
pub open spec fn opens_word(piece: Seq<char>) -> bool {
    piece.len() == 0 || !whitespace_char(piece[0])
}

/// No piece is empty.
pub open spec fn pieces_nonempty(pieces: Seq<Seq<char>>) -> bool {
    forall|k: int| 0 <= k < pieces.len() ==> #[trigger] pieces[k].len() > 0
}

/// The views of a list of pieces.
pub open spec fn pieces_view(pieces: Seq<Vec<char>>) -> Seq<Seq<char>> {
    pieces.map_values(|p: Vec<char>| p@)
}

/// Piece `k` opens a word and starts after `pivot`.
pub open spec fn word_after(pieces: Seq<Seq<char>>, pivot: int, k: int) -> bool {
    0 <= k < pieces.len() && piece_start(pieces, k) > pivot && opens_word(pieces[k])
}

/// Piece `k` opens a word and starts before `pivot`.
pub open spec fn word_before(pieces: Seq<Seq<char>>, pivot: int, k: int) -> bool {
    0 <= k < pieces.len() && piece_start(pieces, k) < pivot && opens_word(pieces[k])
}

/// Piece `k` opens a word and ends before `pivot`.
pub open spec fn word_ended_before(pieces: Seq<Seq<char>>, pivot: int, k: int) -> bool {
    0 <= k < pieces.len() && piece_end(pieces, k) < pivot && opens_word(pieces[k])
}

/// `r` is where a move to the next word lands from `pivot`: the start of the
/// first piece that opens a word after `pivot`, or the end of the text.
pub open spec fn is_next_word(pieces: Seq<Seq<char>>, pivot: int, r: int) -> bool {
    if pivot == total_len(pieces) {
        r == pivot
    } else {
        (r == total_len(pieces) && forall|k: int| !word_after(pieces, pivot, k)) || exists|k: int|
            word_after(pieces, pivot, k) && r == piece_start(pieces, k) && forall|j: int|
                0 <= j < k ==> !word_after(pieces, pivot, j)
    }
}

/// `r` is where a move to the previous word lands from `pivot`: the start of
/// the last piece that opens a word before `pivot`, or 0.
pub open spec fn is_previous_word(pieces: Seq<Seq<char>>, pivot: int, r: int) -> bool {
    if pivot == 0 {
        r == 0
    } else {
        (r == 0 && forall|k: int| !word_before(pieces, pivot, k)) || exists|k: int|
            word_before(pieces, pivot, k) && r == piece_start(pieces, k) && forall|j: int|
                k < j < pieces.len() ==> !word_before(pieces, pivot, j)
    }
}

/// `r` is where a move to the previous word end lands from `pivot`: the end of
/// the last piece that opens a word and ends before `pivot`, or 0.
pub open spec fn is_previous_word_end(pieces: Seq<Seq<char>>, pivot: int, r: int) -> bool {
    if pivot == 0 {
        r == 0
    } else {
        (r == 0 && forall|k: int| !word_ended_before(pieces, pivot, k)) || exists|k: int|
            word_ended_before(pieces, pivot, k) && r == piece_end(pieces, k) && forall|j: int|
                k < j < pieces.len() ==> !word_ended_before(pieces, pivot, j)
    }
}

/// Relies on `char::is_whitespace`: whether the character is Unicode whitespace.
#[verifier::external_body]
fn is_whitespace(c: char) -> (r: bool)
    ensures
        r == whitespace_char(c),
{
    c.is_whitespace()
}

/// Relies on unicode_segmentation's `split_word_bounds`: the pieces between the
/// UAX#29 word boundaries of `s`, whose concatenation is `s` itself; each piece
/// holds at least one character (the iterator stops on an empty rest and always
/// takes the character it starts on).
#[verifier::external_body]
fn split_word_bounds(s: &str) -> (r: Vec<Vec<char>>)
    ensures
        pieces_view(r@) == word_bounds_of(s@),
        joined(pieces_view(r@)) == s@,
        pieces_nonempty(pieces_view(r@)),
{
    s.split_word_bounds().map(|p| p.chars().collect()).collect()
}

proof fn lemma_piece_start_monotone(pieces: Seq<Seq<char>>, i: int, j: int)
    requires
        0 <= i <= j <= pieces.len(),
    ensures
        0 <= piece_start(pieces, i) <= piece_start(pieces, j),
    decreases j,
{
    if j > 0 {
        if i < j {
            lemma_piece_start_monotone(pieces, i, j - 1);
        } else {
            lemma_piece_start_monotone(pieces, 0, j - 1);
        }
    }
}

proof fn lemma_piece_start_prefix(pieces: Seq<Seq<char>>, k: int)
    requires
        0 <= k < pieces.len(),
    ensures
        piece_start(pieces.drop_last(), k) == piece_start(pieces, k),
    decreases k,
{
    if k > 0 {
        lemma_piece_start_prefix(pieces, k - 1);
    }
}

/// The text spelled by the pieces holds piece `k` from `piece_start(pieces, k)` on.
proof fn lemma_joined_index(pieces: Seq<Seq<char>>)
    ensures
        joined(pieces).len() == total_len(pieces),
        forall|k: int, i: int|
            0 <= k < pieces.len() && 0 <= i < pieces[k].len() ==> joined(pieces)[piece_start(pieces, k)
                + i] == #[trigger] pieces[k][i],
    decreases pieces.len(),
{
    if pieces.len() > 0 {
        let front = pieces.drop_last();
        let n = pieces.len() - 1;
        lemma_joined_index(front);
        lemma_piece_start_prefix(pieces, n);
        assert forall|k: int, i: int|
            0 <= k < pieces.len() && 0 <= i < pieces[k].len() implies joined(pieces)[piece_start(
                pieces,
                k,
            ) + i] == #[trigger] pieces[k][i] by {
            if k < n {
                lemma_piece_start_prefix(pieces, k);
                lemma_piece_start_monotone(front, k + 1, n);
                lemma_piece_start_monotone(front, k, n);
                assert(joined(pieces)[piece_start(pieces, k) + i] == joined(front)[piece_start(
                    front,
                    k,
                ) + i]);
            } else {
                lemma_piece_start_monotone(pieces, k, k);
            }
        }
    }
}

/// The length of the text that `pieces` spell.
fn text_len(pieces: &Vec<Vec<char>>) -> (r: usize)
    requires
        total_len(pieces_view(pieces@)) <= usize::MAX,
    ensures
        r == total_len(pieces_view(pieces@)),
{
    let ghost v = pieces_view(pieces@);
    let mut total: usize = 0;
    let mut k: usize = 0;
    while k < pieces.len()
        invariant
            k <= pieces.len(),
            v == pieces_view(pieces@),
            total == piece_start(v, k as int),
            total_len(v) <= usize::MAX,
        decreases pieces.len() - k,
    {
        proof {
            lemma_piece_start_monotone(v, k + 1, v.len() as int);
        }
        total = total + pieces[k].len();
        k = k + 1;
    }
    total
}

/// Whether `piece` may be stopped at by a word move.
fn piece_opens_word(piece: &Vec<char>) -> (r: bool)
    ensures
        r == opens_word(piece@),
{
    piece.len() == 0 || !is_whitespace(piece[0])
}

/// Moves from `pivot` to the start of the next word, given the word-boundary
/// pieces of the text.
pub fn next_word_in(pivot: usize, pieces: &Vec<Vec<char>>) -> (r: usize)
    requires
        total_len(pieces_view(pieces@)) <= usize::MAX,
    ensures
        is_next_word(pieces_view(pieces@), pivot as int, r as int),
        pivot < total_len(pieces_view(pieces@)) ==> pivot < r <= total_len(pieces_view(pieces@)),
        pieces_nonempty(pieces_view(pieces@)) && r < total_len(pieces_view(pieces@))
            ==> !whitespace_char(joined(pieces_view(pieces@))[r as int]),
{
    let ghost v = pieces_view(pieces@);
    let total = text_len(pieces);
    if pivot == total {
        return pivot;
    }
    let mut start: usize = 0;
    let mut k: usize = 0;
    while k < pieces.len()
        invariant
            k <= pieces.len(),
            v == pieces_view(pieces@),
            start == piece_start(v, k as int),
            total == total_len(v),
            pivot != total,
            forall|j: int| 0 <= j < k ==> !word_after(v, pivot as int, j),
        decreases pieces.len() - k,
    {
        proof {
            lemma_piece_start_monotone(v, k + 1, v.len() as int);
        }
        if start > pivot && piece_opens_word(&pieces[k]) {
            proof {
                if pieces_nonempty(v) && start < total {
                    lemma_joined_index(v);
                }
            }
            return start;
        }
        start = start + pieces[k].len();
        k = k + 1;
    }
    total
}

/// Moves from `pivot` to the start of the previous word, given the
/// word-boundary pieces of the text.
pub fn previous_word_in(pivot: usize, pieces: &Vec<Vec<char>>) -> (r: usize)
    requires
        total_len(pieces_view(pieces@)) <= usize::MAX,
    ensures
        is_previous_word(pieces_view(pieces@), pivot as int, r as int),
        pivot > 0 ==> r < pivot,
        pieces_nonempty(pieces_view(pieces@)) && r > 0 ==> r < total_len(pieces_view(pieces@))
            && !whitespace_char(joined(pieces_view(pieces@))[r as int]),
{
    let ghost v = pieces_view(pieces@);
    if pivot == 0 {
        return 0;
    }
    let total = text_len(pieces);
    let mut end: usize = total;
    let mut k: usize = pieces.len();
    while k > 0
        invariant
            k <= pieces.len(),
            v == pieces_view(pieces@),
            end == piece_start(v, k as int),
            pivot > 0,
            forall|j: int| k <= j < v.len() ==> !word_before(v, pivot as int, j),
        decreases k,
    {
        proof {
            lemma_piece_start_monotone(v, k - 1, k - 1);
        }
        let start = end - pieces[k - 1].len();
        if start < pivot && piece_opens_word(&pieces[k - 1]) {
            proof {
                if pieces_nonempty(v) && start > 0 {
                    lemma_joined_index(v);
                    lemma_piece_start_monotone(v, k as int, v.len() as int);
                }
            }
            return start;
        }
        end = start;
        k = k - 1;
    }
    0
}

/// Moves from `pivot` to the end of the previous word, given the
/// word-boundary pieces of the text.
pub fn previous_word_end_in(pivot: usize, pieces: &Vec<Vec<char>>) -> (r: usize)
    requires
        total_len(pieces_view(pieces@)) <= usize::MAX,
    ensures
        is_previous_word_end(pieces_view(pieces@), pivot as int, r as int),
        pivot > 0 ==> r < pivot,
{
    let ghost v = pieces_view(pieces@);
    if pivot == 0 {
        return 0;
    }
    let total = text_len(pieces);
    let mut end: usize = total;
    let mut k: usize = pieces.len();
    while k > 0
        invariant
            k <= pieces.len(),
            v == pieces_view(pieces@),
            end == piece_start(v, k as int),
            pivot > 0,
            forall|j: int| k <= j < v.len() ==> !word_ended_before(v, pivot as int, j),
        decreases k,
    {
        proof {
            lemma_piece_start_monotone(v, k - 1, k - 1);
        }
        let start = end - pieces[k - 1].len();
        if end < pivot && piece_opens_word(&pieces[k - 1]) {
            assert(word_ended_before(v, pivot as int, k - 1));
            return end;
        }
        end = start;
        k = k - 1;
    }
    0
}

/// The codepoint position of the next word start after `pivot` in `string`,
/// or the length of `string` when no word starts after it.
pub fn next_word(pivot: usize, string: &str) -> (r: usize)
    ensures
        is_next_word(word_bounds_of(string@), pivot as int, r as int),
        pivot < string@.len() ==> pivot < r <= string@.len(),
        pivot <= string@.len() ==> pivot <= r <= string@.len(),
        r < string@.len() ==> !whitespace_char(string@[r as int]),
{
    // The length bound on the string also bounds the offsets of its pieces.
    let _ = string.unicode_len();
    let pieces = split_word_bounds(string);
    proof {
        lemma_joined_index(pieces_view(pieces@));
    }
    next_word_in(pivot, &pieces)
}

/// The codepoint position of the previous word start before `pivot` in
/// `string`, or 0 when no word starts before it.
pub fn previous_word(pivot: usize, string: &str) -> (r: usize)
    ensures
        is_previous_word(word_bounds_of(string@), pivot as int, r as int),
        pivot > 0 ==> r < pivot,
        r <= pivot,
        r > 0 ==> r < string@.len() && !whitespace_char(string@[r as int]),
{
    // The length bound on the string also bounds the offsets of its pieces.
    let _ = string.unicode_len();
    let pieces = split_word_bounds(string);
    proof {
        lemma_joined_index(pieces_view(pieces@));
    }
    previous_word_in(pivot, &pieces)
}

/// The codepoint position just past the previous word that ends before
/// `pivot` in `string`, or 0 when no word ends before it.
pub fn previous_word_end(pivot: usize, string: &str) -> (r: usize)
    ensures
        is_previous_word_end(word_bounds_of(string@), pivot as int, r as int),
        pivot > 0 ==> r < pivot,
        r <= pivot,
{
    // The length bound on the string also bounds the offsets of its pieces.
    let _ = string.unicode_len();
    let pieces = split_word_bounds(string);
    proof {
        lemma_joined_index(pieces_view(pieces@));
    }
    previous_word_end_in(pivot, &pieces)
}

} // verus!
