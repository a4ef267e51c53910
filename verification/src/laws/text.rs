//! Laws of text and of styles.

use crate::style::{
    all_shown, displayed, paint_all, painted, put_together, shown, Output, Span, Style,
};
use crate::text::{decimal, digit, joined, joined_upto, repeated};
use vstd::prelude::*;

verus! {

/// The number that a text of decimal digits stands for.
pub open spec fn number_of(digits: Seq<char>) -> int
    decreases digits.len(),
{
    if digits.len() == 0 {
        0
    } else {
        10 * number_of(digits.drop_last()) + (digits.last() as int - '0' as int)
    }
}

/// A number in decimal notation is made of digits, stands for the number, and
/// begins with a zero only where it is zero.
pub proof fn decimal_notation_stands_for_its_number(n: nat)
    ensures
        number_of(decimal(n)) == n,
        decimal(n).len() > 0,
        forall|i: int| 0 <= i < decimal(n).len() ==> '0' <= #[trigger] decimal(n)[i] <= '9',
        n > 0 ==> decimal(n)[0] != '0',
        n == 0 ==> decimal(n).len() == 1,
    decreases n,
{
    reveal_with_fuel(number_of, 2);
    if n >= 10 {
        decimal_notation_stands_for_its_number(n / 10);
        let before = decimal(n / 10);
        assert(decimal(n) =~= before.push(digit(n % 10)));
        assert(decimal(n).drop_last() =~= before);
        assert(decimal(n)[0] == before[0]);
    } else {
        assert(decimal(n).drop_last() =~= Seq::empty());
    }
}

/// Copies of a text are as long as they are together, and each is the text.
pub proof fn copies_are_copies(piece: Seq<char>, times: nat)
    ensures
        repeated(piece, times).len() == piece.len() * times,
        forall|k: int|
            0 <= k < times ==> #[trigger] repeated(piece, times).subrange(
                piece.len() * k,
                piece.len() * (k + 1),
            ) == piece,
    decreases times,
{
    let len = piece.len() as int;
    if times == 0 {
        assert(len * 0 == 0) by (nonlinear_arith);
    } else {
        let before = repeated(piece, (times - 1) as nat);
        copies_are_copies(piece, (times - 1) as nat);
        assert(len * (times - 1) + len == len * times) by (nonlinear_arith);
        assert forall|k: int| 0 <= k < times implies #[trigger] repeated(piece, times).subrange(
            len * k,
            len * (k + 1),
        ) == piece by {
            assert(len * (k + 1) == len * k + len) by (nonlinear_arith);
            assert(0 <= len * k) by (nonlinear_arith)
                requires
                    0 <= len,
                    0 <= k,
            ;
            if k < times - 1 {
                assert(len * (k + 1) <= len * (times - 1)) by (nonlinear_arith)
                    requires
                        0 <= len,
                        k + 1 <= times - 1,
                ;
                assert(before.subrange(len * k, len * (k + 1)) == piece);
                assert(repeated(piece, times).subrange(len * k, len * (k + 1)) =~= before.subrange(
                    len * k,
                    len * (k + 1),
                ));
            } else {
                assert(repeated(piece, times).subrange(len * k, len * (k + 1)) =~= piece);
            }
        }
    }
}

/// No items make no text, one makes itself, and the items of two lists together
/// make the texts of the two with the separator between them.
pub proof fn joining_goes_by_parts(
    left: Seq<Seq<char>>,
    right: Seq<Seq<char>>,
    separator: Seq<char>,
)
    ensures
        joined(Seq::empty(), separator).len() == 0,
        left.len() == 1 ==> joined(left, separator) == left[0],
        left.len() > 0 && right.len() > 0 ==> joined(left + right, separator) == joined(
            left,
            separator,
        ) + separator + joined(right, separator),
    decreases right.len(),
{
    reveal_with_fuel(joined_upto, 2);
    if left.len() > 0 && right.len() > 0 {
        let both = left + right;
        let shorter = right.drop_last();
        joining_looks_back(both, left + shorter, separator, (both.len() - 1) as nat);
        joining_looks_back(right, shorter, separator, (right.len() - 1) as nat);
        assert(both[both.len() - 1] == right.last());
        if right.len() == 1 {
            joining_looks_back(left + shorter, left, separator, left.len());
            assert(joined(both, separator) == joined(left, separator) + separator + right[0]);
        } else {
            joining_goes_by_parts(left, shorter, separator);
            assert(joined(both, separator) =~= joined(left + shorter, separator) + separator
                + right.last());
            assert(joined(right, separator) =~= joined(shorter, separator) + separator
                + right.last());
            assert(joined(both, separator) =~= joined(left, separator) + separator + joined(
                right,
                separator,
            ));
        }
    }
}

proof fn joining_looks_back(
    left: Seq<Seq<char>>,
    right: Seq<Seq<char>>,
    separator: Seq<char>,
    n: nat,
)
    requires
        n <= left.len(),
        n <= right.len(),
        forall|i: int| 0 <= i < n ==> left[i] == right[i],
    ensures
        joined_upto(left, separator, n) == joined_upto(right, separator, n),
    decreases n,
{
    if n > 0 {
        joining_looks_back(left, right, separator, (n - 1) as nat);
        assert(left[n - 1] == right[n - 1]);
        assert(left[0] == right[0]);
    }
}

/// What is painted is every span in its order, and nothing else: text without a
/// style as it is, and styled text as it was displayed, which is the text between
/// sequences that show nothing, or nothing at all.
pub proof fn every_span_is_painted(spans: Vec<Span>, text: String)
    requires
        call_ensures(paint_all, (&spans,), text),
    ensures
        exists|pieces: Seq<Seq<char>>| #[trigger]
            pieces_of(spans@, pieces) && text@ == pieces.flatten(),
{
    let views = spans.deep_view();
    let pieces = choose|pieces: Seq<Seq<char>>| #[trigger]
        all_shown(views, pieces) && text@ == put_together(pieces, pieces.len());
    all_pieces(pieces);
    assert forall|i: int| 0 <= i < spans@.len() implies piece_of(
        spans@[i].text@,
        spans@[i].style,
        #[trigger] pieces[i],
    ) by {
        assert(shown(views[i], pieces[i]));
        assert(views[i] == spans@[i]@);
    }
    assert(pieces_of(spans@, pieces));
}

/// Whether `pieces` are those of the spans, one for each.
pub open spec fn pieces_of(spans: Seq<Span>, pieces: Seq<Seq<char>>) -> bool {
    &&& pieces.len() == spans.len()
    &&& forall|i: int|
        0 <= i < spans.len() ==> piece_of(
            spans[i].text@,
            spans[i].style,
            #[trigger] pieces[i],
        )
}

/// Whether `piece` is what is sent to the screen for a text: the text itself where
/// it has no style, else what was displayed for it.
pub open spec fn piece_of(text: Seq<char>, style: Option<Style>, piece: Seq<char>) -> bool {
    match style {
        None => piece == text,
        Some(style) => displayed(text, style, piece) && exists|output: Output|
            piece == #[trigger] painted(output, text, style),
    }
}

/// Pieces that are put together are put one behind the other.
pub(crate) proof fn all_pieces(pieces: Seq<Seq<char>>)
    ensures
        put_together(pieces, pieces.len()) == pieces.flatten(),
{
    put_together_is_flat(pieces, pieces.len());
    assert(pieces.take(pieces.len() as int) =~= pieces);
}

proof fn put_together_is_flat(pieces: Seq<Seq<char>>, n: nat)
    requires
        n <= pieces.len(),
    ensures
        put_together(pieces, n) == pieces.take(n as int).flatten(),
    decreases n,
{
    if n == 0 {
        assert(pieces.take(0) =~= Seq::empty());
        assert(pieces.take(0).flatten() =~= Seq::empty());
    } else {
        put_together_is_flat(pieces, (n - 1) as nat);
        let first = pieces.take(n as int);
        assert(first.drop_last() =~= pieces.take(n - 1));
        first.lemma_flatten_and_flatten_alt_are_equivalent();
        first.drop_last().lemma_flatten_and_flatten_alt_are_equivalent();
    }
}

} // verus!
