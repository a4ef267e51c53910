//! Text as sequences of characters: the small pieces that every printed line
//! of the program is made of.

use vstd::prelude::*;

verus! {

/// The decimal digit that stands for `d`.
pub open spec fn digit(d: nat) -> char
    recommends
        d < 10,
{
    (48 + d) as char
}

/// `n` in decimal notation, without leading zeros.
pub open spec fn decimal(n: nat) -> Seq<char>
    decreases n,
{
    if n < 10 {
        seq![digit(n)]
    } else {
        decimal(n / 10).push(digit(n % 10))
    }
}

/// `times` copies of `piece`, one behind the other.
pub open spec fn repeated(piece: Seq<char>, times: nat) -> Seq<char>
    decreases times,
{
    if times == 0 {
        Seq::empty()
    } else {
        repeated(piece, (times - 1) as nat) + piece
    }
}

/// The first `n` of `items`, each but the first behind `separator`.
pub open spec fn joined_upto(items: Seq<Seq<char>>, separator: Seq<char>, n: nat) -> Seq<char>
    decreases n,
{
    if n == 0 {
        Seq::empty()
    } else if n == 1 {
        items[0]
    } else {
        joined_upto(items, separator, (n - 1) as nat) + separator + items[n - 1]
    }
}

/// All `items` in one text, with `separator` between neighbours.
pub open spec fn joined(items: Seq<Seq<char>>, separator: Seq<char>) -> Seq<char> {
    joined_upto(items, separator, items.len())
}

fn digit_str(d: u64) -> (s: &'static str)
    requires
        d < 10,
    ensures
        s@ == seq![digit(d as nat)],
{
    proof {
        reveal_strlit("0");
        reveal_strlit("1");
        reveal_strlit("2");
        reveal_strlit("3");
        reveal_strlit("4");
        reveal_strlit("5");
        reveal_strlit("6");
        reveal_strlit("7");
        reveal_strlit("8");
        reveal_strlit("9");
    }
    let s: &'static str = match d {
        0 => "0",
        1 => "1",
        2 => "2",
        3 => "3",
        4 => "4",
        5 => "5",
        6 => "6",
        7 => "7",
        8 => "8",
        _ => "9",
    };
    assert(s@ =~= seq![digit(d as nat)]);
    s
}

/// Writes `n` in decimal notation behind `out`.
pub fn push_decimal(out: &mut String, n: u64)
    ensures
        final(out)@ == old(out)@ + decimal(n as nat),
    decreases n,
{
    if n < 10 {
        out.append(digit_str(n));
    } else {
        push_decimal(out, n / 10);
        let ghost so_far = out@;
        out.append(digit_str(n % 10));
        assert(so_far + seq![digit((n % 10) as nat)] =~= old(out)@ + decimal(n as nat));
    }
}

/// Writes `times` copies of `piece` behind `out`.
pub fn push_repeated(out: &mut String, piece: &str, times: u128)
    ensures
        final(out)@ == old(out)@ + repeated(piece@, times as nat),
{
    let ghost start = out@;
    let mut done: u128 = 0;
    assert(start + repeated(piece@, 0) =~= start);
    while done < times
        invariant
            done <= times,
            out@ == start + repeated(piece@, done as nat),
        decreases times - done,
    {
        out.append(piece);
        done = done + 1;
        assert(start + repeated(piece@, (done - 1) as nat) + piece@ =~= start + repeated(
            piece@,
            done as nat,
        ));
    }
}

/// Writes `items` behind `out`, with `separator` between neighbours.
pub fn push_joined(out: &mut String, items: &Vec<String>, separator: &str)
    ensures
        final(out)@ == old(out)@ + joined(items.deep_view(), separator@),
{
    let ghost start = out@;
    let ghost all = items.deep_view();
    let mut done: usize = 0;
    assert(start + joined_upto(all, separator@, 0) =~= start);
    while done < items.len()
        invariant
            done <= items.len(),
            all == items.deep_view(),
            out@ == start + joined_upto(all, separator@, done as nat),
        decreases items.len() - done,
    {
        if done > 0 {
            out.append(separator);
        }
        out.append(items[done].as_str());
        assert(all[done as int] == items[done as int]@);
        done = done + 1;
        assert(out@ =~= start + joined_upto(all, separator@, done as nat));
    }
}

/// The length of `s` in UTF-8.
pub open spec fn byte_len(s: Seq<char>) -> nat {
    vstd::utf8::encode_utf8(s).len()
}

/// How many bytes `s` takes in UTF-8.
pub fn len_in_bytes(s: &str) -> (n: usize)
    ensures
        n == byte_len(s@),
{
    s.as_bytes().len()
}

/// The length of a text in UTF-8 is that of its parts together.
pub proof fn byte_len_adds(left: Seq<char>, right: Seq<char>)
    ensures
        byte_len(left + right) == byte_len(left) + byte_len(right),
    decreases left.len(),
{
    if left.len() == 0 {
        assert(left + right =~= right);
    } else {
        byte_len_adds(left.drop_first(), right);
        assert((left + right).drop_first() =~= left.drop_first() + right);
    }
}

/// Copies take the length of one as often as there are copies.
pub proof fn byte_len_of_repeated(piece: Seq<char>, times: nat)
    ensures
        byte_len(repeated(piece, times)) == byte_len(piece) * times,
    decreases times,
{
    if times > 0 {
        byte_len_of_repeated(piece, (times - 1) as nat);
        byte_len_adds(repeated(piece, (times - 1) as nat), piece);
        assert(byte_len(piece) * (times - 1) + byte_len(piece) == byte_len(piece) * times)
            by (nonlinear_arith)
            requires
                times > 0,
        ;
    } else {
        assert(byte_len(piece) * 0 == 0) by (nonlinear_arith);
    }
}

/// Whether `part` stands somewhere in `text`.
pub open spec fn within(text: Seq<char>, part: Seq<char>) -> bool {
    exists|before: Seq<char>, after: Seq<char>| text == #[trigger] (before + part + after)
}

/// What stands in a text stands in every text that goes on from it.
pub proof fn within_goes_on(text: Seq<char>, part: Seq<char>, more: Seq<char>)
    requires
        within(text, part),
    ensures
        within(text + more, part),
{
    let (before, after) = choose|before: Seq<char>, after: Seq<char>|
        text == #[trigger] (before + part + after);
    assert(text + more =~= before + part + (after + more));
}

/// What stands in a text stands in every text that leads up to it.
pub proof fn within_behind(first: Seq<char>, text: Seq<char>, part: Seq<char>)
    requires
        within(text, part),
    ensures
        within(first + text, part),
{
    let (before, after) = choose|before: Seq<char>, after: Seq<char>|
        text == #[trigger] (before + part + after);
    assert(first + text =~= (first + before) + part + after);
}

} // verus!
