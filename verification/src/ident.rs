//! Identifiers: a category prefix, a hyphen and a timestamp in decimal.

use vstd::prelude::*;
use vstd::string::*;

verus! {

/// The character that stands for a digit below ten.
pub open spec fn digit_char(d: nat) -> char {
    if d == 0 {
        '0'
    } else if d == 1 {
        '1'
    } else if d == 2 {
        '2'
    } else if d == 3 {
        '3'
    } else if d == 4 {
        '4'
    } else if d == 5 {
        '5'
    } else if d == 6 {
        '6'
    } else if d == 7 {
        '7'
    } else if d == 8 {
        '8'
    } else {
        '9'
    }
}

/// The decimal numeral of `n`, most significant digit first, without
/// leading zeros.
pub open spec fn decimal(n: nat) -> Seq<char>
    decreases n,
{
    if n < 10 {
        seq![digit_char(n)]
    } else {
        decimal(n / 10).push(digit_char(n % 10))
    }
}

/// The identifier made of `prefix` and the timestamp `now`.
pub open spec fn id_text(prefix: Seq<char>, now: u64) -> Seq<char> {
    prefix + seq!['-'] + decimal(now as nat)
}

fn digit_str(d: u64) -> (text: &'static str)
    requires
        d < 10,
    ensures
        text@ == seq![digit_char(d as nat)],
{
    proof {
        reveal_strlit("0");
        reveal_strlit("1");
        reveal_strlit("2");
        reveal_strlit("3");
        reveal_strlit("4");
        reveal_strlit("5");
        reveal_strlit("6");
        reveal_strlit("7");
        reveal_strlit("8");
        reveal_strlit("9");
    }
    let text = if d == 0 {
        "0"
    } else if d == 1 {
        "1"
    } else if d == 2 {
        "2"
    } else if d == 3 {
        "3"
    } else if d == 4 {
        "4"
    } else if d == 5 {
        "5"
    } else if d == 6 {
        "6"
    } else if d == 7 {
        "7"
    } else if d == 8 {
        "8"
    } else {
        "9"
    };
    assert(text@ =~= seq![digit_char(d as nat)]);
    text
}

/// Appends the decimal numeral of `n` to `text`.
pub fn push_decimal(text: &mut String, n: u64)
    ensures
        final(text)@ == old(text)@ + decimal(n as nat),
    decreases n,
{
    if n >= 10 {
        push_decimal(text, n / 10);
    }
    text.append(digit_str(n % 10));
    proof {
        let before = old(text)@;
        if n >= 10 {
            assert(before + decimal((n / 10) as nat) + seq![digit_char((n % 10) as nat)]
                =~= before + decimal(n as nat));
        }
    }
}

/// The identifier `"{prefix}-{now}"`.
pub fn gen_id(prefix: &str, now: u64) -> (id: String)
    ensures
        id@ == id_text(prefix@, now),
{
    let mut id = String::from_str(prefix);
    id.append("-");
    proof {
        reveal_strlit("-");
    }
    push_decimal(&mut id, now);
    id
}

/// A numeral has at least one digit, and at least two from ten on.
pub proof fn lemma_decimal_len(n: nat)
    ensures
        decimal(n).len() >= 1,
        n >= 10 ==> decimal(n).len() >= 2,
    decreases n,
{
    if n >= 10 {
        lemma_decimal_len(n / 10);
    }
}

/// Two numbers with the same numeral are the same number.
pub proof fn lemma_decimal_injective(a: nat, b: nat)
    requires
        decimal(a) == decimal(b),
    ensures
        a == b,
    decreases a,
{
    lemma_decimal_len(a);
    lemma_decimal_len(b);
    if a < 10 && b < 10 {
        assert(decimal(a)[0] == digit_char(a));
        assert(decimal(b)[0] == digit_char(b));
    } else if a >= 10 && b >= 10 {
        let da = decimal(a / 10);
        let db = decimal(b / 10);
        assert(da =~= decimal(a).drop_last());
        assert(db =~= decimal(b).drop_last());
        assert(decimal(a).last() == digit_char(a % 10));
        assert(decimal(b).last() == digit_char(b % 10));
        lemma_decimal_injective(a / 10, b / 10);
    }
}

/// Under one prefix, two timestamps that differ give two identifiers that
/// differ.
pub proof fn lemma_id_text_injective(prefix: Seq<char>, a: u64, b: u64)
    requires
        id_text(prefix, a) == id_text(prefix, b),
    ensures
        a == b,
{
    let head = prefix + seq!['-'];
    let ia = id_text(prefix, a);
    let ib = id_text(prefix, b);
    assert(ia.subrange(head.len() as int, ia.len() as int) =~= decimal(a as nat));
    assert(ib.subrange(head.len() as int, ib.len() as int) =~= decimal(b as nat));
    lemma_decimal_injective(a as nat, b as nat);
}

} // verus!
