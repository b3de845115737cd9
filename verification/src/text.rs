use vstd::prelude::*;
use vstd::string::*;

verus! {

/// The character of a decimal digit.
pub open spec fn digit_char(d: nat) -> char {
    if d == 0 {
        '0'
    } else if d == 1 {
        '1'
    } else if d == 2 {
        '2'
    } else if d == 3 {
        '3'
    } else if d == 4 {
        '4'
    } else if d == 5 {
        '5'
    } else if d == 6 {
        '6'
    } else if d == 7 {
        '7'
    } else if d == 8 {
        '8'
    } else {
        '9'
    }
}

/// The decimal notation of a natural number, without leading zeros.
pub open spec fn decimal(n: nat) -> Seq<char>
    decreases n,
{
    if n < 10 {
        seq![digit_char(n)]
    } else {
        decimal(n / 10).push(digit_char(n % 10))
    }
}

proof fn lemma_digit_char_injective(a: nat, b: nat)
    requires
        a < 10,
        b < 10,
        digit_char(a) == digit_char(b),
    ensures
        a == b,
{
}

proof fn lemma_decimal_len(n: nat)
    ensures
        n >= 10 ==> decimal(n).len() >= 2,
        decimal(n).len() >= 1,
    decreases n,
{
    if n >= 10 {
        lemma_decimal_len(n / 10);
    }
}

/// Different numbers are written differently.
pub proof fn lemma_decimal_injective(a: nat, b: nat)
    requires
        decimal(a) == decimal(b),
    ensures
        a == b,
    decreases a,
{
    lemma_decimal_len(a);
    lemma_decimal_len(b);
    if a < 10 && b < 10 {
        assert(decimal(a) == seq![digit_char(a)]);
        assert(decimal(b) == seq![digit_char(b)]);
        assert(seq![digit_char(a)][0] == digit_char(a));
        assert(seq![digit_char(b)][0] == digit_char(b));
        assert(decimal(a)[0] == decimal(b)[0]);
        assert(digit_char(a) == digit_char(b));
        lemma_digit_char_injective(a, b);
    } else if a >= 10 && b >= 10 {
        let da = decimal(a / 10);
        let db = decimal(b / 10);
        assert(decimal(a) == da.push(digit_char(a % 10)));
        assert(decimal(b) == db.push(digit_char(b % 10)));
        assert(da.push(digit_char(a % 10)).last() == digit_char(a % 10));
        assert(db.push(digit_char(b % 10)).last() == digit_char(b % 10));
        assert(decimal(a).last() == decimal(b).last());
        assert(digit_char(a % 10) == digit_char(b % 10));
        lemma_digit_char_injective(a % 10, b % 10);
        assert(decimal(a).drop_last() =~= da);
        assert(decimal(b).drop_last() =~= db);
        lemma_decimal_injective(a / 10, b / 10);
    }
}

/// The decimal notation of an integer, with a leading `-` when it is negative.
pub open spec fn int_text(n: int) -> Seq<char> {
    if n < 0 {
        seq!['-'] + decimal((-n) as nat)
    } else {
        decimal(n as nat)
    }
}

fn digit_str(d: u128) -> (r: &'static str)
    requires
        d < 10,
    ensures
        r@ == seq![digit_char(d as nat)],
{
    if d == 0 {
        proof { reveal_strlit("0"); }
        "0"
    } else if d == 1 {
        proof { reveal_strlit("1"); }
        "1"
    } else if d == 2 {
        proof { reveal_strlit("2"); }
        "2"
    } else if d == 3 {
        proof { reveal_strlit("3"); }
        "3"
    } else if d == 4 {
        proof { reveal_strlit("4"); }
        "4"
    } else if d == 5 {
        proof { reveal_strlit("5"); }
        "5"
    } else if d == 6 {
        proof { reveal_strlit("6"); }
        "6"
    } else if d == 7 {
        proof { reveal_strlit("7"); }
        "7"
    } else if d == 8 {
        proof { reveal_strlit("8"); }
        "8"
    } else {
        proof { reveal_strlit("9"); }
        "9"
    }
}

/// Writes a natural number in decimal.
pub fn nat_to_string(n: u128) -> (s: String)
    ensures
        s@ == decimal(n as nat),
    decreases n,
{
    if n < 10 {
        String::from_str(digit_str(n))
    } else {
        let mut s = nat_to_string(n / 10);
        s.append(digit_str(n % 10));
        s
    }
}

/// Writes an integer in decimal.
pub fn int_to_string(n: i128) -> (s: String)
    requires
        n > i128::MIN,
    ensures
        s@ == int_text(n as int),
{
    if n < 0 {
        let mut s = String::from_str("-");
        proof { reveal_strlit("-"); }
        let d = nat_to_string((-n) as u128);
        s.append(d.as_str());
        s
    } else {
        nat_to_string(n as u128)
    }
}


/// How an identifier is written in messages: `Id(n)`.
pub open spec fn id_text(id: crate::id::Id) -> Seq<char> {
    seq!['I', 'd', '('] + decimal(id.0 as nat) + seq![')']
}

pub fn id_to_string(id: crate::id::Id) -> (s: String)
    ensures
        s@ == id_text(id),
{
    let mut s = String::from_str("Id(");
    proof {
        reveal_strlit("Id(");
        reveal_strlit(")");
    }
    let d = nat_to_string(id.0 as u128);
    s.append(d.as_str());
    s.append(")");
    assert(s@ =~= id_text(id));
    s
}

/// Joins three pieces of text.
pub fn concat3(a: &str, b: &str, c: &str) -> (s: String)
    ensures
        s@ == a@ + b@ + c@,
{
    let mut s = String::from_str(a);
    s.append(b);
    s.append(c);
    s
}

} // verus!
