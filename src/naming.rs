use vstd::prelude::*;
use vstd::string::StringExecFns;

verus! {

/// The character of a decimal digit.
pub open spec fn digit_char(d: nat) -> char
    recommends
        d < 10,
{
    seq!['0', '1', '2', '3', '4', '5', '6', '7', '8', '9'][d as int]
}

/// The decimal numeral of `n`, without leading zeros.
pub open spec fn decimal(n: nat) -> Seq<char>
    decreases n,
{
    if n < 10 {
        seq![digit_char(n)]
    } else {
        decimal(n / 10).push(digit_char(n % 10))
    }
}

/// The decimal numeral of `n`, with zeros in front up to `width` characters.
pub open spec fn zero_padded(n: nat, width: nat) -> Seq<char> {
    let d = decimal(n);
    if d.len() < width {
        Seq::new((width - d.len()) as nat, |i: int| '0') + d
    } else {
        d
    }
}

/// The path of checkpoint number `number` under `outdir`:
/// `<outdir>/chkpt.<number, four digits at least>.sf`.
pub open spec fn checkpoint_path(outdir: Seq<char>, number: nat) -> Seq<char> {
    outdir + seq!['/', 'c', 'h', 'k', 'p', 't', '.'] + zero_padded(number, 4) + seq!['.', 's', 'f']
}

fn digit_str(d: u64) -> (r: &'static str)
    requires
        d < 10,
    ensures
        r@ == seq![digit_char(d as nat)],
{
    proof {
        reveal_strlit("0");
        reveal_strlit("1");
        reveal_strlit("2");
        reveal_strlit("3");
        reveal_strlit("4");
        reveal_strlit("5");
        reveal_strlit("6");
        reveal_strlit("7");
        reveal_strlit("8");
        reveal_strlit("9");
    }
    match d {
        0 => "0",
        1 => "1",
        2 => "2",
        3 => "3",
        4 => "4",
        5 => "5",
        6 => "6",
        7 => "7",
        8 => "8",
        _ => "9",
    }
}

/// Number of characters in the decimal numeral of `n`.
fn decimal_len(n: u64) -> (r: u64)
    ensures
        r == decimal(n as nat).len(),
        r <= n as int + 1,
    decreases n,
{
    if n < 10 {
        1
    } else {
        let k = decimal_len(n / 10);
        proof {
            assert(decimal(n as nat) == decimal((n / 10) as nat).push(digit_char((n % 10) as nat)));
        }
        k + 1
    }
}

/// Appends the decimal numeral of `n` to `s`.
fn push_decimal(s: &mut String, n: u64)
    ensures
        final(s)@ == old(s)@ + decimal(n as nat),
    decreases n,
{
    if n >= 10 {
        push_decimal(s, n / 10);
    }
    s.append(digit_str(n % 10));
    proof {
        if n >= 10 {
            assert(final(s)@ =~= old(s)@ + decimal(n as nat));
        } else {
            assert(final(s)@ =~= old(s)@ + decimal(n as nat));
        }
    }
}

/// The file name of checkpoint number `number` in directory `outdir`:
/// `<outdir>/chkpt.NNNN.sf`, the number zero-padded to four digits and wider
/// where it needs more.
pub fn checkpoint_file_name(outdir: &str, number: u64) -> (r: String)
    ensures
        r@ == checkpoint_path(outdir@, number as nat),
{
    let mut s = String::from_str(outdir);
    s.append("/chkpt.");
    let len = decimal_len(number);
    let mut k: u64 = len;
    while k < 4
        invariant
            len == decimal(number as nat).len(),
            len <= k,
            k <= 4 || k == len,
            s@ == outdir@ + "/chkpt."@ + Seq::new((k - len) as nat, |i: int| '0'),
        decreases 4 - k,
    {
        s.append("0");
        proof {
            reveal_strlit("0");
        }
        k = k + 1;
        assert(s@ =~= outdir@ + "/chkpt."@ + Seq::new((k - len) as nat, |i: int| '0'));
    }
    let ghost padded = s@;
    push_decimal(&mut s, number);
    s.append(".sf");
    proof {
        reveal_strlit("/chkpt.");
        reveal_strlit(".sf");
        let d = decimal(number as nat);
        if len < 4 {
            assert(zero_padded(number as nat, 4) =~= Seq::new((k - len) as nat, |i: int| '0') + d);
        } else {
            assert(Seq::new((k - len) as nat, |i: int| '0') =~= Seq::<char>::empty());
        }
        assert(s@ =~= checkpoint_path(outdir@, number as nat));
    }
    s
}

/// The value of a decimal digit character (zero for any other character).
pub open spec fn digit_value(c: char) -> nat {
    if c == '1' {
        1
    } else if c == '2' {
        2
    } else if c == '3' {
        3
    } else if c == '4' {
        4
    } else if c == '5' {
        5
    } else if c == '6' {
        6
    } else if c == '7' {
        7
    } else if c == '8' {
        8
    } else if c == '9' {
        9
    } else {
        0
    }
}

/// The number that a string of decimal digits denotes.
pub open spec fn numeral_value(s: Seq<char>) -> nat
    decreases s.len(),
{
    if s.len() == 0 {
        0
    } else {
        numeral_value(s.drop_last()) * 10 + digit_value(s.last())
    }
}

proof fn lemma_digit_value(d: nat)
    requires
        d < 10,
    ensures
        digit_value(digit_char(d)) == d,
{
    let digits = seq!['0', '1', '2', '3', '4', '5', '6', '7', '8', '9'];
    assert(digits[0] == '0' && digits[1] == '1' && digits[2] == '2' && digits[3] == '3');
    assert(digits[4] == '4' && digits[5] == '5' && digits[6] == '6');
    assert(digits[7] == '7' && digits[8] == '8' && digits[9] == '9');
}

proof fn lemma_decimal_value(n: nat)
    ensures
        numeral_value(decimal(n)) == n,
    decreases n,
{
    if n < 10 {
        lemma_digit_value(n);
        assert(seq![digit_char(n)].drop_last() =~= Seq::<char>::empty());
        assert(numeral_value(decimal(n)) == numeral_value(Seq::<char>::empty()) * 10 + digit_value(
            digit_char(n),
        ));
    } else {
        lemma_digit_value(n % 10);
        lemma_decimal_value(n / 10);
        assert(decimal(n).drop_last() =~= decimal(n / 10));
        assert(decimal(n).last() == digit_char(n % 10));
        assert(numeral_value(decimal(n)) == numeral_value(decimal(n / 10)) * 10 + digit_value(
            digit_char(n % 10),
        ));
    }
}

proof fn lemma_leading_zeros_value(k: nat, d: Seq<char>)
    ensures
        numeral_value(Seq::new(k, |i: int| '0') + d) == numeral_value(d),
    decreases d.len() + k,
{
    let z = Seq::new(k, |i: int| '0');
    if d.len() == 0 {
        assert(z + d =~= z);
        if k > 0 {
            lemma_leading_zeros_value((k - 1) as nat, d);
            assert(z.drop_last() =~= Seq::new((k - 1) as nat, |i: int| '0') + d);
        }
    } else {
        lemma_leading_zeros_value(k, d.drop_last());
        assert((z + d).drop_last() =~= z + d.drop_last());
    }
}

/// Different checkpoint numbers give different file names in a directory,
/// so no checkpoint overwrites one of another number.
pub proof fn lemma_names_unique(outdir: Seq<char>, a: nat, b: nat)
    requires
        a != b,
    ensures
        checkpoint_path(outdir, a) != checkpoint_path(outdir, b),
{
    let za = zero_padded(a, 4);
    let zb = zero_padded(b, 4);
    lemma_decimal_value(a);
    lemma_decimal_value(b);
    if decimal(a).len() < 4 {
        lemma_leading_zeros_value((4 - decimal(a).len()) as nat, decimal(a));
    }
    if decimal(b).len() < 4 {
        lemma_leading_zeros_value((4 - decimal(b).len()) as nat, decimal(b));
    }
    let pre = outdir + seq!['/', 'c', 'h', 'k', 'p', 't', '.'];
    let pa = checkpoint_path(outdir, a);
    let pb = checkpoint_path(outdir, b);
    if pa == pb {
        assert(pa.subrange(pre.len() as int, pre.len() + za.len() as int) =~= za);
        assert(pb.subrange(pre.len() as int, pre.len() + zb.len() as int) =~= zb);
    }
}

} // verus!
