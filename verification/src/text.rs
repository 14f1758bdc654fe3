use vstd::prelude::*;
use vstd::string::*;

verus! {

/// The text of one decimal digit.
pub open spec fn digit_text(d: nat) -> Seq<char> {
    if d == 0 {
        "0"@
    } else if d == 1 {
        "1"@
    } else if d == 2 {
        "2"@
    } else if d == 3 {
        "3"@
    } else if d == 4 {
        "4"@
    } else if d == 5 {
        "5"@
    } else if d == 6 {
        "6"@
    } else if d == 7 {
        "7"@
    } else if d == 8 {
        "8"@
    } else {
        "9"@
    }
}

/// The decimal text of `n`, without leading zeros.
pub open spec fn decimal(n: nat) -> Seq<char>
    decreases n,
{
    if n < 10 {
        digit_text(n)
    } else {
        decimal(n / 10) + digit_text(n % 10)
    }
}

fn digit_str(d: usize) -> (r: &'static str)
    requires
        d < 10,
    ensures
        r@ == digit_text(d as nat),
{
    if d == 0 {
        "0"
    } else if d == 1 {
        "1"
    } else if d == 2 {
        "2"
    } else if d == 3 {
        "3"
    } else if d == 4 {
        "4"
    } else if d == 5 {
        "5"
    } else if d == 6 {
        "6"
    } else if d == 7 {
        "7"
    } else if d == 8 {
        "8"
    } else {
        "9"
    }
}

/// Appends the decimal text of `n` to `out`.
pub fn push_decimal(out: &mut String, n: usize)
    ensures
        final(out)@ == old(out)@ + decimal(n as nat),
    decreases n,
{
    if n >= 10 {
        push_decimal(out, n / 10);
    }
    out.append(digit_str(n % 10));
    proof {
        assert(old(out)@ + decimal(n as nat) =~= if n >= 10 {
            old(out)@ + decimal((n / 10) as nat) + digit_text((n % 10) as nat)
        } else {
            old(out)@ + digit_text(n as nat)
        });
    }
}

/// The decimal text of `n`.
pub fn decimal_string(n: usize) -> (r: String)
    ensures
        r@ == decimal(n as nat),
{
    let mut s = String::new();
    push_decimal(&mut s, n);
    proof {
        assert(Seq::<char>::empty() + decimal(n as nat) =~= decimal(n as nat));
    }
    s
}

/// `n` tab characters.
pub open spec fn tabs(n: nat) -> Seq<char>
    decreases n,
{
    if n == 0 {
        Seq::empty()
    } else {
        tabs((n - 1) as nat) + "\t"@
    }
}

/// Appends `n` tab characters to `out`.
pub fn push_tabs(out: &mut String, n: usize)
    ensures
        final(out)@ == old(out)@ + tabs(n as nat),
{
    let mut i: usize = 0;
    while i < n
        invariant
            i <= n,
            out@ == old(out)@ + tabs(i as nat),
        decreases n - i,
    {
        out.append("\t");
        proof {
            assert(old(out)@ + tabs((i + 1) as nat) =~= old(out)@ + tabs(i as nat) + "\t"@);
        }
        i = i + 1;
    }
}

/// `n` tab characters.
pub fn tab_string(n: usize) -> (r: String)
    ensures
        r@ == tabs(n as nat),
{
    let mut s = String::new();
    push_tabs(&mut s, n);
    proof {
        assert(Seq::<char>::empty() + tabs(n as nat) =~= tabs(n as nat));
    }
    s
}

/// The parts of `list` separated by `sep`.
pub open spec fn join(list: Seq<Seq<char>>, sep: Seq<char>) -> Seq<char>
    decreases list.len(),
{
    if list.len() == 0 {
        Seq::empty()
    } else if list.len() == 1 {
        list[0]
    } else {
        join(list.drop_last(), sep) + sep + list.last()
    }
}

/// `x` occurs in `y` as a contiguous run of characters.
pub open spec fn occurs_in(x: Seq<char>, y: Seq<char>) -> bool {
    exists|p: int| 0 <= p && p + x.len() <= y.len() && #[trigger] y.subrange(p, p + x.len()) == x
}

/// Every part of a list occurs in the list joined by any separator.
pub proof fn lemma_join_contains(list: Seq<Seq<char>>, sep: Seq<char>, i: int)
    requires
        0 <= i < list.len(),
    ensures
        occurs_in(list[i], join(list, sep)),
    decreases list.len(),
{
    let j = join(list, sep);
    if list.len() == 1 {
        let z: int = 0;
        assert(j.subrange(z, z + list[i].len()) =~= list[i]);
    } else {
        let pre = join(list.drop_last(), sep);
        assert(j == pre + sep + list.last());
        if i < list.len() - 1 {
            lemma_join_contains(list.drop_last(), sep, i);
            let p = choose|p: int|
                0 <= p && p + list[i].len() <= pre.len() && #[trigger] pre.subrange(p, p + list[i].len())
                    == list.drop_last()[i];
            assert(j.subrange(p, p + list[i].len()) =~= pre.subrange(p, p + list[i].len()));
            assert(j.subrange(p, p + list[i].len()) == list[i]);
        } else {
            let p: int = (pre.len() + sep.len()) as int;
            assert(j.subrange(p, p + list[i].len()) =~= list[i]);
        }
    }
}

/// All parts of `list`, one after the other.
pub open spec fn concat(list: Seq<Seq<char>>) -> Seq<char>
    decreases list.len(),
{
    if list.len() == 0 {
        Seq::empty()
    } else {
        concat(list.drop_last()) + list.last()
    }
}

/// Decimal text of an integer, with a leading `-` when negative.
pub open spec fn int_text(x: int) -> Seq<char> {
    if x < 0 {
        "-"@ + decimal((-x) as nat)
    } else {
        decimal(x as nat)
    }
}

/// Appends the decimal text of `x` to `out`.
pub fn push_i32(out: &mut String, x: i32)
    ensures
        final(out)@ == old(out)@ + int_text(x as int),
{
    if x < 0 {
        out.append("-");
        let m: i64 = 0i64 - (x as i64);
        push_decimal(out, m as usize);
        proof {
            assert(old(out)@ + int_text(x as int) =~= old(out)@ + "-"@ + decimal((-x) as nat));
        }
    } else {
        push_decimal(out, x as usize);
    }
}

} // verus!
