use vstd::prelude::*;

use crate::codec::push_char;

verus! {

/// The minimal decimal digit sequence of `n`, most significant first; empty
/// for zero.
pub open spec fn digits10(n: nat) -> Seq<int>
    decreases n,
{
    if n == 0 {
        Seq::empty()
    } else {
        digits10(n / 10).push((n % 10) as int)
    }
}

/// The character spelling one decimal digit.
pub open spec fn dec_digit_char(d: int) -> char {
    if d == 0 {
        '0'
    } else if d == 1 {
        '1'
    } else if d == 2 {
        '2'
    } else if d == 3 {
        '3'
    } else if d == 4 {
        '4'
    } else if d == 5 {
        '5'
    } else if d == 6 {
        '6'
    } else if d == 7 {
        '7'
    } else if d == 8 {
        '8'
    } else {
        '9'
    }
}

/// The decimal spelling of `n`: its digits' characters, and the single
/// character '0' for zero.
pub open spec fn decimal_chars(n: nat) -> Seq<char> {
    if n == 0 {
        seq!['0']
    } else {
        digits10(n).map(|_i: int, d: int| dec_digit_char(d))
    }
}

/// Thousands grouping: a comma before each complete group of three
/// characters counted from the right.
pub open spec fn with_commas(ds: Seq<char>) -> Seq<char>
    decreases ds.len(),
{
    if ds.len() <= 3 {
        ds
    } else {
        with_commas(ds.take(ds.len() - 3)) + seq![','] + ds.skip(ds.len() - 3)
    }
}

/// The decimal spelling of `n` with thousands separators.
pub open spec fn formatted_spec(n: nat) -> Seq<char> {
    with_commas(decimal_chars(n))
}

/// Writes the characters `chs[0..end]` grouped in threes from the right,
/// commas between the groups.
fn commas_of(chs: &Vec<char>, end: usize) -> (r: String)
    requires
        end <= chs.len(),
    ensures
        r@ == with_commas(chs@.take(end as int)),
    decreases end,
{
    if end <= 3 {
        let mut s = String::new();
        for i in 0..end
            invariant
                end <= chs.len(),
                s@ =~= chs@.take(end as int).take(i as int),
        {
            push_char(&mut s, chs[i]);
            proof {
                assert(chs@.take(end as int).take(i + 1) =~= chs@.take(end as int).take(
                    i as int,
                ).push(chs@[i as int]));
            }
        }
        proof {
            assert(chs@.take(end as int).take(end as int) =~= chs@.take(end as int));
        }
        s
    } else {
        let mut s = commas_of(chs, end - 3);
        push_char(&mut s, ',');
        push_char(&mut s, chs[end - 3]);
        push_char(&mut s, chs[end - 2]);
        push_char(&mut s, chs[end - 1]);
        proof {
            let whole = chs@.take(end as int);
            assert(whole.take(whole.len() - 3) =~= chs@.take(end - 3));
            assert(s@ =~= with_commas(whole.take(whole.len() - 3)) + seq![','] + whole.skip(
                whole.len() - 3,
            ));
        }
        s
    }
}

/// Spells `n` in decimal with a comma before each complete group of three
/// digits from the right, as "1,234,567".
pub fn format_number_with_commas(n: u64) -> (r: String)
    ensures
        r@ == formatted_spec(n as nat),
{
    let mut chs: Vec<char> = Vec::new();
    if n == 0 {
        chs.push('0');
        proof {
            assert(chs@ =~= decimal_chars(0));
        }
    } else {
        let mut lsb: Vec<u8> = Vec::new();
        let mut temp = n;
        while temp > 0
            invariant
                digits10(n as nat) =~= digits10(temp as nat) + lsb@.map_values(
                    |x: u8| x as int,
                ).reverse(),
                forall|j: int| 0 <= j < lsb@.len() ==> 0 <= #[trigger] lsb@[j] < 10,
            decreases temp,
        {
            let d = (temp % 10) as u8;
            proof {
                let pre = lsb@.map_values(|x: u8| x as int).reverse();
                let post = lsb@.push(d).map_values(|x: u8| x as int).reverse();
                assert(post =~= seq![d as int] + pre);
                assert(digits10(temp as nat) == digits10((temp / 10) as nat).push(d as int));
                assert(digits10((temp / 10) as nat) + post =~= digits10(temp as nat) + pre);
            }
            lsb.push(d);
            temp = temp / 10;
        }
        let m = lsb.len();
        proof {
            assert(digits10((temp / 10) as nat) =~= Seq::<int>::empty());
            assert(digits10(n as nat) =~= lsb@.map_values(|x: u8| x as int).reverse());
        }
        for k in 0..m
            invariant
                m == lsb.len(),
                n > 0,
                digits10(n as nat) =~= lsb@.map_values(|x: u8| x as int).reverse(),
                chs@ =~= decimal_chars(n as nat).take(k as int),
                forall|j: int| 0 <= j < lsb@.len() ==> 0 <= #[trigger] lsb@[j] < 10,
        {
            let d = lsb[m - 1 - k];
            proof {
                assert(digits10(n as nat)[k as int] == lsb@.map_values(|x: u8| x as int)[m - 1
                    - k]);
            }
            chs.push(dec_char_of(d));
            proof {
                assert(decimal_chars(n as nat).take(k + 1) =~= decimal_chars(n as nat).take(
                    k as int,
                ).push(dec_digit_char(digits10(n as nat)[k as int])));
            }
        }
        proof {
            assert(decimal_chars(n as nat).take(m as int) =~= decimal_chars(n as nat));
        }
    }
    let len = chs.len();
    let r = commas_of(&chs, len);
    proof {
        assert(chs@.take(len as int) =~= chs@);
    }
    r
}

/// Executable form of `dec_digit_char`.
fn dec_char_of(d: u8) -> (c: char)
    requires
        d < 10,
    ensures
        c == dec_digit_char(d as int),
{
    match d {
        0 => '0',
        1 => '1',
        2 => '2',
        3 => '3',
        4 => '4',
        5 => '5',
        6 => '6',
        7 => '7',
        8 => '8',
        _ => '9',
    }
}

} // verus!
