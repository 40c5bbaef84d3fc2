//! Hexadecimal rendering of address-like fields. The mapping records render
//! their addresses, lengths, offsets, protections and flags as `0x`-prefixed
//! lowercase hexadecimal.

use vstd::prelude::*;

verus! {

/// The lowercase hex digit for a value below 16.
pub open spec fn hex_digit(d: int) -> char {
    if d < 10 {
        ((48 + d) as u8) as char
    } else {
        ((87 + d) as u8) as char
    }
}

/// The hex digits of `v`, most significant first, without leading zeros
/// (`0` renders as one digit).
pub open spec fn hex_chars(v: int) -> Seq<char>
    decreases v,
{
    if v <= 15 {
        seq![hex_digit(v)]
    } else {
        hex_chars(v / 16).push(hex_digit(v % 16))
    }
}

fn hex_digit_str(d: u64) -> (r: &'static str)
    requires
        d < 16,
    ensures
        r@ == seq![hex_digit(d as int)],
{
    if d == 0 {
        proof {
            reveal_strlit("0");
            assert("0"@ =~= seq![hex_digit(0)]);
        }
        "0"
    } else if d == 1 {
        proof {
            reveal_strlit("1");
            assert("1"@ =~= seq![hex_digit(1)]);
        }
        "1"
    } else if d == 2 {
        proof {
            reveal_strlit("2");
            assert("2"@ =~= seq![hex_digit(2)]);
        }
        "2"
    } else if d == 3 {
        proof {
            reveal_strlit("3");
            assert("3"@ =~= seq![hex_digit(3)]);
        }
        "3"
    } else if d == 4 {
        proof {
            reveal_strlit("4");
            assert("4"@ =~= seq![hex_digit(4)]);
        }
        "4"
    } else if d == 5 {
        proof {
            reveal_strlit("5");
            assert("5"@ =~= seq![hex_digit(5)]);
        }
        "5"
    } else if d == 6 {
        proof {
            reveal_strlit("6");
            assert("6"@ =~= seq![hex_digit(6)]);
        }
        "6"
    } else if d == 7 {
        proof {
            reveal_strlit("7");
            assert("7"@ =~= seq![hex_digit(7)]);
        }
        "7"
    } else if d == 8 {
        proof {
            reveal_strlit("8");
            assert("8"@ =~= seq![hex_digit(8)]);
        }
        "8"
    } else if d == 9 {
        proof {
            reveal_strlit("9");
            assert("9"@ =~= seq![hex_digit(9)]);
        }
        "9"
    } else if d == 10 {
        proof {
            reveal_strlit("a");
            assert("a"@ =~= seq![hex_digit(10)]);
        }
        "a"
    } else if d == 11 {
        proof {
            reveal_strlit("b");
            assert("b"@ =~= seq![hex_digit(11)]);
        }
        "b"
    } else if d == 12 {
        proof {
            reveal_strlit("c");
            assert("c"@ =~= seq![hex_digit(12)]);
        }
        "c"
    } else if d == 13 {
        proof {
            reveal_strlit("d");
            assert("d"@ =~= seq![hex_digit(13)]);
        }
        "d"
    } else if d == 14 {
        proof {
            reveal_strlit("e");
            assert("e"@ =~= seq![hex_digit(14)]);
        }
        "e"
    } else {
        proof {
            reveal_strlit("f");
            assert("f"@ =~= seq![hex_digit(15)]);
        }
        "f"
    }
}

/// The digits of the remainder stack, rendered most significant first: the
/// last remainder pushed is the most significant digit.
pub open spec fn stacked_digit_chars(t: Seq<u64>) -> Seq<char>
    decreases t.len(),
{
    if t.len() == 0 {
        Seq::empty()
    } else {
        seq![hex_digit(t.last() as int)] + stacked_digit_chars(t.drop_last())
    }
}

proof fn lemma_stacked_digit_chars_first(t: Seq<u64>)
    requires
        t.len() > 0,
    ensures
        stacked_digit_chars(t) == stacked_digit_chars(t.drop_first()) + seq![
            hex_digit(t.first() as int),
        ],
    decreases t.len(),
{
    if t.len() == 1 {
        assert(t.drop_first() =~= Seq::<u64>::empty());
        assert(t.drop_last() =~= Seq::<u64>::empty());
        assert(stacked_digit_chars(t) == seq![hex_digit(t.last() as int)]
            + stacked_digit_chars(t.drop_last()));
        assert(stacked_digit_chars(t) =~= stacked_digit_chars(t.drop_first()) + seq![
            hex_digit(t.first() as int),
        ]);
    } else {
        let q = t.drop_last();
        lemma_stacked_digit_chars_first(q);
        assert(t.drop_first().drop_last() =~= q.drop_first());
        assert(t.drop_first().last() == t.last());
        assert(q.first() == t.first());
        assert(stacked_digit_chars(t) == seq![hex_digit(t.last() as int)]
            + stacked_digit_chars(q));
        assert(stacked_digit_chars(t.drop_first()) == seq![hex_digit(
            t.drop_first().last() as int,
        )] + stacked_digit_chars(t.drop_first().drop_last()));
        assert(stacked_digit_chars(t) =~= stacked_digit_chars(t.drop_first()) + seq![
            hex_digit(t.first() as int),
        ]);
    }
}

/// Render `v` as `0x`-prefixed lowercase hexadecimal without leading zeros.
pub fn hex_string(v: u64) -> (r: String)
    ensures
        r@ == "0x"@ + hex_chars(v as int),
{
    let mut stack: Vec<u64> = Vec::new();
    let mut x = v;
    proof {
        assert(hex_chars(v as int) =~= hex_chars(v as int) + stacked_digit_chars(stack@));
    }
    while x > 15
        invariant
            hex_chars(v as int) == hex_chars(x as int) + stacked_digit_chars(stack@),
            forall|j: int| 0 <= j < stack@.len() ==> #[trigger] stack@[j] < 16,
        decreases x,
    {
        let d = x % 16;
        let next = x / 16;
        proof {
            assert(stack@.push(d).drop_last() =~= stack@);
            assert(stack@.push(d).last() == d);
            assert(stacked_digit_chars(stack@.push(d)) == seq![hex_digit(d as int)]
                + stacked_digit_chars(stack@));
            assert(hex_chars(x as int) == hex_chars(next as int).push(hex_digit(d as int)));
            assert(hex_chars(next as int).push(hex_digit(d as int))
                + stacked_digit_chars(stack@) =~= hex_chars(next as int) + (seq![
                hex_digit(d as int),
            ] + stacked_digit_chars(stack@)));
        }
        stack.push(d);
        x = next;
    }
    proof {
        assert(hex_chars(x as int) =~= seq![hex_digit(x as int)]);
        assert(stack@.push(x).drop_last() =~= stack@);
        assert(stack@.push(x).last() == x);
        assert(stacked_digit_chars(stack@.push(x)) == seq![hex_digit(x as int)]
            + stacked_digit_chars(stack@));
    }
    stack.push(x);
    let mut out = String::new();
    out.append("0x");
    proof {
        assert(out@ =~= "0x"@ + stacked_digit_chars(stack@.skip(stack@.len() as int)));
    }
    let n = stack.len();
    let mut i = n;
    while i > 0
        invariant
            i <= n,
            n == stack@.len(),
            forall|j: int| 0 <= j < n ==> #[trigger] stack@[j] < 16,
            out@ == "0x"@ + stacked_digit_chars(stack@.skip(i as int)),
        decreases i,
    {
        let d = stack[i - 1];
        out.append(hex_digit_str(d));
        proof {
            let t = stack@.skip(i - 1);
            lemma_stacked_digit_chars_first(t);
            assert(t.drop_first() =~= stack@.skip(i as int));
            assert(out@ =~= "0x"@ + stacked_digit_chars(stack@.skip(i - 1)));
        }
        i -= 1;
    }
    proof {
        assert(stack@.skip(0) =~= stack@);
    }
    out
}

} // verus!
