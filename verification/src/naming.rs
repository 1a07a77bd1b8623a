//! Collision-free names for the files of one render job.
//!
//! Every render job in a run gets a stem `q<i><stamp>` or `r<i><stamp>`:
//! a side letter, the card's index in decimal, and the run-wide stamp in
//! decimal. With the stamp fixed for a run, two distinct jobs always get
//! distinct stems.

use vstd::prelude::*;
use vstd::string::*;

verus! {

/// The decimal digit character for `d` (0 through 9).
pub open spec fn dec_digit(d: int) -> char {
    if d == 0 {
        '0'
    } else if d == 1 {
        '1'
    } else if d == 2 {
        '2'
    } else if d == 3 {
        '3'
    } else if d == 4 {
        '4'
    } else if d == 5 {
        '5'
    } else if d == 6 {
        '6'
    } else if d == 7 {
        '7'
    } else if d == 8 {
        '8'
    } else {
        '9'
    }
}

/// The decimal representation of `n`, most significant digit first.
pub open spec fn dec_seq(n: nat) -> Seq<char>
    decreases n,
{
    if n < 10 {
        seq![dec_digit(n as int)]
    } else {
        dec_seq(n / 10).push(dec_digit((n % 10) as int))
    }
}

/// The side letter: `q` for a question fragment, `r` for an answer fragment.
pub open spec fn side_char(question: bool) -> char {
    if question {
        'q'
    } else {
        'r'
    }
}

/// The stem every file of one render job is named from.
pub open spec fn stem_seq(question: bool, index: nat, stamp: nat) -> Seq<char> {
    seq![side_char(question)] + dec_seq(index) + dec_seq(stamp)
}

fn digit_str(d: u64) -> (r: &'static str)
    requires
        d < 10,
    ensures
        r@ == seq![dec_digit(d as int)],
{
    if d == 0 {
        proof {
            reveal_strlit("0");
            assert("0"@ =~= seq![dec_digit(0int)]);
        }
        "0"
    } else if d == 1 {
        proof {
            reveal_strlit("1");
            assert("1"@ =~= seq![dec_digit(1int)]);
        }
        "1"
    } else if d == 2 {
        proof {
            reveal_strlit("2");
            assert("2"@ =~= seq![dec_digit(2int)]);
        }
        "2"
    } else if d == 3 {
        proof {
            reveal_strlit("3");
            assert("3"@ =~= seq![dec_digit(3int)]);
        }
        "3"
    } else if d == 4 {
        proof {
            reveal_strlit("4");
            assert("4"@ =~= seq![dec_digit(4int)]);
        }
        "4"
    } else if d == 5 {
        proof {
            reveal_strlit("5");
            assert("5"@ =~= seq![dec_digit(5int)]);
        }
        "5"
    } else if d == 6 {
        proof {
            reveal_strlit("6");
            assert("6"@ =~= seq![dec_digit(6int)]);
        }
        "6"
    } else if d == 7 {
        proof {
            reveal_strlit("7");
            assert("7"@ =~= seq![dec_digit(7int)]);
        }
        "7"
    } else if d == 8 {
        proof {
            reveal_strlit("8");
            assert("8"@ =~= seq![dec_digit(8int)]);
        }
        "8"
    } else {
        proof {
            reveal_strlit("9");
            assert("9"@ =~= seq![dec_digit(9int)]);
        }
        "9"
    }
}

/// Renders `n` in decimal.
pub fn u64_to_dec(n: u64) -> (r: String)
    ensures
        r@ == dec_seq(n as nat),
    decreases n,
{
    if n < 10 {
        digit_str(n).to_owned()
    } else {
        let mut prefix = u64_to_dec(n / 10);
        prefix.append(digit_str(n % 10));
        prefix
    }
}

/// Builds the stem for one render job.
pub fn artifact_stem(question: bool, index: u64, stamp: u64) -> (r: String)
    ensures
        r@ == stem_seq(question, index as nat, stamp as nat),
{
    let mut s = if question {
        proof {
            reveal_strlit("q");
            assert("q"@ =~= seq![side_char(true)]);
        }
        "q".to_owned()
    } else {
        proof {
            reveal_strlit("r");
            assert("r"@ =~= seq![side_char(false)]);
        }
        "r".to_owned()
    };
    let index_part = u64_to_dec(index);
    s.append(index_part.as_str());
    let stamp_part = u64_to_dec(stamp);
    s.append(stamp_part.as_str());
    s
}

proof fn lemma_dec_digit_injective(x: int, y: int)
    requires
        0 <= x < 10,
        0 <= y < 10,
        dec_digit(x) == dec_digit(y),
    ensures
        x == y,
{
}

proof fn lemma_dec_seq_len(n: nat)
    ensures
        dec_seq(n).len() >= 1,
        (n < 10) <==> (dec_seq(n).len() == 1),
    decreases n,
{
    if n >= 10 {
        lemma_dec_seq_len(n / 10);
    }
}

proof fn lemma_dec_seq_injective(a: nat, b: nat)
    requires
        dec_seq(a) == dec_seq(b),
    ensures
        a == b,
    decreases a + b,
{
    lemma_dec_seq_len(a);
    lemma_dec_seq_len(b);
    if a < 10 && b < 10 {
        assert(dec_seq(a)[0] == dec_digit(a as int));
        assert(dec_seq(b)[0] == dec_digit(b as int));
        lemma_dec_digit_injective(a as int, b as int);
    } else if a < 10 || b < 10 {
        assert(dec_seq(a).len() == dec_seq(b).len());
        assert(false);
    } else {
        let pa = dec_seq(a / 10);
        let pb = dec_seq(b / 10);
        let da = dec_digit((a % 10) as int);
        let db = dec_digit((b % 10) as int);
        assert(pa.push(da) == pb.push(db));
        assert(pa.push(da).len() == pb.push(db).len());
        assert(da == db) by {
            assert(pa.push(da)[pa.len() as int] == da);
            assert(pb.push(db)[pb.len() as int] == db);
        }
        assert(pa =~= pb) by {
            assert forall|i: int| 0 <= i < pa.len() implies pa[i] == pb[i] by {
                assert(pa.push(da)[i] == pa[i]);
                assert(pb.push(db)[i] == pb[i]);
            }
        }
        lemma_dec_digit_injective((a % 10) as int, (b % 10) as int);
        lemma_dec_seq_injective(a / 10, b / 10);
        vstd::arithmetic::div_mod::lemma_fundamental_div_mod(a as int, 10);
        vstd::arithmetic::div_mod::lemma_fundamental_div_mod(b as int, 10);
    }
}

/// Appending one common suffix to two distinct names keeps them distinct.
pub proof fn lemma_suffix_keeps_distinct(a: Seq<char>, b: Seq<char>, s: Seq<char>)
    requires
        a != b,
    ensures
        a + s != b + s,
{
    if a + s == b + s {
        assert((a + s).len() == (b + s).len());
        assert(a =~= b) by {
            assert forall|j: int| 0 <= j < a.len() implies a[j] == b[j] by {
                assert((a + s)[j] == a[j]);
                assert((b + s)[j] == b[j]);
            }
        }
    }
}

/// Distinct render jobs of one run never share a stem: the side letter
/// separates question from answer, and the decimal index separates the
/// cards, whatever the run stamp is.
pub proof fn lemma_stems_distinct(q1: bool, i1: nat, q2: bool, i2: nat, stamp: nat)
    requires
        q1 != q2 || i1 != i2,
    ensures
        stem_seq(q1, i1, stamp) != stem_seq(q2, i2, stamp),
{
    let s1 = stem_seq(q1, i1, stamp);
    let s2 = stem_seq(q2, i2, stamp);
    lemma_dec_seq_len(i1);
    lemma_dec_seq_len(i2);
    lemma_dec_seq_len(stamp);
    if q1 != q2 {
        assert(s1[0] == side_char(q1));
        assert(s2[0] == side_char(q2));
        assert(s1 != s2);
    } else {
        if s1 == s2 {
            let n1 = dec_seq(i1).len() as int;
            let n2 = dec_seq(i2).len() as int;
            assert(s1.len() == 1 + n1 + dec_seq(stamp).len());
            assert(s2.len() == 1 + n2 + dec_seq(stamp).len());
            assert(n1 == n2);
            assert(dec_seq(i1) =~= dec_seq(i2)) by {
                assert forall|j: int| 0 <= j < n1 implies dec_seq(i1)[j] == dec_seq(i2)[j] by {
                    assert(s1[1 + j] == dec_seq(i1)[j]);
                    assert(s2[1 + j] == dec_seq(i2)[j]);
                }
            }
            lemma_dec_seq_injective(i1, i2);
            assert(false);
        }
    }
}

} // verus!
