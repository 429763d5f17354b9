use vstd::prelude::*;
use vstd::std_specs::iter::IteratorSpec;
use vstd::string::StringExecFns;

verus! {

/// Strict lexicographic order on character sequences, comparing code points
/// from the left; a proper prefix comes first.
pub open spec fn text_lt(a: Seq<char>, b: Seq<char>) -> bool
    decreases a.len(),
{
    if a.len() == 0 {
        b.len() > 0
    } else if b.len() == 0 {
        false
    } else if a[0] != b[0] {
        a[0] < b[0]
    } else {
        text_lt(a.drop_first(), b.drop_first())
    }
}

/// No text comes before itself.
pub proof fn lemma_text_lt_irreflexive(a: Seq<char>)
    ensures
        !text_lt(a, a),
    decreases a.len(),
{
    if a.len() > 0 {
        lemma_text_lt_irreflexive(a.drop_first());
    }
}

/// Of two different texts exactly one comes first.
pub proof fn lemma_text_lt_total(a: Seq<char>, b: Seq<char>)
    ensures
        a == b || text_lt(a, b) || text_lt(b, a),
        !(text_lt(a, b) && text_lt(b, a)),
    decreases a.len(),
{
    if a.len() > 0 && b.len() > 0 {
        if a[0] == b[0] {
            lemma_text_lt_total(a.drop_first(), b.drop_first());
            if a.drop_first() == b.drop_first() {
                assert(a =~= seq![a[0]] + a.drop_first());
                assert(b =~= seq![b[0]] + b.drop_first());
            }
        }
    } else if a.len() == 0 && b.len() == 0 {
        assert(a =~= b);
    }
}

/// The text order is transitive.
pub proof fn lemma_text_lt_transitive(a: Seq<char>, b: Seq<char>, c: Seq<char>)
    requires
        text_lt(a, b),
        text_lt(b, c),
    ensures
        text_lt(a, c),
    decreases a.len(),
{
    if a.len() > 0 && b.len() > 0 && c.len() > 0 {
        if a[0] == b[0] && b[0] == c[0] {
            lemma_text_lt_transitive(a.drop_first(), b.drop_first(), c.drop_first());
        }
    }
}

/// Lexicographic comparison on character vectors: `a` strictly before `b`.
pub fn text_less(a: &Vec<char>, b: &Vec<char>) -> (r: bool)
    ensures
        r == text_lt(a@, b@),
{
    let mut i: usize = 0;
    assert(a@.subrange(0, a@.len() as int) =~= a@);
    assert(b@.subrange(0, b@.len() as int) =~= b@);
    while i < a.len() && i < b.len() && a[i] == b[i]
        invariant
            i <= a.len(),
            i <= b.len(),
            text_lt(a@, b@) == text_lt(a@.subrange(i as int, a@.len() as int), b@.subrange(i as int, b@.len() as int)),
        decreases a.len() - i,
    {
        proof {
            let sa = a@.subrange(i as int, a@.len() as int);
            let sb = b@.subrange(i as int, b@.len() as int);
            assert(sa.drop_first() =~= a@.subrange(i + 1, a@.len() as int));
            assert(sb.drop_first() =~= b@.subrange(i + 1, b@.len() as int));
        }
        i = i + 1;
    }
    if i == a.len() {
        i < b.len()
    } else if i == b.len() {
        false
    } else {
        a[i] < b[i]
    }
}

/// The characters of a string slice, in order.
pub fn chars_of(s: &str) -> (r: Vec<char>)
    ensures
        r@ == s@,
{
    broadcast use vstd::string::group_string_axioms;
    let mut it = s.chars();
    let mut v: Vec<char> = Vec::new();
    loop
        invariant
            v@ + it.remaining() == s@,
        ensures
            v@ == s@,
        decreases s@.len() - v@.len(),
    {
        let ghost before = it.remaining();
        match it.next() {
            Some(c) => {
                proof {
                    assert(v@.push(c) + it.remaining() =~= v@ + before);
                }
                v.push(c);
            },
            None => {
                assert(v@ + it.remaining() =~= v@);
                break;
            },
        }
    }
    v
}

/// The decimal digit character for `d` (meaningful for `d < 10`).
pub open spec fn digit_char(d: nat) -> char {
    seq!['0', '1', '2', '3', '4', '5', '6', '7', '8', '9'][d as int]
}

/// Decimal digits of a natural number, most significant first, no leading zeros.
pub open spec fn digits_of(n: nat) -> Seq<char>
    decreases n,
{
    if n < 10 {
        seq![digit_char(n)]
    } else {
        digits_of(n / 10).push(digit_char(n % 10))
    }
}

/// Decimal rendering of an integer, with a leading `-` when negative.
pub open spec fn int_text(i: int) -> Seq<char> {
    if i < 0 {
        seq!['-'] + digits_of((-i) as nat)
    } else {
        digits_of(i as nat)
    }
}

fn digit_str(d: u32) -> (r: &'static str)
    requires
        d < 10,
    ensures
        r@ == seq![digit_char(d as nat)],
{
    proof {
        reveal_strlit("0");
        reveal_strlit("1");
        reveal_strlit("2");
        reveal_strlit("3");
        reveal_strlit("4");
        reveal_strlit("5");
        reveal_strlit("6");
        reveal_strlit("7");
        reveal_strlit("8");
        reveal_strlit("9");
    }
    match d {
        0 => "0",
        1 => "1",
        2 => "2",
        3 => "3",
        4 => "4",
        5 => "5",
        6 => "6",
        7 => "7",
        8 => "8",
        _ => "9",
    }
}

/// Decimal text of a 32-bit integer.
pub fn int_to_string(v: i32) -> (r: String)
    ensures
        r@ == int_text(v as int),
{
    let magnitude: u32 = if v < 0 {
        (0i64 - v as i64) as u32
    } else {
        v as u32
    };
    let mut cur: u32 = magnitude;
    let mut low: Vec<u32> = Vec::new();
    while cur >= 10
        invariant
            digits_of(magnitude as nat) == digits_of(cur as nat) + low@.map_values(|d: u32| digit_char(d as nat)),
            forall|k: int| 0 <= k < low@.len() ==> low@[k] < 10,
        decreases cur,
    {
        let d = cur % 10;
        proof {
            let tail = low@.map_values(|d: u32| digit_char(d as nat));
            let tail2 = seq![d].add(low@).map_values(|d: u32| digit_char(d as nat));
            assert(tail2 =~= seq![digit_char(d as nat)] + tail);
            assert(digits_of(cur as nat) == digits_of((cur / 10) as nat).push(digit_char(d as nat)));
            assert(digits_of((cur / 10) as nat).push(digit_char(d as nat)) + tail =~= digits_of((cur / 10) as nat) + tail2);
        }
        low.insert(0, d);
        cur = cur / 10;
    }
    let mut s = String::new();
    if v < 0 {
        proof {
            reveal_strlit("-");
        }
        s.append("-");
    }
    s.append(digit_str(cur));
    let mut k: usize = 0;
    while k < low.len()
        invariant
            k <= low.len(),
            forall|j: int| 0 <= j < low@.len() ==> low@[j] < 10,
            s@ == (if v < 0 { seq!['-'] } else { Seq::<char>::empty() }) + seq![digit_char(cur as nat)]
                + low@.subrange(0, k as int).map_values(|d: u32| digit_char(d as nat)),
        decreases low.len() - k,
    {
        proof {
            assert(low@.subrange(0, k + 1).map_values(|d: u32| digit_char(d as nat))
                =~= low@.subrange(0, k as int).map_values(|d: u32| digit_char(d as nat)).push(digit_char(low@[k as int] as nat)));
        }
        s.append(digit_str(low[k]));
        k = k + 1;
    }
    proof {
        assert(low@.subrange(0, low@.len() as int) =~= low@);
        assert(digits_of(cur as nat) =~= seq![digit_char(cur as nat)]);
        if v < 0 {
            assert(-(v as int) == magnitude as int);
        }
    }
    s
}

/// Whether two character vectors hold the same text.
pub fn same_chars(a: &Vec<char>, b: &Vec<char>) -> (r: bool)
    ensures
        r == (a@ == b@),
{
    if a.len() != b.len() {
        return false;
    }
    let mut i: usize = 0;
    while i < a.len()
        invariant
            a.len() == b.len(),
            i <= a.len(),
            forall|k: int| 0 <= k < i ==> a@[k] == b@[k],
        decreases a.len() - i,
    {
        if a[i] != b[i] {
            assert(a@[i as int] != b@[i as int]);
            return false;
        }
        i = i + 1;
    }
    assert(a@ =~= b@);
    true
}

proof fn lemma_digits_shape(n: nat)
    ensures
        digits_of(n).len() >= 1,
        n >= 10 ==> digits_of(n).len() >= 2,
        forall|k: int| 0 <= k < digits_of(n).len() ==> #[trigger] digits_of(n)[k] != '-',
    decreases n,
{
    if n >= 10 {
        lemma_digits_shape(n / 10);
        let d = digits_of(n / 10);
        assert forall|k: int| 0 <= k < digits_of(n).len() implies #[trigger] digits_of(n)[k] != '-' by {
            if k < d.len() {
                assert(digits_of(n)[k] == d[k]);
            }
        }
    }
}

proof fn lemma_digit_char_injective(a: nat, b: nat)
    requires
        a < 10,
        b < 10,
        digit_char(a) == digit_char(b),
    ensures
        a == b,
{
    let t = seq!['0', '1', '2', '3', '4', '5', '6', '7', '8', '9'];
    assert(t[0] == '0' && t[1] == '1' && t[2] == '2' && t[3] == '3' && t[4] == '4');
    assert(t[5] == '5' && t[6] == '6' && t[7] == '7' && t[8] == '8' && t[9] == '9');
}

proof fn lemma_digits_injective(n: nat, m: nat)
    requires
        digits_of(n) == digits_of(m),
    ensures
        n == m,
    decreases n,
{
    lemma_digits_shape(n);
    lemma_digits_shape(m);
    if n >= 10 && m >= 10 {
        let dn = digits_of(n);
        assert(dn.drop_last() =~= digits_of(n / 10));
        assert(digits_of(m).drop_last() =~= digits_of(m / 10));
        assert(dn.last() == digit_char(n % 10));
        assert(digits_of(m).last() == digit_char(m % 10));
        lemma_digit_char_injective(n % 10, m % 10);
        lemma_digits_injective(n / 10, m / 10);
    } else if n < 10 && m < 10 {
        assert(digits_of(n)[0] == digit_char(n));
        assert(digits_of(m)[0] == digit_char(m));
        lemma_digit_char_injective(n, m);
    }
}

/// Distinct integers have distinct decimal texts: the text gives the number back.
pub proof fn lemma_int_text_injective(a: int, b: int)
    requires
        int_text(a) == int_text(b),
    ensures
        a == b,
{
    if a < 0 && b < 0 {
        assert(int_text(a).drop_first() =~= digits_of((-a) as nat));
        assert(int_text(b).drop_first() =~= digits_of((-b) as nat));
        lemma_digits_injective((-a) as nat, (-b) as nat);
    } else if a >= 0 && b >= 0 {
        lemma_digits_injective(a as nat, b as nat);
    } else if a < 0 {
        lemma_digits_shape(b as nat);
        assert(int_text(a)[0] == '-');
        assert(int_text(b)[0] != '-');
    } else {
        lemma_digits_shape(a as nat);
        assert(int_text(b)[0] == '-');
        assert(int_text(a)[0] != '-');
    }
}

} // verus!
