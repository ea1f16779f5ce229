use vstd::prelude::*;

verus! {

/// The directory the frame images are written to.
pub const DEFAULT_PNGS_PATH: &'static str = "../pngs";

/// The least number of digits in a frame file name.
pub const NAME_DIGITS: usize = 5;

/// The character of a decimal digit.
pub open spec fn digit_char(d: nat) -> char {
    if d == 0 {
        '0'
    } else if d == 1 {
        '1'
    } else if d == 2 {
        '2'
    } else if d == 3 {
        '3'
    } else if d == 4 {
        '4'
    } else if d == 5 {
        '5'
    } else if d == 6 {
        '6'
    } else if d == 7 {
        '7'
    } else if d == 8 {
        '8'
    } else {
        '9'
    }
}

/// The decimal digits of `n`, most significant first, padded with zeros to at least
/// `min` digits. Zero with no padding has no digits.
pub open spec fn padded_digits(n: nat, min: nat) -> Seq<char>
    decreases n, min,
{
    if n == 0 && min == 0 {
        Seq::empty()
    } else {
        padded_digits(n / 10, if min > 0 {
            (min - 1) as nat
        } else {
            0
        }).push(digit_char(n % 10))
    }
}

/// The file extension of a frame image.
pub open spec fn png_extension() -> Seq<char> {
    seq!['.', 'p', 'n', 'g']
}

/// The file name of frame `id`: its number written with at least five digits, then `.png`.
pub open spec fn frame_file_name(id: nat) -> Seq<char> {
    padded_digits(id, NAME_DIGITS as nat) + png_extension()
}

/// The path of frame `id` inside the default image directory.
pub open spec fn frame_path(id: nat) -> Seq<char> {
    seq!['.', '.', '/', 'p', 'n', 'g', 's', '/'] + frame_file_name(id)
}

pub open spec fn pow10(w: nat) -> nat
    decreases w,
{
    if w == 0 {
        1
    } else {
        10 * pow10((w - 1) as nat)
    }
}

/// `s` comes strictly before `t` in character order, position by position.
pub open spec fn lex_less(s: Seq<char>, t: Seq<char>) -> bool {
    exists|i: int|
        0 <= i < s.len() && i < t.len() && s.take(i) == t.take(i) && (s[i] as u32) < (
        t[i] as u32)
}

proof fn lemma_div10_bounds(a: nat, b: nat, p: nat)
    requires
        a < b,
        b < 10 * p,
    ensures
        a / 10 <= b / 10,
        b / 10 < p,
        a / 10 == b / 10 ==> a % 10 < b % 10,
        a % 10 < 10,
        b % 10 < 10,
{
}

proof fn lemma_digit_char_order(x: nat, y: nat)
    requires
        x < y < 10,
    ensures
        (digit_char(x) as u32) < (digit_char(y) as u32),
{
}

proof fn lemma_padded_len(n: nat, w: nat)
    requires
        n < pow10(w),
    ensures
        padded_digits(n, w).len() == w,
    decreases w,
{
    if w == 0 {
        assert(n == 0);
    } else {
        assert(n / 10 < pow10((w - 1) as nat));
        lemma_padded_len(n / 10, (w - 1) as nat);
    }
}

proof fn lemma_padded_order(a: nat, b: nat, w: nat)
    requires
        a < b < pow10(w),
    ensures
        lex_less(padded_digits(a, w), padded_digits(b, w)),
    decreases w,
{
    if w == 0 {
        assert(false);
    } else {
        let v = (w - 1) as nat;
        lemma_div10_bounds(a, b, pow10(v));
        let pa = padded_digits(a / 10, v);
        let pb = padded_digits(b / 10, v);
        let sa = padded_digits(a, w);
        let sb = padded_digits(b, w);
        assert(sa == pa.push(digit_char(a % 10)));
        assert(sb == pb.push(digit_char(b % 10)));
        lemma_padded_len(a / 10, v);
        lemma_padded_len(b / 10, v);
        if a / 10 < b / 10 {
            lemma_padded_order(a / 10, b / 10, v);
            let i = choose|i: int|
                0 <= i < pa.len() && i < pb.len() && pa.take(i) == pb.take(i) && (pa[i] as u32) < (
                pb[i] as u32);
            assert(sa.take(i) =~= pa.take(i));
            assert(sb.take(i) =~= pb.take(i));
            assert(sa[i] == pa[i] && sb[i] == pb[i]);
        } else {
            lemma_digit_char_order(a % 10, b % 10);
            let i = v as int;
            assert(sa.take(i) =~= pa);
            assert(sb.take(i) =~= pb);
            assert(sa[i] == digit_char(a % 10));
            assert(sb[i] == digit_char(b % 10));
        }
    }
}

proof fn lemma_pow10_5()
    ensures
        pow10(5) == 100000,
{
    assert(pow10(0) == 1);
    assert(pow10(1) == 10);
    assert(pow10(2) == 100);
    assert(pow10(3) == 1000);
    assert(pow10(4) == 10000);
}

/// Every frame id below 100000 gets a name of exactly five digits followed by `.png`.
pub proof fn lemma_file_name_has_five_digits(id: nat)
    requires
        id < 100000,
    ensures
        padded_digits(id, NAME_DIGITS as nat).len() == 5,
        frame_file_name(id).len() == 9,
        frame_file_name(id).subrange(5, 9) == png_extension(),
{
    lemma_pow10_5();
    lemma_padded_len(id, 5);
    assert(frame_file_name(id).subrange(5, 9) =~= png_extension());
}

/// Up to id 99999, sorting frame file names by their characters sorts them by id.
pub proof fn lemma_file_names_sort_as_ids(a: nat, b: nat)
    requires
        a < b < 100000,
    ensures
        lex_less(frame_file_name(a), frame_file_name(b)),
{
    lemma_pow10_5();
    lemma_padded_order(a, b, 5);
    lemma_padded_len(a, 5);
    lemma_padded_len(b, 5);
    let pa = padded_digits(a, 5);
    let pb = padded_digits(b, 5);
    let i = choose|i: int|
        0 <= i < pa.len() && i < pb.len() && pa.take(i) == pb.take(i) && (pa[i] as u32) < (
        pb[i] as u32);
    let fa = frame_file_name(a);
    let fb = frame_file_name(b);
    assert(fa.take(i) =~= pa.take(i));
    assert(fb.take(i) =~= pb.take(i));
    assert(fa[i] == pa[i] && fb[i] == pb[i]);
}

fn digit_str(d: usize) -> (r: &'static str)
    requires
        d < 10,
    ensures
        r@ == seq![digit_char(d as nat)],
{
    if d == 0 {
        proof {
            reveal_strlit("0");
        }
        "0"
    } else if d == 1 {
        proof {
            reveal_strlit("1");
        }
        "1"
    } else if d == 2 {
        proof {
            reveal_strlit("2");
        }
        "2"
    } else if d == 3 {
        proof {
            reveal_strlit("3");
        }
        "3"
    } else if d == 4 {
        proof {
            reveal_strlit("4");
        }
        "4"
    } else if d == 5 {
        proof {
            reveal_strlit("5");
        }
        "5"
    } else if d == 6 {
        proof {
            reveal_strlit("6");
        }
        "6"
    } else if d == 7 {
        proof {
            reveal_strlit("7");
        }
        "7"
    } else if d == 8 {
        proof {
            reveal_strlit("8");
        }
        "8"
    } else {
        proof {
            reveal_strlit("9");
        }
        "9"
    }
}

/// Appends the digits of `n`, padded with zeros to at least `min` digits.
pub(crate) fn append_padded_digits(out: &mut String, n: usize, min: usize)
    ensures
        final(out)@ == old(out)@ + padded_digits(n as nat, min as nat),
{
    let mut rev: Vec<usize> = Vec::new();
    let mut m: usize = n;
    let mut rem: usize = min;
    let ghost tail: Seq<char> = Seq::empty();
    while m > 0 || rem > 0
        invariant
            padded_digits(n as nat, min as nat) == padded_digits(m as nat, rem as nat) + tail,
            tail.len() == rev@.len(),
            forall|i: int| 0 <= i < rev@.len() ==> #[trigger] rev@[i] < 10,
            forall|i: int|
                0 <= i < rev@.len() ==> tail[i] == digit_char(#[trigger] rev@[rev@.len() - 1 - i] as nat),
        decreases m, rem,
    {
        let d = m % 10;
        let ghost old_tail = tail;
        let ghost old_rev = rev@;
        proof {
            let next_rem: nat = if rem > 0 {
                (rem - 1) as nat
            } else {
                0
            };
            assert(padded_digits(m as nat, rem as nat) == padded_digits((m / 10) as nat, next_rem).push(
                digit_char((m % 10) as nat),
            ));
            tail = seq![digit_char(d as nat)] + old_tail;
            assert(padded_digits((m / 10) as nat, next_rem).push(digit_char(d as nat)) + old_tail
                =~= padded_digits((m / 10) as nat, next_rem) + tail);
        }
        rev.push(d);
        proof {
            assert forall|i: int| 0 <= i < rev@.len() implies tail[i] == digit_char(
                #[trigger] rev@[rev@.len() - 1 - i] as nat,
            ) by {
                if i > 0 {
                    assert(rev@[rev@.len() - 1 - i] == old_rev[old_rev.len() - 1 - (i - 1)]);
                }
            };
        }
        m = m / 10;
        if rem > 0 {
            rem = rem - 1;
        }
    }
    assert(padded_digits(0, 0) =~= Seq::<char>::empty());
    assert(padded_digits(n as nat, min as nat) =~= tail);
    let ghost start = out@;
    let mut k: usize = rev.len();
    while k > 0
        invariant
            k <= rev@.len(),
            tail.len() == rev@.len(),
            forall|i: int| 0 <= i < rev@.len() ==> #[trigger] rev@[i] < 10,
            forall|i: int|
                0 <= i < rev@.len() ==> tail[i] == digit_char(#[trigger] rev@[rev@.len() - 1 - i] as nat),
            out@ == start + tail.take(rev@.len() - k),
        decreases k,
    {
        k = k - 1;
        let s = digit_str(rev[k]);
        out.append(s);
        proof {
            let j = rev@.len() - 1 - k;
            assert(tail[j] == digit_char(rev@[rev@.len() - 1 - j] as nat));
            assert(tail.take(j + 1) =~= tail.take(j).push(tail[j]));
        }
    }
    assert(tail.take(rev@.len() as int) =~= tail);
}

/// The file name of frame `id`: its number with at least five digits, zero-padded, then
/// `.png`. Up to id 99999 the names have exactly five digits, so that they sort as the
/// ids do; larger ids keep all their digits.
pub fn frame_file_name_string(id: usize) -> (r: String)
    ensures
        r@ == frame_file_name(id as nat),
{
    let mut out = String::new();
    append_padded_digits(&mut out, id, NAME_DIGITS);
    proof {
        reveal_strlit(".png");
    }
    out.append(".png");
    out
}

/// The path of frame `id`'s image in the default image directory.
pub fn id_to_path_string(id: usize) -> (r: String)
    ensures
        r@ == frame_path(id as nat),
{
    proof {
        reveal_strlit("../pngs/");
    }
    let mut out = String::from_str("../pngs/");
    let name = frame_file_name_string(id);
    out.append(name.as_str());
    proof {
        assert(out@ =~= frame_path(id as nat));
    }
    out
}

} // verus!
