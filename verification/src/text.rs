//! Small building blocks for the string-producing functions of this crate:
//! conversion between `&str`/`String` and `Vec<char>`, and verified decimal
//! formatting of integers.

use vstd::prelude::*;

verus! {

/// Relies on String::push: appends exactly the one character.
#[verifier::external_body]
pub fn push_char(s: &mut String, c: char)
    ensures
        final(s)@ == old(s)@.push(c),
{
    s.push(c)
}

/// Relies on str::from_utf8: succeeds exactly on valid UTF-8, decoding it.
#[verifier::external_body]
pub fn bytes_to_str(v: &Vec<u8>) -> (r: Option<&str>)
    ensures
        r is Some <==> vstd::utf8::valid_utf8(v@),
        r matches Some(s) ==> s@ == vstd::utf8::decode_utf8(v@),
{
    std::str::from_utf8(v.as_slice()).ok()
}

/// The characters of a string slice, as a vector.
pub fn str_chars(s: &str) -> (r: Vec<char>)
    ensures
        r@ == s@,
{
    let n = s.unicode_len();
    let mut r: Vec<char> = Vec::new();
    let mut i: usize = 0;
    while i < n
        invariant
            i <= n,
            n == s@.len(),
            r@ == s@.take(i as int),
        decreases n - i,
    {
        r.push(s.get_char(i));
        i = i + 1;
        proof {
            assert(r@ =~= s@.take(i as int));
        }
    }
    proof {
        assert(r@ =~= s@);
    }
    r
}

/// A string holding exactly the given characters.
pub fn chars_to_string(v: &Vec<char>) -> (r: String)
    ensures
        r@ == v@,
{
    let mut r = String::new();
    let mut i: usize = 0;
    while i < v.len()
        invariant
            i <= v@.len(),
            r@ == v@.take(i as int),
        decreases v@.len() - i,
    {
        push_char(&mut r, v[i]);
        i = i + 1;
        proof {
            assert(r@ =~= v@.take(i as int));
        }
    }
    proof {
        assert(r@ =~= v@);
    }
    r
}

/// The character for a single decimal digit.
pub open spec fn spec_digit_char(d: int) -> char {
    if d == 0 {
        '0'
    } else if d == 1 {
        '1'
    } else if d == 2 {
        '2'
    } else if d == 3 {
        '3'
    } else if d == 4 {
        '4'
    } else if d == 5 {
        '5'
    } else if d == 6 {
        '6'
    } else if d == 7 {
        '7'
    } else if d == 8 {
        '8'
    } else {
        '9'
    }
}

/// The decimal digits of `n`, with no leading zero; empty for 0.
pub open spec fn spec_digits(n: nat) -> Seq<char>
    decreases n,
{
    if n == 0 {
        Seq::empty()
    } else {
        spec_digits(n / 10).push(spec_digit_char((n % 10) as int))
    }
}

/// The usual decimal rendering of a natural number.
pub open spec fn spec_nat_str(n: nat) -> Seq<char> {
    if n == 0 {
        seq!['0']
    } else {
        spec_digits(n)
    }
}

/// The usual decimal rendering of an integer, with a leading `-` when negative.
pub open spec fn spec_int_str(n: int) -> Seq<char> {
    if n < 0 {
        seq!['-'] + spec_nat_str((-n) as nat)
    } else {
        spec_nat_str(n as nat)
    }
}

fn append_digits(n: u128, out: &mut String)
    ensures
        final(out)@ == old(out)@ + spec_digits(n as nat),
    decreases n,
{
    if n == 0 {
        proof {
            assert(out@ =~= out@ + spec_digits(0));
        }
        return ;
    }
    append_digits(n / 10, out);
    let d = (n % 10) as u8;
    let c = if d == 0 {
        '0'
    } else if d == 1 {
        '1'
    } else if d == 2 {
        '2'
    } else if d == 3 {
        '3'
    } else if d == 4 {
        '4'
    } else if d == 5 {
        '5'
    } else if d == 6 {
        '6'
    } else if d == 7 {
        '7'
    } else if d == 8 {
        '8'
    } else {
        '9'
    };
    assert(c == spec_digit_char((n as nat % 10) as int));
    push_char(out, c);
    proof {
        assert(out@ =~= old(out)@ + spec_digits(n as nat));
    }
}

/// Decimal rendering of an unsigned number.
pub fn u128_to_string(n: u128) -> (r: String)
    ensures
        r@ == spec_nat_str(n as nat),
{
    let mut out = String::new();
    if n == 0 {
        push_char(&mut out, '0');
        proof {
            assert(out@ =~= spec_nat_str(0));
        }
        return out;
    }
    append_digits(n, &mut out);
    proof {
        assert(out@ =~= spec_nat_str(n as nat));
    }
    out
}

/// Where a character first occurs, if it occurs.
pub open spec fn spec_find_char(s: Seq<char>, c: char) -> Option<int>
    decreases s.len(),
{
    if s.len() == 0 {
        Option::None
    } else if s[0] == c {
        Option::Some(0)
    } else {
        match spec_find_char(s.drop_first(), c) {
            Option::Some(i) => Option::Some(i + 1),
            Option::None => Option::None,
        }
    }
}

/// The fragments of a string split at a separator, separators dropped,
/// empty fragments kept: splitting `"a\nb"` at `'\n'` gives `["a", "b"]`,
/// splitting `"\n"` gives `["", ""]`. There is always at least one
/// fragment.
pub open spec fn spec_split(s: Seq<char>, sep: char) -> Seq<Seq<char>>
    decreases s.len(),
{
    if s.len() == 0 {
        seq![Seq::<char>::empty()]
    } else if s.last() == sep {
        spec_split(s.drop_last(), sep).push(Seq::<char>::empty())
    } else {
        let r = spec_split(s.drop_last(), sep);
        r.update(r.len() - 1, r.last().push(s.last()))
    }
}

/// Splitting yields at least one fragment.
pub proof fn lemma_split_nonempty(s: Seq<char>, sep: char)
    ensures
        spec_split(s, sep).len() >= 1,
    decreases s.len(),
{
    if s.len() > 0 {
        lemma_split_nonempty(s.drop_last(), sep);
    }
}

/// Split the characters at a separator; fragments come back in order, with
/// empty fragments kept.
pub fn split_chars(v: &Vec<char>, sep: char) -> (r: Vec<Vec<char>>)
    ensures
        r@.map_values(|p: Vec<char>| p@) == spec_split(v@, sep),
{
    let mut parts: Vec<Vec<char>> = Vec::new();
    let mut cur: Vec<char> = Vec::new();
    let mut i: usize = 0;
    proof {
        assert(v@.take(0) =~= Seq::<char>::empty());
        assert(parts@.map_values(|p: Vec<char>| p@).push(cur@) =~= spec_split(v@.take(0), sep));
    }
    while i < v.len()
        invariant
            i <= v@.len(),
            parts@.map_values(|p: Vec<char>| p@).push(cur@) == spec_split(v@.take(i as int), sep),
        decreases v@.len() - i,
    {
        let ghost pv = parts@.map_values(|p: Vec<char>| p@);
        let c = v[i];
        proof {
            assert(v@.take(i + 1).drop_last() =~= v@.take(i as int));
            assert(v@.take(i + 1).last() == v@[i as int]);
        }
        if c == sep {
            parts.push(cur);
            cur = Vec::new();
            proof {
                assert(parts@.map_values(|p: Vec<char>| p@) =~= pv.push(spec_split(
                    v@.take(i as int),
                    sep,
                ).last()));
                assert(parts@.map_values(|p: Vec<char>| p@).push(cur@) =~= spec_split(
                    v@.take(i + 1),
                    sep,
                ));
            }
        } else {
            let ghost oc = cur@;
            cur.push(c);
            proof {
                let prev = spec_split(v@.take(i as int), sep);
                assert(prev == pv.push(oc));
                assert(prev.last() == oc);
                assert(cur@ == oc.push(c));
                assert(prev.update(prev.len() - 1, prev.last().push(c)) =~= pv.push(cur@));
                assert(parts@.map_values(|p: Vec<char>| p@).push(cur@) =~= spec_split(
                    v@.take(i + 1),
                    sep,
                ));
            }
        }
        i = i + 1;
    }
    proof {
        assert(v@.take(v@.len() as int) =~= v@);
    }
    parts.push(cur);
    proof {
        lemma_split_nonempty(v@, sep);
        assert(parts@.map_values(|p: Vec<char>| p@) =~= spec_split(v@, sep));
    }
    parts
}

/// Whether the characters contain a given one.
pub fn contains_char(v: &Vec<char>, c: char) -> (r: bool)
    ensures
        r == v@.contains(c),
{
    let mut i: usize = 0;
    while i < v.len()
        invariant
            i <= v@.len(),
            forall|k: int| 0 <= k < i ==> v@[k] != c,
        decreases v@.len() - i,
    {
        if v[i] == c {
            assert(v@.contains(c));
            return true;
        }
        i = i + 1;
    }
    proof {
        if v@.contains(c) {
            let k = choose|k: int| 0 <= k < v@.len() && v@[k] == c;
            assert(v@[k] != c);
        }
    }
    false
}

/// Decimal rendering of a signed number.
pub fn i64_to_string(n: i64) -> (r: String)
    ensures
        r@ == spec_int_str(n as int),
{
    if n < 0 {
        let mut out = String::new();
        push_char(&mut out, '-');
        let m: u128 = (-(n as i128)) as u128;
        assert(m as nat == (-(n as int)) as nat);
        append_digits(m, &mut out);
        proof {
            assert(spec_nat_str(m as nat) == spec_digits(m as nat));
            assert(out@ =~= spec_int_str(n as int));
        }
        out
    } else {
        let r = u128_to_string(n as u128);
        r
    }
}

} // verus!
