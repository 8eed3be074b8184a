use vstd::prelude::*;
use vstd::string::StrSliceExecFns;

verus! {

/// Relies on `String::push`: appends exactly the one given character at the
/// end of the string.
#[verifier::external_body]
pub(crate) fn push_char(s: &mut String, c: char) -> (r: ())
    ensures
        final(s)@ == old(s)@ + seq![c],
{
    s.push(c)
}

/// The sixteen hexadecimal digit characters, lower case.
pub open spec fn hex_char(d: nat) -> char {
    if d == 0 {
        '0'
    } else if d == 1 {
        '1'
    } else if d == 2 {
        '2'
    } else if d == 3 {
        '3'
    } else if d == 4 {
        '4'
    } else if d == 5 {
        '5'
    } else if d == 6 {
        '6'
    } else if d == 7 {
        '7'
    } else if d == 8 {
        '8'
    } else if d == 9 {
        '9'
    } else if d == 10 {
        'a'
    } else if d == 11 {
        'b'
    } else if d == 12 {
        'c'
    } else if d == 13 {
        'd'
    } else if d == 14 {
        'e'
    } else {
        'f'
    }
}

/// Executable form of `hex_char`.
pub fn hex_char_of(d: u64) -> (c: char)
    requires
        d < 16,
    ensures
        c == hex_char(d as nat),
{
    if d == 0 {
        '0'
    } else if d == 1 {
        '1'
    } else if d == 2 {
        '2'
    } else if d == 3 {
        '3'
    } else if d == 4 {
        '4'
    } else if d == 5 {
        '5'
    } else if d == 6 {
        '6'
    } else if d == 7 {
        '7'
    } else if d == 8 {
        '8'
    } else if d == 9 {
        '9'
    } else if d == 10 {
        'a'
    } else if d == 11 {
        'b'
    } else if d == 12 {
        'c'
    } else if d == 13 {
        'd'
    } else if d == 14 {
        'e'
    } else {
        'f'
    }
}

/// How one character stands inside a JSON string literal: the quote and the
/// backslash behind a backslash, control characters as a four-digit
/// hexadecimal escape, every other character as itself.
pub open spec fn escape_char(c: char) -> Seq<char> {
    if c == '"' {
        seq!['\\', '"']
    } else if c == '\\' {
        seq!['\\', '\\']
    } else if (c as u32) < 32 {
        seq!['\\', 'u', '0', '0', hex_char(((c as u32) / 16) as nat), hex_char(((c as u32) % 16) as nat)]
    } else {
        seq![c]
    }
}

/// The characters of `s`, each escaped for a JSON string literal.
pub open spec fn spec_escaped(s: Seq<char>) -> Seq<char>
    decreases s.len(),
{
    if s.len() == 0 {
        Seq::empty()
    } else {
        spec_escaped(s.drop_last()) + escape_char(s.last())
    }
}

/// The JSON string literal holding `s`: quoted and escaped.
pub open spec fn spec_quoted(s: Seq<char>) -> Seq<char> {
    seq!['"'] + spec_escaped(s) + seq!['"']
}

/// Append the characters of `s`, escaped for a JSON string literal.
pub fn append_escaped(out: &mut String, s: &str)
    ensures
        final(out)@ == old(out)@ + spec_escaped(s@),
{
    let n = s.unicode_len();
    let mut i: usize = 0;
    proof {
        assert(s@.take(0) =~= Seq::<char>::empty());
        assert(out@ + spec_escaped(s@.take(0)) =~= out@);
    }
    while i < n
        invariant
            n == s@.len(),
            i <= n,
            out@ == old(out)@ + spec_escaped(s@.take(i as int)),
        decreases n - i,
    {
        let c = s.get_char(i);
        let code = c as u32;
        if c == '"' {
            push_char(out, '\\');
            push_char(out, '"');
        } else if c == '\\' {
            push_char(out, '\\');
            push_char(out, '\\');
        } else if code < 32 {
            push_char(out, '\\');
            push_char(out, 'u');
            push_char(out, '0');
            push_char(out, '0');
            push_char(out, hex_char_of((code / 16) as u64));
            push_char(out, hex_char_of((code % 16) as u64));
        } else {
            push_char(out, c);
        }
        proof {
            assert(s@.take(i + 1).drop_last() =~= s@.take(i as int));
            assert(s@.take(i + 1).last() == s@[i as int]);
            assert(out@ =~= old(out)@ + spec_escaped(s@.take(i + 1)));
        }
        i += 1;
    }
    proof {
        assert(s@.take(n as int) =~= s@);
    }
}

/// Append the JSON string literal holding `s`.
pub fn append_quoted(out: &mut String, s: &str)
    ensures
        final(out)@ == old(out)@ + spec_quoted(s@),
{
    push_char(out, '"');
    append_escaped(out, s);
    push_char(out, '"');
    proof {
        assert(out@ =~= old(out)@ + spec_quoted(s@));
    }
}

/// The sequence read back to front.
pub open spec fn seq_rev<A>(s: Seq<A>) -> Seq<A>
    decreases s.len(),
{
    if s.len() == 0 {
        Seq::empty()
    } else {
        seq![s.last()] + seq_rev(s.drop_last())
    }
}

proof fn lemma_seq_rev_index<A>(s: Seq<A>)
    ensures
        seq_rev(s).len() == s.len(),
        forall|k: int| #![auto] 0 <= k < s.len() ==> seq_rev(s)[k] == s[s.len() - 1 - k],
    decreases s.len(),
{
    if s.len() > 0 {
        lemma_seq_rev_index(s.drop_last());
    }
}

/// The decimal digits of `n`, most significant first.
pub open spec fn spec_decimal(n: nat) -> Seq<char>
    decreases n,
{
    if n < 10 {
        seq![hex_char(n)]
    } else {
        spec_decimal(n / 10) + seq![hex_char(n % 10)]
    }
}

/// Append the decimal digits of `n`.
pub fn append_decimal(out: &mut String, n: u64)
    ensures
        final(out)@ == old(out)@ + spec_decimal(n as nat),
{
    let mut digits: Vec<char> = Vec::new();
    let mut m: u64 = n;
    proof {
        assert(seq_rev(digits@) =~= Seq::<char>::empty());
        assert(spec_decimal(n as nat) + seq_rev(digits@) =~= spec_decimal(n as nat));
    }
    while m >= 10
        invariant
            spec_decimal(n as nat) == spec_decimal(m as nat) + seq_rev(digits@),
        decreases m,
    {
        let ghost digits_before = digits@;
        let d = m % 10;
        digits.push(hex_char_of(d));
        m = m / 10;
        proof {
            assert(digits@.drop_last() =~= digits_before);
            assert(digits@.last() == hex_char(d as nat));
            assert(seq_rev(digits@) =~= seq![hex_char(d as nat)] + seq_rev(digits_before));
            assert(spec_decimal(n as nat) =~= spec_decimal(m as nat) + seq_rev(digits@));
        }
    }
    let ghost digits_before = digits@;
    digits.push(hex_char_of(m));
    proof {
        assert(digits@.drop_last() =~= digits_before);
        assert(spec_decimal(m as nat) =~= seq![hex_char(m as nat)]);
        assert(seq_rev(digits@) =~= seq![hex_char(m as nat)] + seq_rev(digits_before));
        assert(spec_decimal(n as nat) =~= seq_rev(digits@));
        lemma_seq_rev_index(digits@);
    }
    let total = digits.len();
    let mut k: usize = 0;
    proof {
        assert(seq_rev(digits@).take(0) =~= Seq::<char>::empty());
        assert(out@ + seq_rev(digits@).take(0) =~= out@);
    }
    while k < total
        invariant
            total == digits@.len(),
            k <= total,
            seq_rev(digits@).len() == total,
            forall|j: int| #![auto]
                0 <= j < total ==> seq_rev(digits@)[j] == digits@[total - 1 - j],
            spec_decimal(n as nat) == seq_rev(digits@),
            out@ == old(out)@ + seq_rev(digits@).take(k as int),
        decreases total - k,
    {
        push_char(out, digits[total - 1 - k]);
        proof {
            assert(seq_rev(digits@).take(k + 1).drop_last() =~= seq_rev(digits@).take(k as int));
            assert(seq_rev(digits@).take(k + 1).last() == seq_rev(digits@)[k as int]);
            assert(out@ =~= old(out)@ + seq_rev(digits@).take(k + 1));
        }
        k += 1;
    }
    proof {
        assert(seq_rev(digits@).take(total as int) =~= seq_rev(digits@));
    }
}

} // verus!
