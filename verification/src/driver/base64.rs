//! Base64 in the standard alphabet, and the escape sequence that hands text to
//! the clipboard of a terminal.

use vstd::prelude::*;

use vstd::utf8::encode_utf8;

verus! {

/// The character for six bits.
pub open spec fn letter(n: int) -> char {
    if n < 26 {
        (65 + n) as char
    } else if n < 52 {
        (97 + n - 26) as char
    } else if n < 62 {
        (48 + n - 52) as char
    } else if n == 62 {
        '+'
    } else {
        '/'
    }
}

/// The six bits of a character.
pub open spec fn bits_of(c: char) -> int {
    if 65 <= c as int <= 90 {
        c as int - 65
    } else if 97 <= c as int <= 122 {
        c as int - 97 + 26
    } else if 48 <= c as int <= 57 {
        c as int - 48 + 52
    } else if c == '+' {
        62
    } else {
        63
    }
}

/// Bytes in base64: four characters for each three bytes, the last group
/// filled up with `=`.
pub open spec fn base64(s: Seq<u8>) -> Seq<char>
    decreases s.len(),
{
    if s.len() == 0 {
        Seq::empty()
    } else if s.len() == 1 {
        seq![letter(s[0] as int / 4), letter((s[0] as int % 4) * 16), '=', '=']
    } else if s.len() == 2 {
        seq![
            letter(s[0] as int / 4),
            letter((s[0] as int % 4) * 16 + s[1] as int / 16),
            letter((s[1] as int % 16) * 4),
            '=',
        ]
    } else {
        seq![
            letter(s[0] as int / 4),
            letter((s[0] as int % 4) * 16 + s[1] as int / 16),
            letter((s[1] as int % 16) * 4 + s[2] as int / 64),
            letter(s[2] as int % 64),
        ] + base64(s.skip(3))
    }
}

/// The bytes that a text in base64 stands for.
pub open spec fn unbase64(t: Seq<char>) -> Seq<u8>
    decreases t.len(),
{
    if t.len() < 4 {
        Seq::empty()
    } else {
        let a = bits_of(t[0]);
        let b = bits_of(t[1]);
        let c = bits_of(t[2]);
        let d = bits_of(t[3]);
        let first = (a * 4 + b / 16) as u8;
        let second = ((b % 16) * 16 + c / 4) as u8;
        let third = ((c % 4) * 64 + d) as u8;
        if t[2] == '=' {
            seq![first]
        } else if t[3] == '=' {
            seq![first, second]
        } else {
            seq![first, second, third] + unbase64(t.skip(4))
        }
    }
}

proof fn lemma_letter(n: int)
    requires
        0 <= n < 64,
    ensures
        bits_of(letter(n)) == n,
        letter(n) != '=',
{
}

/// Base64 loses nothing, and has four characters for each three bytes begun.
pub proof fn law_base64_is_undone(s: Seq<u8>)
    ensures
        unbase64(base64(s)) == s,
        base64(s).len() == (s.len() + 2) / 3 * 4,
    decreases s.len(),
{
    if s.len() == 1 {
        let x = s[0] as int;
        lemma_letter(x / 4);
        lemma_letter((x % 4) * 16);
        assert(unbase64(base64(s)) =~= s);
    } else if s.len() == 2 {
        let x = s[0] as int;
        let y = s[1] as int;
        lemma_letter(x / 4);
        lemma_letter((x % 4) * 16 + y / 16);
        lemma_letter((y % 16) * 4);
        assert(unbase64(base64(s)) =~= s);
    } else if s.len() > 2 {
        let x = s[0] as int;
        let y = s[1] as int;
        let z = s[2] as int;
        lemma_letter(x / 4);
        lemma_letter((x % 4) * 16 + y / 16);
        lemma_letter((y % 16) * 4 + z / 64);
        lemma_letter(z % 64);
        law_base64_is_undone(s.skip(3));
        let t = base64(s);
        assert(t.skip(4) =~= base64(s.skip(3)));
        assert(unbase64(t) =~= seq![s[0], s[1], s[2]] + unbase64(t.skip(4)));
        assert(unbase64(t) =~= s);
    }
}

fn letter_of(n: u8) -> (c: char)
    requires
        n < 64,
    ensures
        c == letter(n as int),
{
    if n < 26 {
        (65u8 + n) as char
    } else if n < 52 {
        (97u8 + (n - 26)) as char
    } else if n < 62 {
        (48u8 + (n - 52)) as char
    } else if n == 62 {
        '+'
    } else {
        '/'
    }
}

/// Bytes in base64.
pub fn base64_encode(data: &[u8]) -> (r: String)
    ensures
        r@ == base64(data@),
{
    let mut out = String::new();
    let mut i: usize = 0;
    let ghost all = base64(data@);
    assert(data@.skip(0) =~= data@);
    assert(out@ + base64(data@) =~= all);
    while i < data.len()
        invariant
            i <= data@.len(),
            all == base64(data@),
            out@ + base64(data@.skip(i as int)) == all,
        decreases data@.len() - i,
    {
        let ghost rest = data@.skip(i as int);
        let ghost before = out@;
        let left: usize = data.len() - i;
        let b0: u8 = data[i];
        assert(rest[0] == b0);
        out.push(letter_of(b0 / 4));
        if left == 1 {
            out.push(letter_of((b0 % 4) * 16));
            out.push('=');
            out.push('=');
            i = i + 1;
            assert(data@.skip(i as int) =~= Seq::empty());
            assert(out@ + base64(data@.skip(i as int)) =~= before + base64(rest));
        } else if left == 2 {
            let b1: u8 = data[i + 1];
            assert(rest[1] == b1);
            out.push(letter_of((b0 % 4) * 16 + b1 / 16));
            out.push(letter_of((b1 % 16) * 4));
            out.push('=');
            i = i + 2;
            assert(data@.skip(i as int) =~= Seq::empty());
            assert(out@ + base64(data@.skip(i as int)) =~= before + base64(rest));
        } else {
            let b1: u8 = data[i + 1];
            let b2: u8 = data[i + 2];
            assert(rest[1] == b1);
            assert(rest[2] == b2);
            out.push(letter_of((b0 % 4) * 16 + b1 / 16));
            out.push(letter_of((b1 % 16) * 4 + b2 / 64));
            out.push(letter_of(b2 % 64));
            i = i + 3;
            assert(data@.skip(i as int) =~= rest.skip(3));
            assert(out@ + base64(data@.skip(i as int)) =~= before + base64(rest));
        }
    }
    assert(data@.skip(i as int) =~= Seq::empty());
    assert(out@ + base64(data@.skip(i as int)) =~= out@);
    out
}

/// The escape sequence that hands a text to the clipboard of the terminal.
pub fn osc52(text: &str) -> (r: String)
    ensures
        r@ == "\x1b]52;c;"@ + base64(encode_utf8(text@)) + "\x07"@,
{
    let code = base64_encode(text.as_bytes());
    crate::text::cat3("\x1b]52;c;", code.as_str(), "\x07")
}

/// Six bits are a capital, a small letter, a digit, a plus or a slash, in this
/// order.
pub proof fn law_letters_stand_in_their_order(n: int)
    requires
        0 <= n < 64,
    ensures
        n < 26 ==> letter(n) as int == 'A' as int + n,
        26 <= n < 52 ==> letter(n) as int == 'a' as int + n - 26,
        52 <= n < 62 ==> letter(n) as int == '0' as int + n - 52,
        n == 62 ==> letter(n) == '+',
        n == 63 ==> letter(n) == '/',
{
}

proof fn lemma_six_bits(a: int, b: int, c: int)
    requires
        0 <= a < 256,
        0 <= b < 256,
        0 <= c < 256,
    ensures
        ({
            let n = a * 65536 + b * 256 + c;
            &&& n / 262144 == a / 4
            &&& n / 4096 % 64 == (a % 4) * 16 + b / 16
            &&& n / 64 % 64 == (b % 16) * 4 + c / 64
            &&& n % 64 == c % 64
        }),
{
    let n = a * 65536 + b * 256 + c;
    assert(n / 262144 == a / 4) by {
        assert(n == 262144 * (a / 4) + ((a % 4) * 65536 + b * 256 + c));
    }
    assert(n / 4096 == 16 * a + b / 16) by {
        assert(n == 4096 * (16 * a + b / 16) + ((b % 16) * 256 + c));
    }
    assert(n / 64 == 1024 * a + 4 * b + c / 64) by {
        assert(n == 64 * (1024 * a + 4 * b + c / 64) + c % 64);
    }
    assert((16 * a + b / 16) % 64 == (a % 4) * 16 + b / 16) by {
        assert(16 * a + b / 16 == 64 * (a / 4) + ((a % 4) * 16 + b / 16));
    }
    assert((1024 * a + 4 * b + c / 64) % 64 == (b % 16) * 4 + c / 64) by {
        assert(1024 * a + 4 * b + c / 64 == 64 * (16 * a + b / 16) + ((b % 16) * 4 + c / 64));
    }
}

/// Three bytes are four letters of six bits each, first bits first; what is
/// left over is filled up.
pub proof fn law_bytes_are_cut_into_six_bits(a: u8, b: u8, c: u8, rest: Seq<u8>)
    ensures
        ({
            let t = base64(seq![a, b, c] + rest);
            let n = a as int * 65536 + b as int * 256 + c as int;
            &&& t[0] == letter(n / 262144)
            &&& t[1] == letter(n / 4096 % 64)
            &&& t[2] == letter(n / 64 % 64)
            &&& t[3] == letter(n % 64)
            &&& t.skip(4) == base64(rest)
        }),
        base64(seq![a]).len() == 4 && base64(seq![a])[2] == '=' && base64(seq![a])[3] == '=',
        base64(seq![a, b]).len() == 4 && base64(seq![a, b])[3] == '=',
{
    let s = seq![a, b, c] + rest;
    assert(s.skip(3) =~= rest);
    lemma_six_bits(a as int, b as int, c as int);
    assert(base64(s).skip(4) =~= base64(rest));
}

} // verus!
