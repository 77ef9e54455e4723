//! Laws of the text helpers.

use vstd::prelude::*;

use crate::text::{
    after_last_char, ascii_lowered, before_char, decimal, digit, find_from, has_infix, has_prefix,
    joined, lemma_sorts_total, lemma_sorts_transitive, lines_of, occurs_at, signed_decimal,
    sorts_before, trimmed, trimmed_end, trimmed_start, whitespace,
};

verus! {

proof fn lemma_trimmed_start(s: Seq<char>) -> (i: int)
    ensures
        0 <= i <= s.len(),
        trimmed_start(s) == s.skip(i),
        forall|k: int| 0 <= k < i ==> whitespace(#[trigger] s[k]),
        i < s.len() ==> !whitespace(s[i]),
    decreases s.len(),
{
    if s.len() > 0 && whitespace(s[0]) {
        let rest = s.skip(1);
        let i = lemma_trimmed_start(rest);
        assert(rest.skip(i) =~= s.skip(i + 1));
        assert forall|k: int| 0 <= k < i + 1 implies whitespace(#[trigger] s[k]) by {
            if k > 0 {
                assert(rest[k - 1] == s[k]);
            }
        }
        i + 1
    } else {
        assert(s.skip(0) =~= s);
        0
    }
}

proof fn lemma_trimmed_end(s: Seq<char>) -> (j: int)
    ensures
        0 <= j <= s.len(),
        trimmed_end(s) == s.take(j),
        forall|k: int| j <= k < s.len() ==> whitespace(#[trigger] s[k]),
        j > 0 ==> !whitespace(s[j - 1]),
    decreases s.len(),
{
    if s.len() > 0 && whitespace(s.last()) {
        let rest = s.drop_last();
        let j = lemma_trimmed_end(rest);
        assert(rest.take(j) =~= s.take(j));
        assert forall|k: int| j <= k < s.len() implies whitespace(#[trigger] s[k]) by {
            if k < rest.len() {
                assert(rest[k] == s[k]);
            }
        }
        j
    } else {
        assert(s.take(s.len() as int) =~= s);
        s.len() as int
    }
}

/// Trimming takes whitespace off both ends and nothing else: what is left is a
/// part of the text that neither begins nor ends with whitespace, and what is
/// gone is whitespace.
pub proof fn law_trimming_takes_whitespace_only(s: Seq<char>)
    ensures
        exists|i: int, j: int|
            #![trigger s.subrange(i, j)]
            0 <= i <= j <= s.len() && trimmed(s) == s.subrange(i, j) && (forall|k: int|
                0 <= k < i ==> whitespace(#[trigger] s[k])) && (forall|k: int|
                j <= k < s.len() ==> whitespace(#[trigger] s[k])) && (i < j ==> !whitespace(s[i])
                && !whitespace(s[j - 1])),
        exists|j: int|
            0 <= j <= s.len() && trimmed_end(s) == #[trigger] s.take(j) && (forall|k: int|
                j <= k < s.len() ==> whitespace(#[trigger] s[k])) && (j > 0 ==> !whitespace(
                s[j - 1],
            )),
{
    let i = lemma_trimmed_start(s);
    let t = s.skip(i);
    let n = lemma_trimmed_end(t);
    let j = if n == 0 {
        s.len() as int
    } else {
        i + n
    };
    if n == 0 {
        assert forall|k: int| 0 <= k < s.len() implies whitespace(#[trigger] s[k]) by {
            if k >= i {
                assert(t[k - i] == s[k]);
            }
        }
        assert(t.take(0) =~= s.subrange(0, 0));
        assert(trimmed(s) == s.subrange(0, 0));
    } else {
        assert(t.take(n) =~= s.subrange(i, j));
        assert forall|k: int| j <= k < s.len() implies whitespace(#[trigger] s[k]) by {
            assert(t[k - i] == s[k]);
        }
        assert(t[n - 1] == s[j - 1]);
        assert(trimmed(s) == s.subrange(i, j));
    }
    let e = lemma_trimmed_end(s);
    assert(trimmed_end(s) == s.take(e));
}

/// A text is blank exactly where it holds nothing but whitespace.
pub proof fn law_blank_texts_are_whitespace(s: Seq<char>)
    ensures
        trimmed(s).len() == 0 <==> forall|k: int|
            0 <= k < s.len() ==> whitespace(#[trigger] s[k]),
{
    let i = lemma_trimmed_start(s);
    let t = s.skip(i);
    let n = lemma_trimmed_end(t);
    if n == 0 {
        assert forall|k: int| 0 <= k < s.len() implies whitespace(#[trigger] s[k]) by {
            if k >= i {
                assert(t[k - i] == s[k]);
            }
        }
    } else {
        assert(t[n - 1] == s[i + n - 1]);
    }
}

/// Joining puts the separator between the parts and nowhere else: one part is
/// itself, and each further part follows a separator.
pub proof fn law_joining_separates_parts(parts: Seq<Seq<char>>, sep: Seq<char>, more: Seq<char>)
    ensures
        joined(Seq::empty(), sep).len() == 0,
        joined(seq![more], sep) == more,
        parts.len() > 0 ==> joined(parts.push(more), sep) == joined(parts, sep) + sep + more,
{
    assert(parts.push(more).drop_last() =~= parts);
}

/// A part put in front comes before the separator and the others.
proof fn lemma_joined_front(first: Seq<char>, parts: Seq<Seq<char>>, sep: Seq<char>)
    requires
        parts.len() > 0,
    ensures
        joined(seq![first] + parts, sep) == first + sep + joined(parts, sep),
    decreases parts.len(),
{
    let all = seq![first] + parts;
    if parts.len() == 1 {
        assert(all.drop_last() =~= seq![first]);
        assert(all.last() == parts[0]);
        assert(joined(seq![first], sep) == first);
        assert(joined(parts, sep) == parts[0]);
    } else {
        lemma_joined_front(first, parts.drop_last(), sep);
        assert(all.drop_last() =~= seq![first] + parts.drop_last());
        assert(all.last() == parts.last());
        assert(joined(all, sep) =~= first + sep + joined(parts, sep));
    }
}

/// A text begins with another where its first characters are those of the
/// other, and holds another where these stand somewhere in it.
pub proof fn law_parts_of_texts(s: Seq<char>, p: Seq<char>, rest: Seq<char>, head: Seq<char>)
    ensures
        has_prefix(s, p) <==> p.len() <= s.len() && forall|k: int|
            0 <= k < p.len() ==> s[k] == #[trigger] p[k],
        has_prefix(p + rest, p),
        has_infix(head + p + rest, p),
        has_infix(s, p) ==> p.len() <= s.len(),
{
    if p.len() <= s.len() && (forall|k: int| 0 <= k < p.len() ==> s[k] == #[trigger] p[k]) {
        assert(s.subrange(0, p.len() as int) =~= p);
    }
    if has_prefix(s, p) {
        assert forall|k: int| 0 <= k < p.len() implies s[k] == #[trigger] p[k] by {
            assert(s.subrange(0, p.len() as int)[k] == s[k]);
        }
    }
    assert((p + rest).subrange(0, p.len() as int) =~= p);
    assert((head + p + rest).subrange(
        head.len() as int,
        (head.len() + p.len()) as int,
    ) =~= p);
    assert(occurs_at(head + p + rest, p, head.len() as int));
}

/// A search finds the first occurrence from its start on, and finds one
/// wherever there is one.
pub proof fn law_search_finds_the_first(s: Seq<char>, p: Seq<char>, from: int)
    requires
        0 <= from,
    ensures
        find_from(s, p, from) is Some ==> find_from(s, p, from)->0 >= from && occurs_at(
            s,
            p,
            find_from(s, p, from)->0,
        ),
        forall|i: int|
            from <= i && #[trigger] occurs_at(s, p, i) ==> find_from(s, p, from) is Some
                && find_from(s, p, from)->0 <= i,
    decreases s.len() - from + 1,
{
    if from + p.len() <= s.len() && !occurs_at(s, p, from) {
        law_search_finds_the_first(s, p, from + 1);
    }
}

/// What stands before the first of a character holds none of it and is
/// followed by one, or is the whole text.
pub proof fn law_text_before_a_character(s: Seq<char>, c: char)
    ensures
        !before_char(s, c).contains(c),
        before_char(s, c).is_prefix_of(s),
        before_char(s, c).len() < s.len() ==> s[before_char(s, c).len() as int] == c,
    decreases s.len(),
{
    if s.len() > 0 && s[0] != c {
        let rest = s.skip(1);
        law_text_before_a_character(rest, c);
        let b = before_char(rest, c);
        let r = before_char(s, c);
        assert(r =~= seq![s[0]] + b);
        assert(r =~= s.take(r.len() as int)) by {
            assert(b =~= rest.take(b.len() as int));
            assert forall|k: int| 0 <= k < r.len() implies r[k] == s[k] by {
                if k > 0 {
                    assert(b[k - 1] == rest[k - 1]);
                }
            }
        }
        if r.contains(c) {
            let k = choose|k: int| 0 <= k < r.len() && r[k] == c;
            assert(b[k - 1] == c);
        }
        if r.len() < s.len() {
            assert(rest[b.len() as int] == s[r.len() as int]);
        }
    }
}

/// What stands behind the last of a character holds none of it and follows one,
/// or is the whole text.
pub proof fn law_text_behind_a_character(s: Seq<char>, c: char)
    ensures
        !after_last_char(s, c).contains(c),
        after_last_char(s, c).len() <= s.len(),
        after_last_char(s, c) == s.skip(s.len() - after_last_char(s, c).len()),
        after_last_char(s, c).len() < s.len() ==> s[s.len() - after_last_char(s, c).len() - 1]
            == c,
    decreases s.len(),
{
    if s.len() > 0 && s.last() != c {
        let rest = s.drop_last();
        law_text_behind_a_character(rest, c);
        let b = after_last_char(rest, c);
        let r = after_last_char(s, c);
        assert(r == b.push(s.last()));
        if r.contains(c) {
            let k = choose|k: int| 0 <= k < r.len() && r[k] == c;
            assert(b[k] == c);
        }
        assert(r =~= s.skip(s.len() - r.len())) by {
            assert forall|k: int| 0 <= k < r.len() implies r[k] == s[s.len() - r.len() + k] by {
                if k < b.len() {
                    assert(b[k] == rest.skip(rest.len() - b.len())[k]);
                }
            }
        }
    } else {
        assert(after_last_char(s, c) =~= s.skip(s.len() as int));
    }
}

/// The lines of a text without carriage returns give the text back: joined by
/// line feeds they are the text, but for a line feed at its end. No line holds
/// a line feed.
pub proof fn law_lines_give_the_text_back(s: Seq<char>)
    requires
        !s.contains('\r'),
    ensures
        s.len() > 0 && s.last() != '\n' ==> joined(lines_of(s), seq!['\n']) == s,
        s.len() > 0 && s.last() == '\n' ==> joined(lines_of(s), seq!['\n']).push('\n') == s,
        s.len() == 0 <==> lines_of(s).len() == 0,
        forall|i: int| 0 <= i < lines_of(s).len() ==> !(#[trigger] lines_of(s)[i]).contains('\n'),
    decreases s.len(),
{
    let head = before_char(s, '\n');
    law_text_before_a_character(s, '\n');
    let sep = seq!['\n'];
    if s.len() == 0 {
    } else if head.len() >= s.len() {
        assert(head =~= s);
        assert(s.last() != '\n') by {
            if s.last() == '\n' {
                assert(head[s.len() - 1] == '\n');
            }
        }
    } else {
        let n = head.len() as int;
        let rest = s.skip(n + 1);
        assert(!rest.contains('\r')) by {
            if rest.contains('\r') {
                let k = choose|k: int| 0 <= k < rest.len() && rest[k] == '\r';
                assert(s[n + 1 + k] == '\r');
            }
        }
        assert(head.len() > 0 ==> head.last() != '\r') by {
            if head.len() > 0 && head.last() == '\r' {
                assert(s[n - 1] == '\r');
            }
        }
        law_lines_give_the_text_back(rest);
        let tail = lines_of(rest);
        assert(lines_of(s) == seq![head] + tail);
        assert forall|i: int| 0 <= i < lines_of(s).len() implies !(
        #[trigger] lines_of(s)[i]).contains('\n') by {
            if i > 0 {
                assert(lines_of(s)[i] == tail[i - 1]);
            }
        }
        if tail.len() == 0 {
            assert(rest.len() == 0);
            assert(lines_of(s) =~= seq![head]);
            assert(head.push('\n') =~= s);
        } else {
            lemma_joined_front(head, tail, sep);
            assert(rest.last() == s.last());
            if s.last() != '\n' {
                assert(head + sep + rest =~= s);
            } else {
                assert((head + sep + joined(tail, sep)).push('\n') =~= head + sep + joined(
                    tail,
                    sep,
                ).push('\n'));
                assert(head + sep + rest =~= s);
            }
        }
    }
}

/// The number that decimal digits stand for.
pub open spec fn number_of(s: Seq<char>) -> int
    decreases s.len(),
{
    if s.len() == 0 {
        0
    } else {
        10 * number_of(s.drop_last()) + (s.last() as int - 48)
    }
}

/// A number in decimal notation is read back: it has digits only, none of them
/// a leading zero, and they stand for the number.
pub proof fn law_decimal_is_read_back(n: nat)
    ensures
        number_of(decimal(n)) == n,
        decimal(n).len() > 0,
        forall|i: int| 0 <= i < decimal(n).len() ==> '0' <= #[trigger] decimal(n)[i] <= '9',
        n > 0 ==> decimal(n)[0] != '0',
    decreases n,
{
    let d = decimal(n);
    if n < 10 {
        assert(d.drop_last() =~= Seq::<char>::empty());
        assert(number_of(d.drop_last()) == 0);
        assert(digit(n as int) as int == 48 + n);
    } else {
        law_decimal_is_read_back(n / 10);
        assert(d.drop_last() =~= decimal(n / 10));
        assert(digit((n % 10) as int) as int == 48 + n % 10);
        assert(number_of(d) == 10 * (n / 10) + n % 10);
    }
}

/// A negative number is its magnitude behind a minus sign.
pub proof fn law_signed_decimal_is_read_back(n: int)
    ensures
        n >= 0 ==> number_of(signed_decimal(n)) == n,
        n < 0 ==> signed_decimal(n)[0] == '-' && number_of(signed_decimal(n).skip(1)) == -n,
{
    if n < 0 {
        law_decimal_is_read_back((-n) as nat);
        assert(signed_decimal(n).skip(1) =~= decimal((-n) as nat));
    } else {
        law_decimal_is_read_back(n as nat);
    }
}

/// Lower case changes ASCII capitals alone, each to its small letter.
pub proof fn law_lower_case_changes_capitals(s: Seq<char>, i: int)
    requires
        0 <= i < s.len(),
    ensures
        ascii_lowered(s).len() == s.len(),
        'A' <= s[i] <= 'Z' ==> ascii_lowered(s)[i] as int == s[i] as int + 32,
        !('A' <= s[i] <= 'Z') ==> ascii_lowered(s)[i] == s[i],
        !('A' <= ascii_lowered(s)[i] <= 'Z'),
{
    if 'A' <= s[i] <= 'Z' {
        assert((s[i] as int + 32) as char as int == s[i] as int + 32);
    }
}

/// The order of texts is an order: of two different texts exactly one stands
/// before the other, and what stands before one stands before all behind it.
pub proof fn law_texts_are_ordered(a: Seq<char>, b: Seq<char>, c: Seq<char>)
    ensures
        !sorts_before(a, a),
        a != b ==> sorts_before(a, b) || sorts_before(b, a),
        sorts_before(a, b) ==> !sorts_before(b, a),
        sorts_before(a, b) && sorts_before(b, c) ==> sorts_before(a, c),
{
    lemma_sorts_total(a, a);
    lemma_sorts_total(a, b);
    if sorts_before(a, b) && sorts_before(b, a) {
        lemma_sorts_transitive(a, b, a);
    }
    if sorts_before(a, b) && sorts_before(b, c) {
        lemma_sorts_transitive(a, b, c);
    }
}

/// Texts are ordered by the first character in which they differ; a text
/// stands before those that go on from it.
pub proof fn law_first_difference_decides(a: Seq<char>, b: Seq<char>, k: int)
    requires
        0 <= k <= a.len(),
        k < b.len(),
        forall|i: int| 0 <= i < k ==> a[i] == #[trigger] b[i],
        k < a.len() ==> a[k] != b[k],
    ensures
        k == a.len() ==> sorts_before(a, b),
        k < a.len() ==> (sorts_before(a, b) <==> a[k] < b[k]),
    decreases k,
{
    if k > 0 {
        assert(a[0] == b[0]);
        assert forall|i: int| 0 <= i < k - 1 implies a.skip(1)[i] == #[trigger] b.skip(1)[i] by {
            assert(a[i + 1] == b[i + 1]);
        }
        law_first_difference_decides(a.skip(1), b.skip(1), k - 1);
    }
}

} // verus!
