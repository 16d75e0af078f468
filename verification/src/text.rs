//! Small string-building helpers shared by the rest of the library.

use vstd::prelude::*;

verus! {

/// Appends one character to a string (std's `String::push`).
#[verifier::external_body]
pub(crate) fn push_char(s: &mut String, c: char)
    ensures
        final(s)@ == old(s)@.push(c),
{
    s.push(c);
}

/// Appends the characters of `part` to `s`.
pub fn push_str(s: &mut String, part: &str)
    ensures
        final(s)@ == old(s)@ + part@,
{
    let n = part.unicode_len();
    let ghost start = s@;
    let mut i: usize = 0;
    while i < n
        invariant
            n == part@.len(),
            i <= n,
            s@ == start + part@.subrange(0, i as int),
        decreases n - i,
    {
        let c = part.get_char(i);
        push_char(s, c);
        i = i + 1;
        assert(part@.subrange(0, i as int) =~= part@.subrange(0, i - 1 as int).push(c));
    }
    assert(part@.subrange(0, n as int) =~= part@);
}

/// The parts one after another, with `sep` between each two of them.
pub open spec fn join(parts: Seq<Seq<char>>, sep: Seq<char>) -> Seq<char>
    decreases parts.len(),
{
    if parts.len() == 0 {
        Seq::empty()
    } else if parts.len() == 1 {
        parts[0]
    } else {
        join(parts.drop_last(), sep) + sep + parts.last()
    }
}

/// The character views of a sequence of strings.
pub open spec fn views(strings: Seq<String>) -> Seq<Seq<char>> {
    strings.map_values(|s: String| s@)
}

/// `n` copies of `c`.
pub open spec fn repeat_char(c: char, n: nat) -> Seq<char> {
    Seq::new(n, |_i: int| c)
}

/// `s` followed by enough spaces to make it `width` characters long, or `s`
/// itself where it is that long already.
pub open spec fn pad_right(s: Seq<char>, width: nat) -> Seq<char> {
    if s.len() < width {
        s + repeat_char(' ', (width - s.len()) as nat)
    } else {
        s
    }
}

/// The length of a text in bytes once encoded as UTF-8, as `str::len`
/// reports it.
pub open spec fn byte_len(s: Seq<char>) -> usize {
    vstd::utf8::encode_utf8(s).len() as usize
}

/// Appends `n` copies of `c` to `s`.
pub fn push_repeated(s: &mut String, c: char, n: usize)
    ensures
        final(s)@ == old(s)@ + repeat_char(c, n as nat),
{
    let ghost start = s@;
    let mut i: usize = 0;
    while i < n
        invariant
            i <= n,
            s@ == start + repeat_char(c, i as nat),
        decreases n - i,
    {
        push_char(s, c);
        i = i + 1;
        assert(start + repeat_char(c, i as nat) =~= (start + repeat_char(c, (i - 1) as nat)).push(c));
    }
}

/// The text of `s` padded with spaces on the right to `width` characters,
/// as `format!("{:width$}", s)` writes it.
pub fn pad_to_width(s: &str, width: usize) -> (r: String)
    ensures
        r@ == pad_right(s@, width as nat),
{
    let mut r = String::new();
    push_str(&mut r, s);
    let n = s.unicode_len();
    if n < width {
        push_repeated(&mut r, ' ', width - n);
    }
    assert(r@ =~= pad_right(s@, width as nat));
    r
}

/// The strings one after another with `sep` between each two of them, as
/// `parts.join(sep)` writes them.
pub fn join_strings(parts: &[String], sep: &str) -> (r: String)
    ensures
        r@ == join(views(parts@), sep@),
{
    let mut r = String::new();
    let n = parts.len();
    let ghost all = views(parts@);
    let mut i: usize = 0;
    while i < n
        invariant
            n == parts@.len(),
            all == views(parts@),
            i <= n,
            r@ == join(all.subrange(0, i as int), sep@),
        decreases n - i,
    {
        let ghost before = r@;
        if i > 0 {
            push_str(&mut r, sep);
        }
        push_str(&mut r, parts[i].as_str());
        proof {
            let next = all.subrange(0, i + 1);
            assert(next.drop_last() =~= all.subrange(0, i as int));
            assert(next.last() == parts@[i as int]@);
            if i == 0 {
                assert(r@ =~= join(next, sep@));
            } else {
                assert(r@ =~= join(next, sep@));
            }
        }
        i = i + 1;
    }
    assert(all.subrange(0, n as int) =~= all);
    r
}

/// Whether the UTF-8 encoding of a text has a length that a `usize` can
/// hold, as that of every string in memory has.
pub open spec fn encodable(s: Seq<char>) -> bool {
    vstd::utf8::encode_utf8(s).len() <= usize::MAX
}

/// A text is at least as many bytes long as it has characters.
pub proof fn lemma_byte_len_at_least_chars(s: Seq<char>)
    requires
        encodable(s),
    ensures
        s.len() <= byte_len(s),
{
    lemma_encode_len(s);
}

proof fn lemma_encode_len(s: Seq<char>)
    ensures
        s.len() <= vstd::utf8::encode_utf8(s).len(),
    decreases s.len(),
{
    if s.len() > 0 {
        lemma_encode_len(s.drop_first());
    }
}

/// Joining parts of pairwise equal lengths with the same separator gives
/// texts of equal length.
pub proof fn lemma_join_len(a: Seq<Seq<char>>, b: Seq<Seq<char>>, sep: Seq<char>)
    requires
        a.len() == b.len(),
        forall|i: int| 0 <= i < a.len() ==> (#[trigger] a[i]).len() == b[i].len(),
    ensures
        join(a, sep).len() == join(b, sep).len(),
    decreases a.len(),
{
    if a.len() > 1 {
        lemma_join_len(a.drop_last(), b.drop_last(), sep);
    }
}

/// Joining the same parts with separators of equal length gives texts of
/// equal length.
pub proof fn lemma_join_sep_len(a: Seq<Seq<char>>, sep1: Seq<char>, sep2: Seq<char>)
    requires
        sep1.len() == sep2.len(),
    ensures
        join(a, sep1).len() == join(a, sep2).len(),
    decreases a.len(),
{
    if a.len() > 1 {
        lemma_join_sep_len(a.drop_last(), sep1, sep2);
    }
}

/// Whether `c` has the Unicode `White_Space` property, the test of
/// `char::is_whitespace`.
pub open spec fn is_white_space(c: char) -> bool {
    let u = c as u32;
    (0x9 <= u && u <= 0xd) || u == 0x20 || u == 0x85 || u == 0xa0 || u == 0x1680 || (0x2000 <= u
        && u <= 0x200a) || u == 0x2028 || u == 0x2029 || u == 0x202f || u == 0x205f || u == 0x3000
}

/// Whether `c` has the Unicode `White_Space` property.
pub fn white_space(c: char) -> (r: bool)
    ensures
        r == is_white_space(c),
{
    let u = c as u32;
    (0x9 <= u && u <= 0xd) || u == 0x20 || u == 0x85 || u == 0xa0 || u == 0x1680 || (0x2000 <= u
        && u <= 0x200a) || u == 0x2028 || u == 0x2029 || u == 0x202f || u == 0x205f || u == 0x3000
}

/// `s` without the white space at its end, as `str::trim_end` gives it.
pub open spec fn trim_end_spec(s: Seq<char>) -> Seq<char>
    decreases s.len(),
{
    if s.len() > 0 && is_white_space(s.last()) {
        trim_end_spec(s.drop_last())
    } else {
        s
    }
}

proof fn lemma_trim_end_prefix(s: Seq<char>, k: int)
    requires
        0 <= k <= s.len(),
        forall|j: int| k <= j < s.len() ==> is_white_space(#[trigger] s[j]),
    ensures
        trim_end_spec(s) == trim_end_spec(s.subrange(0, k)),
    decreases s.len() - k,
{
    if k < s.len() {
        assert(s.subrange(0, s.len() - 1) =~= s.drop_last());
        lemma_trim_end_prefix(s.drop_last(), k);
        assert(s.drop_last().subrange(0, k) =~= s.subrange(0, k));
    } else {
        assert(s.subrange(0, k) =~= s);
    }
}

/// The text of `s` without the white space at its end.
pub fn trim_end(s: &str) -> (r: String)
    ensures
        r@ == trim_end_spec(s@),
{
    let mut k = s.unicode_len();
    while k > 0 && white_space(s.get_char(k - 1))
        invariant
            k <= s@.len(),
            forall|j: int| k <= j < s@.len() ==> is_white_space(#[trigger] s@[j]),
        decreases k,
    {
        k = k - 1;
    }
    proof {
        lemma_trim_end_prefix(s@, k as int);
    }
    let mut r = String::new();
    push_str(&mut r, s.substring_char(0, k));
    assert(r@ =~= s@.subrange(0, k as int));
    r
}

/// Trimming the end of a text that has been trimmed leaves it as it is.
pub proof fn law_trim_end_idempotent(s: Seq<char>)
    ensures
        trim_end_spec(trim_end_spec(s)) == trim_end_spec(s),
    decreases s.len(),
{
    if s.len() > 0 && is_white_space(s.last()) {
        law_trim_end_idempotent(s.drop_last());
    }
}

/// The sum of the lengths of the parts.
pub open spec fn total_len(parts: Seq<Seq<char>>) -> int {
    parts.fold_left(0int, |acc: int, p: Seq<char>| acc + p.len())
}

/// Joining puts `sep` exactly once between each two consecutive parts and
/// nowhere else: no parts give nothing, one part gives itself, and more
/// parts give the first part, `sep`, then the others joined. So the joined
/// text is as long as the parts together plus one separator fewer than
/// there are parts.
pub proof fn law_join_separates_each_two_parts(parts: Seq<Seq<char>>, sep: Seq<char>)
    ensures
        parts.len() == 0 ==> join(parts, sep) == Seq::<char>::empty(),
        parts.len() == 1 ==> join(parts, sep) == parts[0],
        parts.len() >= 2 ==> join(parts, sep) == parts[0] + sep + join(parts.drop_first(), sep),
        parts.len() >= 1 ==> join(parts, sep).len() == total_len(parts) + (parts.len() - 1) * sep.len(),
    decreases parts.len(),
{
    if parts.len() >= 1 {
        law_join_separates_each_two_parts(parts.drop_last(), sep);
        assert(total_len(parts) == total_len(parts.drop_last()) + parts.last().len());
        if parts.len() == 1 {
            assert(parts.drop_last() =~= Seq::<Seq<char>>::empty());
        } else {
            let n = parts.len() as int;
            assert((n - 1) * sep.len() == (n - 2) * sep.len() + sep.len()) by (nonlinear_arith);
            if parts.len() == 2 {
                assert(parts.drop_first() =~= seq![parts[1]]);
                assert(parts.drop_last() =~= seq![parts[0]]);
                assert(join(parts, sep) =~= parts[0] + sep + join(parts.drop_first(), sep));
            } else {
                let rest = parts.drop_first();
                assert(parts.drop_last().drop_first() =~= rest.drop_last());
                assert(parts.drop_last()[0] == parts[0]);
                assert(rest.last() == parts.last());
                assert(join(rest, sep) == join(rest.drop_last(), sep) + sep + rest.last());
                assert(join(parts, sep) =~= parts[0] + sep + join(rest, sep));
            }
        }
    }
}

/// The code points with the Unicode `White_Space` property (PropList.txt):
/// tab, line feed, line tabulation, form feed, carriage return, space,
/// next line, no-break space, ogham space mark, the spaces from en quad to
/// hair space, line separator, paragraph separator, narrow no-break space,
/// medium mathematical space and ideographic space.
pub open spec fn white_space_code_points() -> Set<u32> {
    set![
        0x9u32, 0xau32, 0xbu32, 0xcu32, 0xdu32, 0x20u32, 0x85u32, 0xa0u32, 0x1680u32,
        0x2000u32, 0x2001u32, 0x2002u32, 0x2003u32, 0x2004u32, 0x2005u32, 0x2006u32, 0x2007u32,
        0x2008u32, 0x2009u32, 0x200au32, 0x2028u32, 0x2029u32, 0x202fu32, 0x205fu32, 0x3000u32,
    ]
}

/// The white-space test holds of exactly the characters with the Unicode
/// `White_Space` property, as `char::is_whitespace` does: carriage return
/// and the other ASCII white space included.
pub proof fn law_white_space_is_unicode_white_space(c: char)
    ensures
        is_white_space(c) <==> white_space_code_points().contains(c as u32),
{
}

/// Trimming the end drops exactly the white space at the end: what is left
/// is the start of the text, every character dropped has the Unicode
/// `White_Space` property, and what is left does not end in one that has.
pub proof fn law_trim_end_drops_exactly_trailing_white_space(s: Seq<char>)
    ensures
        trim_end_spec(s).len() <= s.len(),
        trim_end_spec(s) == s.subrange(0, trim_end_spec(s).len() as int),
        forall|j: int| trim_end_spec(s).len() <= j < s.len() ==> white_space_code_points().contains(
            #[trigger] s[j] as u32,
        ),
        trim_end_spec(s).len() == 0 || !white_space_code_points().contains(
            trim_end_spec(s).last() as u32,
        ),
    decreases s.len(),
{
    let t = trim_end_spec(s);
    if s.len() > 0 && is_white_space(s.last()) {
        let d = s.drop_last();
        law_trim_end_drops_exactly_trailing_white_space(d);
        law_white_space_is_unicode_white_space(s.last());
        assert(t == trim_end_spec(d));
        assert(t =~= s.subrange(0, t.len() as int));
        assert forall|j: int| t.len() <= j < s.len() implies white_space_code_points().contains(
            #[trigger] s[j] as u32,
        ) by {
            if j < s.len() - 1 {
                assert(s[j] == d[j]);
            }
        }
    } else {
        assert(t == s);
        assert(s.subrange(0, s.len() as int) =~= s);
        if s.len() > 0 {
            law_white_space_is_unicode_white_space(s.last());
        }
    }
}

/// Whether two texts are the same, character for character.
pub fn same_text(a: &str, b: &str) -> (r: bool)
    ensures
        r == (a@ == b@),
{
    let n = a.unicode_len();
    if n != b.unicode_len() {
        return false;
    }
    let mut i: usize = 0;
    while i < n
        invariant
            n == a@.len(),
            n == b@.len(),
            i <= n,
            forall|j: int| 0 <= j < i ==> a@[j] == b@[j],
        decreases n - i,
    {
        if a.get_char(i) != b.get_char(i) {
            return false;
        }
        i = i + 1;
    }
    assert(a@ =~= b@);
    true
}

} // verus!
