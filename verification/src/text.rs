//! Character-level model of the ASCII protocol text: whitespace, trimming and
//! separator splitting, each with an executable counterpart.
use vstd::prelude::*;

verus! {

/// The Unicode `White_Space` property (the set that `char::is_whitespace` and
/// `str::trim` use).
pub open spec fn is_white_space(c: char) -> bool {
    let u = c as u32;
    ||| 0x09 <= u <= 0x0d
    ||| u == 0x20
    ||| u == 0x85
    ||| u == 0xa0
    ||| u == 0x1680
    ||| 0x2000 <= u <= 0x200a
    ||| u == 0x2028
    ||| u == 0x2029
    ||| u == 0x202f
    ||| u == 0x205f
    ||| u == 0x3000
}

/// `s` without its leading white space.
pub open spec fn trim_start(s: Seq<char>) -> Seq<char>
    decreases s.len(),
{
    if s.len() > 0 && is_white_space(s[0]) {
        trim_start(s.drop_first())
    } else {
        s
    }
}

/// `s` without its trailing white space.
pub open spec fn trim_end(s: Seq<char>) -> Seq<char>
    decreases s.len(),
{
    if s.len() > 0 && is_white_space(s.last()) {
        trim_end(s.drop_last())
    } else {
        s
    }
}

/// `s` without leading and trailing white space.
pub open spec fn trim(s: Seq<char>) -> Seq<char> {
    trim_end(trim_start(s))
}

/// The pieces of `s` between occurrences of `sep`; there is always at least
/// one piece, and `k` separators give `k + 1` pieces.
pub open spec fn split(s: Seq<char>, sep: char) -> Seq<Seq<char>>
    decreases s.len(),
{
    if s.len() == 0 {
        seq![Seq::<char>::empty()]
    } else {
        let prev = split(s.drop_last(), sep);
        if s.last() == sep {
            prev.push(Seq::<char>::empty())
        } else {
            prev.update(prev.len() - 1, prev.last().push(s.last()))
        }
    }
}

/// The views of a sequence of strings.
pub open spec fn strings_view(v: Seq<String>) -> Seq<Seq<char>> {
    Seq::new(v.len(), |i: int| v[i]@)
}

/// Joins `pieces` with `sep` between each two of them.
pub open spec fn join(pieces: Seq<Seq<char>>, sep: char) -> Seq<char>
    decreases pieces.len(),
{
    if pieces.len() == 0 {
        Seq::<char>::empty()
    } else if pieces.len() == 1 {
        pieces[0]
    } else {
        join(pieces.drop_last(), sep).push(sep) + pieces.last()
    }
}

pub proof fn lemma_split_nonempty(s: Seq<char>, sep: char)
    ensures
        split(s, sep).len() >= 1,
    decreases s.len(),
{
    if s.len() > 0 {
        lemma_split_nonempty(s.drop_last(), sep);
    }
}

/// A sequence without the separator splits into itself alone.
pub proof fn lemma_split_no_sep(s: Seq<char>, sep: char)
    requires
        !s.contains(sep),
    ensures
        split(s, sep) == seq![s],
    decreases s.len(),
{
    if s.len() > 0 {
        let t = s.drop_last();
        assert(!t.contains(sep)) by {
            if t.contains(sep) {
                let k = choose|k: int| 0 <= k < t.len() && t[k] == sep;
                assert(s[k] == sep);
            }
        }
        lemma_split_no_sep(t, sep);
        assert(s.last() != sep) by {
            assert(s[s.len() - 1] == s.last());
        }
        assert(t.push(s.last()) =~= s);
        assert(seq![t].update(0, t.push(s.last())) =~= seq![s]);
    } else {
        assert(s =~= Seq::<char>::empty());
    }
}

/// Splitting `a`, a separator, then `b` gives the pieces of `a` followed by
/// the pieces of `b`.
pub proof fn lemma_split_append(a: Seq<char>, b: Seq<char>, sep: char)
    ensures
        split(a.push(sep) + b, sep) == split(a, sep) + split(b, sep),
    decreases b.len(),
{
    lemma_split_nonempty(a, sep);
    if b.len() == 0 {
        assert(a.push(sep) + b =~= a.push(sep));
        assert(a.push(sep).drop_last() =~= a);
        assert(split(a, sep).push(Seq::<char>::empty()) =~= split(a, sep) + split(b, sep));
    } else {
        let s = a.push(sep) + b;
        assert(s.drop_last() =~= a.push(sep) + b.drop_last());
        assert(s.last() == b.last());
        lemma_split_append(a, b.drop_last(), sep);
        lemma_split_nonempty(b.drop_last(), sep);
        let pa = split(a, sep);
        let pb = split(b.drop_last(), sep);
        if b.last() == sep {
            assert((pa + pb).push(Seq::<char>::empty()) =~= pa + pb.push(Seq::<char>::empty()));
        } else {
            let pr = pa + pb;
            assert(pr.update(pr.len() - 1, pr.last().push(b.last())) =~= pa + pb.update(
                pb.len() - 1,
                pb.last().push(b.last()),
            ));
        }
    }
}

/// Joining pieces without the separator and splitting again gives the pieces back.
pub proof fn lemma_split_join(pieces: Seq<Seq<char>>, sep: char)
    requires
        pieces.len() >= 1,
        forall|i: int| 0 <= i < pieces.len() ==> !(#[trigger] pieces[i]).contains(sep),
    ensures
        split(join(pieces, sep), sep) == pieces,
    decreases pieces.len(),
{
    if pieces.len() == 1 {
        lemma_split_no_sep(pieces[0], sep);
        assert(seq![pieces[0]] =~= pieces);
    } else {
        let init = pieces.drop_last();
        assert forall|i: int| 0 <= i < init.len() implies !(#[trigger] init[i]).contains(sep) by {
            assert(init[i] == pieces[i]);
        }
        lemma_split_join(init, sep);
        lemma_split_no_sep(pieces.last(), sep);
        lemma_split_append(join(init, sep), pieces.last(), sep);
        assert(init + seq![pieces.last()] =~= pieces);
    }
}

/// Trimming a sequence that holds no white space keeps it.
pub proof fn lemma_trim_no_white_space(s: Seq<char>)
    requires
        forall|i: int| 0 <= i < s.len() ==> !is_white_space(#[trigger] s[i]),
    ensures
        trim(s) == s,
{
    if s.len() > 0 {
        assert(!is_white_space(s[s.len() - 1]));
    }
}

proof fn lemma_trim_start_len(s: Seq<char>)
    ensures
        trim_start(s).len() <= s.len(),
        trim_start(s).len() == s.len() ==> trim_start(s) == s,
    decreases s.len(),
{
    if s.len() > 0 && is_white_space(s[0]) {
        lemma_trim_start_len(s.drop_first());
    }
}

proof fn lemma_trim_end_len(s: Seq<char>)
    ensures
        trim_end(s).len() <= s.len(),
        trim_end(s).len() == s.len() ==> trim_end(s) == s,
    decreases s.len(),
{
    if s.len() > 0 && is_white_space(s.last()) {
        lemma_trim_end_len(s.drop_last());
    }
}

/// A sequence is its own trim exactly when it is empty or neither ends in white space.
pub proof fn lemma_trim_fixed(s: Seq<char>)
    ensures
        trim(s) == s <==> (s.len() == 0 || (!is_white_space(s[0]) && !is_white_space(s.last()))),
{
    lemma_trim_start_len(s);
    lemma_trim_end_len(trim_start(s));
    if s.len() > 0 && is_white_space(s[0]) {
        lemma_trim_start_len(s.drop_first());
    }
    if s.len() > 0 && !is_white_space(s[0]) && is_white_space(s.last()) {
        lemma_trim_end_len(s.drop_last());
    }
}

/// Joining pieces that lack a character `c` other than the separator gives a
/// sequence that lacks `c`.
pub proof fn lemma_join_lacks(pieces: Seq<Seq<char>>, sep: char, c: char)
    requires
        c != sep,
        forall|i: int| 0 <= i < pieces.len() ==> !(#[trigger] pieces[i]).contains(c),
    ensures
        !join(pieces, sep).contains(c),
    decreases pieces.len(),
{
    if pieces.len() >= 2 {
        let init = pieces.drop_last();
        assert forall|i: int| 0 <= i < init.len() implies !(#[trigger] init[i]).contains(c) by {
            assert(init[i] == pieces[i]);
        }
        lemma_join_lacks(init, sep, c);
        let j = join(init, sep).push(sep);
        let s = j + pieces.last();
        if s.contains(c) {
            let k = choose|k: int| 0 <= k < s.len() && s[k] == c;
            if k < j.len() - 1 {
                assert(join(init, sep)[k] == c);
            } else if k >= j.len() {
                assert(pieces.last()[k - j.len()] == c);
            }
        }
    }
}

/// Joining pieces that are their own trim, with a separator that is not white
/// space, gives a sequence that is its own trim.
pub proof fn lemma_join_trimmed(pieces: Seq<Seq<char>>, sep: char)
    requires
        !is_white_space(sep),
        forall|i: int| 0 <= i < pieces.len() ==> trim(#[trigger] pieces[i]) == pieces[i],
    ensures
        trim(join(pieces, sep)) == join(pieces, sep),
    decreases pieces.len(),
{
    if pieces.len() == 1 {
        assert(trim(pieces[0]) == pieces[0]);
    } else if pieces.len() >= 2 {
        let init = pieces.drop_last();
        assert forall|i: int| 0 <= i < init.len() implies trim(#[trigger] init[i]) == init[i] by {
            assert(init[i] == pieces[i]);
        }
        lemma_join_trimmed(init, sep);
        let a = join(init, sep);
        let last = pieces.last();
        assert(trim(pieces[pieces.len() - 1]) == pieces[pieces.len() - 1]);
        lemma_trim_fixed(a);
        lemma_trim_fixed(last);
        let s = a.push(sep) + last;
        if a.len() > 0 {
            assert(s[0] == a[0]);
        } else {
            assert(s[0] == sep);
        }
        if last.len() > 0 {
            assert(s.last() == last.last());
        } else {
            assert(s.last() == sep);
        }
        lemma_trim_fixed(s);
    }
}

/// Executable `char::is_whitespace`.
pub fn is_white_space_char(c: char) -> (r: bool)
    ensures
        r == is_white_space(c),
{
    let u = c as u32;
    (0x09 <= u && u <= 0x0d) || u == 0x20 || u == 0x85 || u == 0xa0 || u == 0x1680 || (0x2000
        <= u && u <= 0x200a) || u == 0x2028 || u == 0x2029 || u == 0x202f || u == 0x205f || u
        == 0x3000
}

/// Collects the characters of a string slice.
pub fn chars_of(s: &str) -> (r: Vec<char>)
    ensures
        r@ == s@,
{
    let mut r: Vec<char> = Vec::new();
    for c in it: s.chars()
        invariant
            r@ == it.seq().take(it.index() as int),
    {
        r.push(c);
    }
    r
}

/// The bounds of `chars[lo..hi]` with leading and trailing white space removed.
pub fn trim_range(chars: &Vec<char>, lo: usize, hi: usize) -> (r: (usize, usize))
    requires
        lo <= hi <= chars.len(),
    ensures
        lo <= r.0 <= r.1 <= hi,
        chars@.subrange(r.0 as int, r.1 as int) == trim(chars@.subrange(lo as int, hi as int)),
{
    let mut a = lo;
    while a < hi && is_white_space_char(chars[a])
        invariant
            lo <= a <= hi <= chars.len(),
            trim_start(chars@.subrange(lo as int, hi as int)) == trim_start(
                chars@.subrange(a as int, hi as int),
            ),
        decreases hi - a,
    {
        assert(chars@.subrange(a as int, hi as int).drop_first() =~= chars@.subrange(
            a + 1,
            hi as int,
        ));
        a = a + 1;
    }
    assert(trim_start(chars@.subrange(a as int, hi as int)) == chars@.subrange(a as int, hi as int));
    let mut b = hi;
    while b > a && is_white_space_char(chars[b - 1])
        invariant
            lo <= a <= b <= hi <= chars.len(),
            trim(chars@.subrange(lo as int, hi as int)) == trim_end(
                chars@.subrange(a as int, b as int),
            ),
        decreases b - a,
    {
        assert(chars@.subrange(a as int, b as int).drop_last() =~= chars@.subrange(
            a as int,
            b - 1,
        ));
        b = b - 1;
    }
    (a, b)
}

/// The bounds of each piece of `chars` between occurrences of `sep`.
pub fn split_ranges(chars: &Vec<char>, sep: char) -> (r: Vec<(usize, usize)>)
    ensures
        r.len() == split(chars@, sep).len(),
        forall|k: int|
            0 <= k < r.len() ==> {
                &&& (#[trigger] r[k]).0 <= r[k].1 <= chars.len()
                &&& chars@.subrange(r[k].0 as int, r[k].1 as int) == split(chars@, sep)[k]
            },
{
    let n = chars.len();
    let mut r: Vec<(usize, usize)> = Vec::new();
    let mut start: usize = 0;
    let mut i: usize = 0;
    while i < n
        invariant
            n == chars.len(),
            start <= i <= n,
            r.len() + 1 == split(chars@.take(i as int), sep).len(),
            forall|k: int|
                0 <= k < r.len() ==> {
                    &&& (#[trigger] r[k]).0 <= r[k].1 <= i
                    &&& chars@.subrange(r[k].0 as int, r[k].1 as int) == split(
                        chars@.take(i as int),
                        sep,
                    )[k]
                },
            chars@.subrange(start as int, i as int) == split(chars@.take(i as int), sep).last(),
        decreases n - i,
    {
        let ghost prev = split(chars@.take(i as int), sep);
        proof {
            lemma_split_nonempty(chars@.take(i as int), sep);
            assert(chars@.take(i + 1).drop_last() =~= chars@.take(i as int));
            assert(chars@.take(i + 1).last() == chars@[i as int]);
        }
        if chars[i] == sep {
            r.push((start, i));
            start = i + 1;
            proof {
                assert(chars@.subrange(start as int, i + 1) =~= Seq::<char>::empty());
            }
        } else {
            proof {
                assert(chars@.subrange(start as int, i + 1) =~= chars@.subrange(
                    start as int,
                    i as int,
                ).push(chars@[i as int]));
            }
        }
        i = i + 1;
    }
    proof {
        assert(chars@.take(n as int) =~= chars@);
    }
    r.push((start, n));
    r
}

/// `String::push`: appends one character.
#[verifier::external_body]
pub(crate) fn push_char(s: &mut String, c: char)
    ensures
        final(s)@ == old(s)@.push(c),
{
    s.push(c);
}

/// The pieces of `line` between occurrences of `sep`, as owned strings.
pub fn split_fields(line: &str, sep: char) -> (r: Vec<String>)
    ensures
        strings_view(r@) == split(line@, sep),
{
    let chars = chars_of(line);
    let ranges = split_ranges(&chars, sep);
    let mut r: Vec<String> = Vec::new();
    for k in 0..ranges.len()
        invariant
            chars@ == line@,
            ranges.len() == split(line@, sep).len(),
            forall|j: int|
                0 <= j < ranges.len() ==> {
                    &&& (#[trigger] ranges[j]).0 <= ranges[j].1 <= chars.len()
                    &&& chars@.subrange(ranges[j].0 as int, ranges[j].1 as int) == split(
                        chars@,
                        sep,
                    )[j]
                },
            r.len() == k,
            forall|j: int| 0 <= j < k ==> (#[trigger] r[j])@ == split(line@, sep)[j],
    {
        let (a, b) = ranges[k];
        r.push(String::from_str(line.substring_char(a, b)));
    }
    assert(strings_view(r@) =~= split(line@, sep));
    r
}

/// `line` with leading and trailing white space removed.
pub fn trim_str(line: &str) -> (r: &str)
    ensures
        r@ == trim(line@),
{
    let chars = chars_of(line);
    let (a, b) = trim_range(&chars, 0, chars.len());
    proof {
        assert(chars@.subrange(0, chars.len() as int) =~= chars@);
    }
    line.substring_char(a, b)
}

/// `line` without its trailing white space.
pub fn trim_end_str(line: &str) -> (r: &str)
    ensures
        r@ == trim_end(line@),
{
    let chars = chars_of(line);
    let mut b = chars.len();
    proof {
        assert(chars@.subrange(0, b as int) =~= chars@);
    }
    while b > 0 && is_white_space_char(chars[b - 1])
        invariant
            b <= chars.len(),
            chars@ == line@,
            trim_end(line@) == trim_end(chars@.subrange(0, b as int)),
        decreases b,
    {
        assert(chars@.subrange(0, b as int).drop_last() =~= chars@.subrange(0, b - 1));
        b = b - 1;
    }
    line.substring_char(0, b)
}

} // verus!
